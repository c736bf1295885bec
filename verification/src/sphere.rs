use crate::interval::Interval;
use vstd::prelude::*;

verus! {

/// The root that a ray is taken to strike a sphere at, of the two roots
/// `near` and `far` of their quadratic: `near` where it lies strictly inside
/// `t_range`, else `far` where that does, else none.
pub open spec fn first_root_spec<T: PartialOrd + Copy + Clone>(
    t_range: Interval<T>,
    near: T,
    far: T,
) -> Option<T> {
    if t_range.contains_spec(near, false) {
        Some(near)
    } else if t_range.contains_spec(far, false) {
        Some(far)
    } else {
        None
    }
}

/// Picks the distance at which a ray strikes a sphere from the two roots of
/// their quadratic. The near root is tried first; where it falls outside
/// `t_range`, bounds left out, the far root is tried; where that fails too,
/// the ray does not strike the sphere within the range.
pub fn first_root<T: PartialOrd + Copy + Clone>(t_range: Interval<T>, near: T, far: T) -> (t:
    Option<T>)
    ensures
        t is None || t == Some(near) || t == Some(far),
        crate::interval::obeys_order::<T>() ==> t == first_root_spec(t_range, near, far),
{
    if t_range.contains(near, false) {
        Some(near)
    } else if t_range.contains(far, false) {
        Some(far)
    } else {
        None
    }
}

/// Where the near root does not lie above the far root, the root picked is
/// the earliest of the roots that lie strictly inside the range: it lies
/// inside itself, and no root inside the range lies strictly below it. None
/// is picked exactly when neither root lies inside.
pub proof fn law_first_root_is_earliest<T: PartialOrd + Copy + Clone>(
    t_range: Interval<T>,
    near: T,
    far: T,
)
    requires
        crate::interval::lawful_order::<T>(),
        crate::interval::at_most(near, far),
    ensures
        first_root_spec(t_range, near, far) matches Some(t) ==> {
            &&& t_range.contains_spec(t, false)
            &&& t_range.contains_spec(near, false) ==> !crate::interval::below(near, t)
            &&& t_range.contains_spec(far, false) ==> !crate::interval::below(far, t)
        },
        first_root_spec(t_range, near, far) is None <==> !t_range.contains_spec(near, false)
            && !t_range.contains_spec(far, false),
{
    crate::interval::lemma_below_is_strict(near, near);
    crate::interval::lemma_below_is_strict(far, far);
    crate::interval::lemma_below_is_strict(far, near);
}

} // verus!
