use vstd::prelude::*;
use vstd::std_specs::cmp::PartialEqSpec;
use vstd::std_specs::cmp::PartialOrdIs;
use vstd::std_specs::cmp::PartialOrdSpec;

verus! {

/// The comparison operators of `T` compute what their specification says.
pub open spec fn obeys_order<T: PartialOrd>() -> bool {
    T::obeys_partial_cmp_spec()
}

/// The comparisons of `T` compute what their specification says, and that
/// specification is a partial order: `a < b` exactly when `b > a`, equality is
/// symmetric, and `<` and `>` are transitive.
pub open spec fn lawful_order<T: PartialOrd>() -> bool {
    &&& T::obeys_partial_cmp_spec()
    &&& vstd::laws_cmp::obeys_partial_cmp_spec_properties::<T>()
}

/// `a` and `b` are ordered one way or the other, or equal. Two values of an
/// integer type always are; a value that is not a number is comparable with
/// nothing, itself included.
pub open spec fn comparable<T: PartialOrd>(a: T, b: T) -> bool {
    a.partial_cmp_spec(&b) is Some
}

/// `a` is strictly less than `b`.
pub open spec fn below<T: PartialOrd>(a: T, b: T) -> bool {
    a.is_lt(&b)
}

/// `a` is less than or equal to `b`.
pub open spec fn at_most<T: PartialOrd>(a: T, b: T) -> bool {
    a.is_le(&b)
}

/// A range of values between two bounds, with membership tests that take the
/// bounds in or leave them out.
#[derive(Clone, Copy)]
pub struct Interval<T: PartialOrd + Copy + Clone>(T, T);

impl<T: PartialOrd + Copy + Clone> View for Interval<T> {
    type V = (T, T);

    /// The lower and the upper bound, in this order.
    closed spec fn view(&self) -> (T, T) {
        (self.0, self.1)
    }
}

impl<T: PartialOrd + Copy + Clone> Interval<T> {
    /// The bounds that `new` stores for the two values it is given: the
    /// smaller one first, whichever way round they arrive.
    pub open spec fn bounds_of(low: T, high: T) -> (T, T) {
        (
            if low.is_lt(&high) {
                low
            } else {
                high
            },
            if high.is_gt(&low) {
                high
            } else {
                low
            },
        )
    }

    /// The lower bound does not lie above the upper bound.
    pub open spec fn ordered(&self) -> bool {
        self@.0.is_le(&self@.1)
    }

    /// Membership of `v`: between the bounds, the bounds themselves counted
    /// only when `inclusive` is set.
    pub open spec fn contains_spec(&self, v: T, inclusive: bool) -> bool {
        if inclusive {
            self@.0.is_le(&v) && v.is_le(&self@.1)
        } else {
            self@.0.is_lt(&v) && v.is_lt(&self@.1)
        }
    }

    /// Builds the interval between two values, putting them in order first.
    pub fn new(low: T, high: T) -> (r: Self)
        ensures
            r@.0 == low || r@.0 == high,
            r@.1 == low || r@.1 == high,
            T::obeys_partial_cmp_spec() ==> r@ == Self::bounds_of(low, high),
            lawful_order::<T>() && comparable(low, high) ==> r.ordered(),
    {
        let l = if low < high {
            low
        } else {
            high
        };
        let h = if high > low {
            high
        } else {
            low
        };
        proof {
            if lawful_order::<T>() && comparable(low, high) {
                law_bounds_are_ordered(low, high);
            }
        }
        Interval(l, h)
    }

    /// The lower bound.
    pub fn low(&self) -> (r: T)
        ensures
            r == self@.0,
    {
        self.0
    }

    /// The upper bound.
    pub fn high(&self) -> (r: T)
        ensures
            r == self@.1,
    {
        self.1
    }

    /// Tells whether `v` lies in the interval. With `inclusive` the bounds
    /// belong to it, without it they do not.
    pub fn contains(&self, v: T, inclusive: bool) -> (r: bool)
        ensures
            T::obeys_partial_cmp_spec() ==> r == self.contains_spec(v, inclusive),
    {
        let (l, h) = (self.0, self.1);
        if inclusive {
            l <= v && v <= h
        } else {
            l < v && v < h
        }
    }
}

/// Whichever way round two comparable values are given, the bounds built from
/// them are in order: the first is less than or equal to the second.
pub proof fn law_bounds_are_ordered<T: PartialOrd + Copy + Clone>(a: T, b: T)
    requires
        lawful_order::<T>(),
        comparable(a, b),
    ensures
        Interval::<T>::bounds_of(a, b).0.is_le(&Interval::<T>::bounds_of(a, b).1),
        Interval::<T>::bounds_of(a, b) == (a, b) || Interval::<T>::bounds_of(a, b) == (b, a),
{
    reveal(vstd::laws_cmp::obeys_partial_cmp_spec_properties);
    reveal(vstd::laws_eq::obeys_eq_spec_properties);
    if a.is_gt(&b) {
        assert(b.is_lt(&a));
    } else if !a.is_lt(&b) {
        assert(a.partial_cmp_spec(&b) == Some(core::cmp::Ordering::Equal));
        assert(a.eq_spec(&b) && b.eq_spec(&a));
        assert(b.is_le(&a));
    }
}

/// The lower bound of an interval belongs to it when the bounds are taken in,
/// and does not when they are left out.
pub proof fn law_low_bound_is_inclusive_only<T: PartialOrd + Copy + Clone>(i: Interval<T>)
    requires
        lawful_order::<T>(),
        i.ordered(),
        comparable(i@.0, i@.0),
    ensures
        i.contains_spec(i@.0, true),
        !i.contains_spec(i@.0, false),
{
    reveal(vstd::laws_cmp::obeys_partial_cmp_spec_properties);
    reveal(vstd::laws_eq::obeys_eq_spec_properties);
}

/// Nothing lies strictly between the bounds of an interval and on one of them
/// at once: the exclusive test refuses both bounds.
pub proof fn law_exclusive_refuses_bounds<T: PartialOrd + Copy + Clone>(i: Interval<T>)
    requires
        lawful_order::<T>(),
    ensures
        !i.contains_spec(i@.0, false),
        !i.contains_spec(i@.1, false),
{
    reveal(vstd::laws_cmp::obeys_partial_cmp_spec_properties);
    reveal(vstd::laws_eq::obeys_eq_spec_properties);
}

/// A value strictly inside `inner`, where `inner` is `outer` or what is left
/// of `outer` below one of its own values, lies strictly inside `outer` too;
/// and the interval built from the lower bound and that value runs from the
/// one to the other.
pub proof fn lemma_strike_narrows<T: PartialOrd + Copy + Clone>(
    outer: Interval<T>,
    inner: Interval<T>,
    t: T,
)
    requires
        lawful_order::<T>(),
        inner@.0 == outer@.0,
        inner@.1 == outer@.1 || outer.contains_spec(inner@.1, false),
        inner.contains_spec(t, false),
    ensures
        outer.contains_spec(t, false),
        Interval::<T>::bounds_of(outer@.0, t) == (outer@.0, t),
{
    reveal(vstd::laws_cmp::obeys_partial_cmp_spec_properties);
    reveal(vstd::laws_eq::obeys_eq_spec_properties);
    assert(t.is_gt(&outer@.0));
}

/// What lies strictly below `b` lies strictly below everything that `b` is
/// or lies below.
pub proof fn lemma_below_chain<T: PartialOrd + Copy + Clone>(a: T, b: T, c: T)
    requires
        lawful_order::<T>(),
        below(a, b),
        b == c || below(b, c),
    ensures
        below(a, c),
{
    reveal(vstd::laws_cmp::obeys_partial_cmp_spec_properties);
}

/// What lies strictly below a value is not equal to it and does not lie
/// above it: `a < b` rules out `b < a` and `b <= a`.
pub proof fn lemma_below_is_strict<T: PartialOrd + Copy + Clone>(a: T, b: T)
    requires
        lawful_order::<T>(),
    ensures
        below(a, b) ==> !below(b, a) && !at_most(b, a),
{
    reveal(vstd::laws_cmp::obeys_partial_cmp_spec_properties);
    reveal(vstd::laws_eq::obeys_eq_spec_properties);
    if below(a, b) {
        assert(b.is_gt(&a));
    }
}

} // verus!
