use crate::interval::Interval;
use std::rc::Rc;
use vstd::prelude::*;

verus! {

/// A surface that a ray of type `R` may strike, at a distance of type `T`
/// along the ray.
pub trait Hittable<R, T: PartialOrd + Copy + Clone> {
    /// The record of one strike.
    type Hit;

    /// Looks for a strike of `ray` on this surface, and reports it as its
    /// distance along the ray and its record. Only a strike whose distance
    /// lies strictly inside `t_range` may be reported.
    fn hits(&self, ray: &R, t_range: Interval<T>) -> (found: Option<(T, Self::Hit)>)
        ensures
            found matches Some(strike) ==> t_range.contains_spec(strike.0, false),
    ;
}

/// A shared surface is struck where the surface itself is struck.
impl<R, T: PartialOrd + Copy + Clone, H: Hittable<R, T> + ?Sized> Hittable<R, T> for Rc<H> {
    type Hit = H::Hit;

    /// Asks the surface that is shared, and hands on its answer: what comes
    /// back is an answer of that surface to the same ray and range.
    fn hits(&self, ray: &R, t_range: Interval<T>) -> (found: Option<(T, Self::Hit)>)
        ensures
            call_ensures(H::hits, (&**self, ray, t_range), found),
    {
        (**self).hits(ray, t_range)
    }
}

/// The last strike in a run of answers; none where every answer is a miss.
pub open spec fn last_strike<X>(answers: Seq<Option<X>>) -> Option<X>
    decreases answers.len(),
{
    if answers.len() == 0 {
        None
    } else if answers.last() is Some {
        answers.last()
    } else {
        last_strike(answers.drop_last())
    }
}

/// `answers` and `ranges` are the record of one scan of `hittables`:
/// `ranges[i]` is the range that member `i` was asked for and `answers[i]` is
/// something that its `hits` may answer to that. The first range is
/// `t_range`. After a miss the range stays; after a strike the next range
/// is the one built from the lower bound of `t_range` and the distance of
/// that strike.
pub open spec fn is_scan<R, T: PartialOrd + Copy + Clone, H: Hittable<R, T>>(
    ray: &R,
    t_range: Interval<T>,
    hittables: Seq<H>,
    answers: Seq<Option<(T, H::Hit)>>,
    ranges: Seq<Interval<T>>,
) -> bool {
    &&& answers.len() == hittables.len()
    &&& ranges.len() == hittables.len() + 1
    &&& ranges[0] == t_range
    &&& forall|i: int|
        0 <= i < hittables.len() ==> {
            &&& call_ensures(H::hits, (&hittables[i], ray, ranges[i]), #[trigger] answers[i])
            &&& match answers[i] {
                None => ranges[i + 1] == ranges[i],
                Some(strike) => crate::interval::obeys_order::<T>() ==> ranges[i + 1]@
                    == Interval::<T>::bounds_of(t_range@.0, strike.0),
            }
        }
}

/// One step of a scan: what the search range and the nearest strike become
/// once a member of the scene has answered. A miss changes nothing. A strike
/// replaces the nearest strike so far, and the range shrinks to the values
/// between `low` and the distance of that strike.
pub fn scan_step<T: PartialOrd + Copy + Clone, X>(
    low: T,
    t_range: Interval<T>,
    best: Option<(T, X)>,
    found: Option<(T, X)>,
) -> (next: (Interval<T>, Option<(T, X)>))
    ensures
        found is None ==> next == (t_range, best),
        found is Some ==> next.1 == found,
        found matches Some(strike) ==> crate::interval::obeys_order::<T>() ==> next.0@
            == Interval::<T>::bounds_of(low, strike.0),
{
    match found {
        None => (t_range, best),
        Some((t, hit)) => (Interval::new(low, t), Some((t, hit))),
    }
}

/// Looks for the strike of `ray` nearest to its origin among the members of a
/// scene. Each member is asked in turn, for the range that the strikes seen
/// before it have left: once a strike is found, only strikes strictly nearer
/// than it are asked for, the lower end of the range staying where it was.
/// What comes back is the last strike that any member reported.
pub fn hit_scan<R, T: PartialOrd + Copy + Clone, H: Hittable<R, T>>(
    ray: &R,
    t_range: Interval<T>,
    hittables: &[H],
) -> (best_hit: Option<(T, H::Hit)>)
    ensures
        hittables@.len() == 0 ==> best_hit is None,
        exists|answers: Seq<Option<(T, H::Hit)>>, ranges: Seq<Interval<T>>|
            #[trigger] is_scan(ray, t_range, hittables@, answers, ranges) && best_hit
                == last_strike(answers),
        crate::interval::lawful_order::<T>() ==> (best_hit matches Some(strike)
            ==> t_range.contains_spec(strike.0, false)),
{
    let mut best_hit: Option<(T, H::Hit)> = None;
    let low = t_range.low();
    let mut range = t_range;
    let mut i: usize = 0;
    let ghost mut answers: Seq<Option<(T, H::Hit)>> = Seq::empty();
    let ghost mut ranges: Seq<Interval<T>> = seq![t_range];
    while i < hittables.len()
        invariant
            i <= hittables@.len(),
            low == t_range@.0,
            is_scan(ray, t_range, hittables@.take(i as int), answers, ranges),
            range == ranges[i as int],
            best_hit == last_strike(answers),
            best_hit is None ==> range == t_range,
            crate::interval::lawful_order::<T>() ==> (best_hit matches Some(strike) ==> {
                &&& t_range.contains_spec(strike.0, false)
                &&& range@ == (low, strike.0)
            }),
        decreases hittables@.len() - i,
    {
        let found = hittables[i].hits(ray, range);
        let ghost reported = found;
        proof {
            if crate::interval::lawful_order::<T>() && found is Some {
                crate::interval::lemma_strike_narrows(t_range, range, (found->0).0);
            }
        }
        let next = scan_step(low, range, best_hit, found);
        proof {
            let longer = answers.push(reported);
            let further = ranges.push(next.0);
            assert(longer.drop_last() =~= answers);
            assert forall|k: int| 0 <= k < i + 1 implies {
                &&& call_ensures(
                    H::hits,
                    (&hittables@.take(i + 1)[k], ray, further[k]),
                    #[trigger] longer[k],
                )
                &&& match longer[k] {
                    None => further[k + 1] == further[k],
                    Some(strike) => crate::interval::obeys_order::<T>() ==> further[k + 1]@
                        == Interval::<T>::bounds_of(t_range@.0, strike.0),
                }
            } by {
                if k < i {
                    assert(hittables@.take(i + 1)[k] == hittables@.take(i as int)[k]);
                    assert(longer[k] == answers[k]);
                }
            }
            answers = longer;
            ranges = further;
        }
        range = next.0;
        best_hit = next.1;
        i += 1;
    }
    proof {
        assert(hittables@.take(i as int) =~= hittables@);
    }
    best_hit
}

/// Where the last strike stands in a run of answers; -1 where every answer
/// is a miss.
pub open spec fn last_strike_at<X>(answers: Seq<Option<X>>) -> int
    decreases answers.len(),
{
    if answers.len() == 0 {
        -1
    } else if answers.last() is Some {
        answers.len() - 1
    } else {
        last_strike_at(answers.drop_last())
    }
}

/// Where an answer is a strike, the last strike is the answer at
/// `last_strike_at`, which does not stand before that answer.
pub proof fn lemma_last_strike<X>(answers: Seq<Option<X>>, i: int)
    requires
        0 <= i < answers.len(),
        answers[i] is Some,
    ensures
        i <= last_strike_at(answers) < answers.len(),
        last_strike(answers) == answers[last_strike_at(answers)],
        last_strike(answers) is Some,
    decreases answers.len(),
{
    if answers.last() is None {
        lemma_last_strike(answers.drop_last(), i);
    }
}

/// In the record of a scan every range starts where `t_range` starts, and
/// ends where `t_range` ends or strictly inside it.
pub proof fn lemma_scan_ranges<R, T: PartialOrd + Copy + Clone, H: Hittable<R, T>>(
    ray: &R,
    t_range: Interval<T>,
    hittables: Seq<H>,
    answers: Seq<Option<(T, H::Hit)>>,
    ranges: Seq<Interval<T>>,
    k: int,
)
    requires
        crate::interval::lawful_order::<T>(),
        is_scan(ray, t_range, hittables, answers, ranges),
        0 <= k <= hittables.len(),
    ensures
        ranges[k]@.0 == t_range@.0,
        ranges[k]@.1 == t_range@.1 || t_range.contains_spec(ranges[k]@.1, false),
    decreases k,
{
    if k > 0 {
        lemma_scan_ranges(ray, t_range, hittables, answers, ranges, k - 1);
        if let Some(hit) = answers[k - 1] {
            crate::interval::lemma_strike_narrows(t_range, ranges[k - 1], hit.0);
        }
    }
}

/// In the record of a scan, once member `i` has reported a strike, every
/// later range ends at the distance of that strike or strictly below it.
pub proof fn lemma_scan_stays_below<R, T: PartialOrd + Copy + Clone, H: Hittable<R, T>>(
    ray: &R,
    t_range: Interval<T>,
    hittables: Seq<H>,
    answers: Seq<Option<(T, H::Hit)>>,
    ranges: Seq<Interval<T>>,
    i: int,
    j: int,
)
    requires
        crate::interval::lawful_order::<T>(),
        is_scan(ray, t_range, hittables, answers, ranges),
        0 <= i < j <= hittables.len(),
        answers[i] is Some,
    ensures
        ranges[j]@.0 == t_range@.0,
        ranges[j]@.1 == (answers[i]->0).0 || crate::interval::below(
            ranges[j]@.1,
            (answers[i]->0).0,
        ),
    decreases j,
{
    lemma_scan_ranges(ray, t_range, hittables, answers, ranges, j - 1);
    lemma_scan_ranges(ray, t_range, hittables, answers, ranges, j);
    if j > i + 1 {
        lemma_scan_stays_below(ray, t_range, hittables, answers, ranges, i, j - 1);
    }
    if let Some(hit) = answers[j - 1] {
        crate::interval::lemma_strike_narrows(t_range, ranges[j - 1], hit.0);
        if j > i + 1 {
            crate::interval::lemma_below_chain(hit.0, ranges[j - 1]@.1, (answers[i]->0).0);
        }
    }
}

/// Of two strikes that a scan reports, the later one is strictly nearer.
pub proof fn law_later_strike_is_nearer<R, T: PartialOrd + Copy + Clone, H: Hittable<R, T>>(
    ray: &R,
    t_range: Interval<T>,
    hittables: Seq<H>,
    answers: Seq<Option<(T, H::Hit)>>,
    ranges: Seq<Interval<T>>,
    i: int,
    j: int,
)
    requires
        crate::interval::lawful_order::<T>(),
        is_scan(ray, t_range, hittables, answers, ranges),
        0 <= i < j < hittables.len(),
        answers[i] is Some,
        answers[j] is Some,
    ensures
        crate::interval::below((answers[j]->0).0, (answers[i]->0).0),
{
    lemma_scan_stays_below(ray, t_range, hittables, answers, ranges, i, j);
    crate::interval::lemma_below_chain((answers[j]->0).0, ranges[j]@.1, (answers[i]->0).0);
}

/// The strike that a scan settles on is the nearest of all that were
/// reported: any reported strike is that one, or lies strictly farther away.
pub proof fn law_scan_settles_on_nearest<R, T: PartialOrd + Copy + Clone, H: Hittable<R, T>>(
    ray: &R,
    t_range: Interval<T>,
    hittables: Seq<H>,
    answers: Seq<Option<(T, H::Hit)>>,
    ranges: Seq<Interval<T>>,
    i: int,
)
    requires
        crate::interval::lawful_order::<T>(),
        is_scan(ray, t_range, hittables, answers, ranges),
        0 <= i < hittables.len(),
        answers[i] is Some,
    ensures
        last_strike(answers) is Some,
        t_range.contains_spec((last_strike(answers)->0).0, false),
        i == last_strike_at(answers) || crate::interval::below(
            (last_strike(answers)->0).0,
            (answers[i]->0).0,
        ),
{
    lemma_last_strike(answers, i);
    let m = last_strike_at(answers);
    lemma_scan_ranges(ray, t_range, hittables, answers, ranges, m);
    crate::interval::lemma_strike_narrows(t_range, ranges[m], (answers[m]->0).0);
    if i < m {
        law_later_strike_is_nearer(ray, t_range, hittables, answers, ranges, i, m);
    }
}

} // verus!
