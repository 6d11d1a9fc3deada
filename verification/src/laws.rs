//! What holds of the statistics of every batch.
//!
//! The lemmas here are stated over sequences of runs, as the contracts of
//! [`ResultAnalyserGroup`] are: what they say of `runs` holds of a group whose
//! view is `runs`.

use crate::group::{
    mean_distance, mean_speed, partial_total, pure_mean_speed, speed, total, AnalyseError,
    Analysis, ResultAnalyserGroup,
};
use crate::ratio::{
    common_divisor, is_gcd, lemma_divisor_is_bounded, lemma_gcd_is_unique, lemma_of_is_reduced,
    Ratio,
};
use crate::run::{Quantity, RunRecord};
use vstd::prelude::*;

verus! {

/// Every run of the batch is valid: none moved for longer than it lasted.
pub open spec fn all_valid(runs: Seq<RunRecord>) -> bool {
    forall|i: int| 0 <= i < runs.len() ==> (#[trigger] runs[i]).is_valid()
}

/// A sum over a prefix depends on that prefix alone.
pub proof fn lemma_partial_total_of_equal_prefixes(
    a: Seq<RunRecord>,
    b: Seq<RunRecord>,
    quantity: Quantity,
    n: nat,
)
    requires
        n <= a.len(),
        n <= b.len(),
        forall|i: int| 0 <= i < n ==> a[i] == b[i],
    ensures
        partial_total(a, quantity, n) == partial_total(b, quantity, n),
    decreases n,
{
    if n > 0 {
        lemma_partial_total_of_equal_prefixes(a, b, quantity, (n - 1) as nat);
    }
}

/// Adding a run to a batch adds its measure to the sum.
pub proof fn lemma_total_of_push(runs: Seq<RunRecord>, run: RunRecord, quantity: Quantity)
    ensures
        total(runs.push(run), quantity) == total(runs, quantity) + run.measure(quantity),
{
    lemma_partial_total_of_equal_prefixes(runs.push(run), runs, quantity, runs.len());
}

/// Taking a run out of a batch takes its measure out of the sum.
pub proof fn lemma_total_of_remove(runs: Seq<RunRecord>, at: int, quantity: Quantity)
    requires
        0 <= at < runs.len(),
    ensures
        total(runs, quantity) == total(runs.remove(at), quantity) + runs[at].measure(quantity),
    decreases runs.len(),
{
    let rest = runs.drop_last();
    assert(runs == rest.push(runs.last()));
    lemma_total_of_push(rest, runs.last(), quantity);
    if at == runs.len() - 1 {
        assert(runs.remove(at) == rest);
    } else {
        lemma_total_of_remove(rest, at, quantity);
        assert(runs.remove(at) == rest.remove(at).push(runs.last()));
        lemma_total_of_push(rest.remove(at), runs.last(), quantity);
    }
}

/// A sum does not depend on the order of the runs: two batches that hold the
/// same runs, each as often as the other, have the same sum of every quantity.
pub proof fn lemma_total_ignores_order(a: Seq<RunRecord>, b: Seq<RunRecord>, quantity: Quantity)
    requires
        a.to_multiset() == b.to_multiset(),
    ensures
        total(a, quantity) == total(b, quantity),
    decreases a.len(),
{
    broadcast use vstd::seq_lib::group_to_multiset_ensures;

    assert(a.len() == b.len()) by {
        vstd::seq_lib::to_multiset_len(a);
        vstd::seq_lib::to_multiset_len(b);
    }
    if a.len() > 0 {
        let run = a.last();
        let rest = a.drop_last();
        assert(a == rest.push(run));
        assert(a.to_multiset().count(run) > 0);
        assert(b.contains(run));
        let at = choose|i: int| 0 <= i < b.len() && b[i] == run;
        assert(rest.to_multiset() == b.remove(at).to_multiset()) by {
            assert(rest.to_multiset() == a.to_multiset().remove(run));
        }
        lemma_total_ignores_order(rest, b.remove(at), quantity);
        lemma_total_of_push(rest, run, quantity);
        lemma_total_of_remove(b, at, quantity);
    }
}

/// The statistics of a batch do not depend on the order of its runs.
pub proof fn lemma_analysis_ignores_order(a: Seq<RunRecord>, b: Seq<RunRecord>)
    requires
        a.to_multiset() == b.to_multiset(),
    ensures
        Analysis::of(a) == Analysis::of(b),
{
    broadcast use vstd::seq_lib::group_to_multiset_ensures;

    assert(a.len() == b.len()) by {
        vstd::seq_lib::to_multiset_len(a);
        vstd::seq_lib::to_multiset_len(b);
    }
    lemma_total_ignores_order(a, b, Quantity::Distance);
    lemma_total_ignores_order(a, b, Quantity::TotalDuration);
    lemma_total_ignores_order(a, b, Quantity::PureDuration);
}

/// A sum is zero exactly where every run measures zero.
pub proof fn lemma_total_is_zero(runs: Seq<RunRecord>, quantity: Quantity)
    ensures
        total(runs, quantity) == 0 <==> forall|i: int|
            0 <= i < runs.len() ==> (#[trigger] runs[i]).measure(quantity) == 0,
    decreases runs.len(),
{
    if runs.len() > 0 {
        let rest = runs.drop_last();
        assert(runs == rest.push(runs.last()));
        lemma_total_of_push(rest, runs.last(), quantity);
        lemma_total_is_zero(rest, quantity);
        if total(runs, quantity) == 0 {
            assert forall|i: int| 0 <= i < runs.len() implies (#[trigger] runs[i]).measure(
                quantity,
            ) == 0 by {
                if i < rest.len() {
                    assert(rest[i] == runs[i]);
                }
            }
        } else if total(rest, quantity) != 0 {
            let at = choose|i: int|
                0 <= i < rest.len() && (#[trigger] rest[i]).measure(quantity) != 0;
            assert(runs[at] == rest[at]);
        }
    }
}

/// The mean distance of a single run is that run's own distance.
pub proof fn lemma_mean_of_one_run(run: RunRecord)
    ensures
        mean_distance(seq![run]) == (Ratio { numerator: run.distance as u128, denominator: 1 }),
{
    let runs = seq![run];
    let distance = run.distance as nat;
    assert(total(runs, Quantity::Distance) == distance) by {
        assert(partial_total(runs, Quantity::Distance, 0) == 0);
    }
    assert(is_gcd(1, distance, 1)) by {
        assert forall|d: nat| #[trigger] common_divisor(d, distance, 1) implies d <= 1 by {
            lemma_divisor_is_bounded(d, 1);
        }
    }
    lemma_gcd_is_unique(1, distance, 1);
}

/// The mean distance times the number of runs is the total distance: the mean
/// is the exact quotient, in lowest terms.
pub proof fn lemma_mean_distance_is_exact(runs: Seq<RunRecord>)
    requires
        0 < runs.len() <= usize::MAX,
    ensures
        mean_distance(runs).wf(),
        mean_distance(runs).is_value_of(total(runs, Quantity::Distance), runs.len()),
{
    crate::group::lemma_total_fits(runs, Quantity::Distance);
    lemma_of_is_reduced(total(runs, Quantity::Distance), runs.len());
}

/// A speed exists exactly where the time is not zero, and is then the exact
/// quotient of distance and time, in lowest terms.
pub proof fn lemma_speed_is_exact(distance: nat, time: nat)
    requires
        distance <= u128::MAX,
        time <= u128::MAX,
    ensures
        time == 0 <==> speed(distance, time) == Err::<Ratio, _>(AnalyseError::ZeroDuration),
        time > 0 <==> speed(distance, time) is Ok,
        time > 0 ==> speed(distance, time)->Ok_0.wf() && speed(distance, time)->Ok_0.is_value_of(
            distance,
            time,
        ),
{
    if time > 0 {
        lemma_of_is_reduced(distance, time);
    }
}

/// A batch in which no run took any time has no average speed.
pub proof fn lemma_no_speed_without_time(runs: Seq<RunRecord>)
    requires
        forall|i: int| 0 <= i < runs.len() ==> (#[trigger] runs[i]).total_duration == 0,
    ensures
        mean_speed(runs) == Err::<Ratio, _>(AnalyseError::ZeroDuration),
{
    lemma_total_is_zero(runs, Quantity::TotalDuration);
    assert forall|i: int| 0 <= i < runs.len() implies (#[trigger] runs[i]).measure(
        Quantity::TotalDuration,
    ) == 0 by {}
}

/// In a batch of valid runs the moving time is no longer than the whole time.
pub proof fn lemma_pure_time_within_total(runs: Seq<RunRecord>)
    requires
        all_valid(runs),
    ensures
        total(runs, Quantity::PureDuration) <= total(runs, Quantity::TotalDuration),
    decreases runs.len(),
{
    if runs.len() > 0 {
        let rest = runs.drop_last();
        assert(runs == rest.push(runs.last()));
        assert forall|i: int| 0 <= i < rest.len() implies (#[trigger] rest[i]).is_valid() by {
            assert(rest[i] == runs[i]);
        }
        lemma_pure_time_within_total(rest);
        lemma_total_of_push(rest, runs.last(), Quantity::PureDuration);
        lemma_total_of_push(rest, runs.last(), Quantity::TotalDuration);
        assert(runs.last().is_valid());
    }
}

/// Of two fractions with the same numerator, the one with the smaller
/// denominator is the greater.
pub proof fn lemma_smaller_time_is_faster(distance: nat, shorter: nat, longer: nat)
    requires
        0 < shorter <= longer,
        distance <= u128::MAX,
        longer <= u128::MAX,
    ensures
        Ratio::of(distance, longer).le(Ratio::of(distance, shorter)),
{
    lemma_of_is_reduced(distance, longer);
    lemma_of_is_reduced(distance, shorter);
    let slow = Ratio::of(distance, longer);
    let fast = Ratio::of(distance, shorter);
    let (a, b) = (slow.numerator as int, slow.denominator as int);
    let (c, e) = (fast.numerator as int, fast.denominator as int);
    let (d, p, t) = (distance as int, shorter as int, longer as int);
    assert(a * t == d * b);
    assert(c * p == d * e);
    assert((a * e) * (t * p) == (d * b * e) * p) by (nonlinear_arith)
        requires
            a * t == d * b,
    ;
    assert((c * b) * (t * p) == (d * b * e) * t) by (nonlinear_arith)
        requires
            c * p == d * e,
    ;
    assert((d * b * e) * p <= (d * b * e) * t) by (nonlinear_arith)
        requires
            p <= t,
            d >= 0,
            b >= 0,
            e >= 0,
    ;
    assert(a * e <= c * b) by (nonlinear_arith)
        requires
            (a * e) * (t * p) <= (c * b) * (t * p),
            t > 0,
            p > 0,
    ;
}

/// In a batch of valid runs that moved at all, both speeds exist, and the
/// speed over the moving time is at least the speed over the whole time.
pub proof fn lemma_pure_speed_is_no_less(runs: Seq<RunRecord>)
    requires
        all_valid(runs),
        runs.len() <= usize::MAX,
        total(runs, Quantity::PureDuration) > 0,
    ensures
        mean_speed(runs) is Ok,
        pure_mean_speed(runs) is Ok,
        mean_speed(runs)->Ok_0.le(pure_mean_speed(runs)->Ok_0),
{
    lemma_pure_time_within_total(runs);
    crate::group::lemma_total_fits(runs, Quantity::Distance);
    crate::group::lemma_total_fits(runs, Quantity::TotalDuration);
    lemma_smaller_time_is_faster(
        total(runs, Quantity::Distance),
        total(runs, Quantity::PureDuration),
        total(runs, Quantity::TotalDuration),
    );
}

/// Asking a group twice gives the same answer twice: whatever two calls of a
/// statistic return on one group, the two results are equal.
pub proof fn lemma_statistics_are_repeatable(group: ResultAnalyserGroup)
    ensures
        forall|first: u128, second: u128|
            #![trigger
                call_ensures(ResultAnalyserGroup::total_distance, (&group,), first),
                call_ensures(ResultAnalyserGroup::total_distance, (&group,), second),
            ]
            call_ensures(ResultAnalyserGroup::total_distance, (&group,), first) && call_ensures(
                ResultAnalyserGroup::total_distance,
                (&group,),
                second,
            ) ==> first == second,
        forall|first: u128, second: u128|
            #![trigger
                call_ensures(ResultAnalyserGroup::total_driving_time, (&group,), first),
                call_ensures(ResultAnalyserGroup::total_driving_time, (&group,), second),
            ]
            call_ensures(ResultAnalyserGroup::total_driving_time, (&group,), first) && call_ensures(
                ResultAnalyserGroup::total_driving_time,
                (&group,),
                second,
            ) ==> first == second,
        forall|first: u128, second: u128|
            #![trigger
                call_ensures(ResultAnalyserGroup::total_pure_driving_time, (&group,), first),
                call_ensures(ResultAnalyserGroup::total_pure_driving_time, (&group,), second),
            ]
            call_ensures(ResultAnalyserGroup::total_pure_driving_time, (&group,), first)
                && call_ensures(ResultAnalyserGroup::total_pure_driving_time, (&group,), second)
                ==> first == second,
        forall|first: Ratio, second: Ratio|
            #![trigger
                call_ensures(ResultAnalyserGroup::average_distance, (&group,), first),
                call_ensures(ResultAnalyserGroup::average_distance, (&group,), second),
            ]
            call_ensures(ResultAnalyserGroup::average_distance, (&group,), first) && call_ensures(
                ResultAnalyserGroup::average_distance,
                (&group,),
                second,
            ) ==> first == second,
        forall|first: Result<Ratio, AnalyseError>, second: Result<Ratio, AnalyseError>|
            #![trigger
                call_ensures(ResultAnalyserGroup::average_speed, (&group,), first),
                call_ensures(ResultAnalyserGroup::average_speed, (&group,), second),
            ]
            call_ensures(ResultAnalyserGroup::average_speed, (&group,), first) && call_ensures(
                ResultAnalyserGroup::average_speed,
                (&group,),
                second,
            ) ==> first == second,
        forall|first: Result<Ratio, AnalyseError>, second: Result<Ratio, AnalyseError>|
            #![trigger
                call_ensures(ResultAnalyserGroup::pure_average_speed, (&group,), first),
                call_ensures(ResultAnalyserGroup::pure_average_speed, (&group,), second),
            ]
            call_ensures(ResultAnalyserGroup::pure_average_speed, (&group,), first) && call_ensures(
                ResultAnalyserGroup::pure_average_speed,
                (&group,),
                second,
            ) ==> first == second,
        forall|first: Analysis, second: Analysis|
            #![trigger
                call_ensures(ResultAnalyserGroup::analysis, (&group,), first),
                call_ensures(ResultAnalyserGroup::analysis, (&group,), second),
            ]
            call_ensures(ResultAnalyserGroup::analysis, (&group,), first) && call_ensures(
                ResultAnalyserGroup::analysis,
                (&group,),
                second,
            ) ==> first == second,
{
}

} // verus!
