//! The batch of runs and its statistics.

use crate::ratio::Ratio;
use crate::run::{Quantity, RunRecord};
use vstd::prelude::*;

verus! {

/// Why a statistic could not be had.
#[derive(Clone, Copy, Debug, PartialEq, Eq)]
pub enum AnalyseError {
    /// A group was asked for over no runs at all.
    EmptyBatch,
    /// A speed was asked for over a batch whose times add up to zero.
    ZeroDuration,
}

/// The sum of one quantity over the first `n` runs of `runs`.
pub open spec fn partial_total(runs: Seq<RunRecord>, quantity: Quantity, n: nat) -> nat
    decreases n,
{
    if n == 0 {
        0
    } else {
        partial_total(runs, quantity, (n - 1) as nat) + runs[n - 1].measure(quantity)
    }
}

/// The sum of one quantity over all of `runs`.
pub open spec fn total(runs: Seq<RunRecord>, quantity: Quantity) -> nat {
    partial_total(runs, quantity, runs.len())
}

/// The mean distance of `runs`: the distances added up, over the number of runs.
pub open spec fn mean_distance(runs: Seq<RunRecord>) -> Ratio {
    Ratio::of(total(runs, Quantity::Distance), runs.len())
}

/// The speed at which `distance` is covered in `time`; there is none where no
/// time has passed.
pub open spec fn speed(distance: nat, time: nat) -> Result<Ratio, AnalyseError> {
    if time == 0 {
        Err(AnalyseError::ZeroDuration)
    } else {
        Ok(Ratio::of(distance, time))
    }
}

/// The speed over the whole time of `runs`.
pub open spec fn mean_speed(runs: Seq<RunRecord>) -> Result<Ratio, AnalyseError> {
    speed(total(runs, Quantity::Distance), total(runs, Quantity::TotalDuration))
}

/// The speed over the time in which the trains of `runs` were moving.
pub open spec fn pure_mean_speed(runs: Seq<RunRecord>) -> Result<Ratio, AnalyseError> {
    speed(total(runs, Quantity::Distance), total(runs, Quantity::PureDuration))
}

/// A sum over `n` runs is at most `n` times the greatest value of a quantity.
pub proof fn lemma_partial_total_is_bounded(runs: Seq<RunRecord>, quantity: Quantity, n: nat)
    requires
        n <= runs.len(),
    ensures
        partial_total(runs, quantity, n) <= n * u64::MAX,
    decreases n,
{
    if n > 0 {
        lemma_partial_total_is_bounded(runs, quantity, (n - 1) as nat);
    }
}

/// The sum of a quantity over any batch that a `Vec` can hold fits in 128 bits.
pub proof fn lemma_total_fits(runs: Seq<RunRecord>, quantity: Quantity)
    requires
        runs.len() <= usize::MAX,
    ensures
        total(runs, quantity) <= u128::MAX,
{
    lemma_partial_total_is_bounded(runs, quantity, runs.len());
}

/// Adds up one quantity over `runs`.
pub fn sum_of(runs: &Vec<RunRecord>, quantity: Quantity) -> (sum: u128)
    ensures
        sum == total(runs@, quantity),
{
    let mut sum: u128 = 0;
    let mut i: usize = 0;
    while i < runs.len()
        invariant
            i <= runs.len(),
            sum == partial_total(runs@, quantity, i as nat),
        decreases runs.len() - i,
    {
        proof {
            lemma_partial_total_is_bounded(runs@, quantity, i as nat);
        }
        sum = sum + runs[i].get(quantity) as u128;
        i = i + 1;
    }
    sum
}

/// The speed at which `distance` is covered in `time`: `ZeroDuration` where
/// `time` is zero, and otherwise the exact quotient in lowest terms.
pub fn speed_over(distance: u128, time: u128) -> (result: Result<Ratio, AnalyseError>)
    ensures
        result == speed(distance as nat, time as nat),
        time == 0 <==> result == Err::<Ratio, _>(AnalyseError::ZeroDuration),
        time > 0 <==> result is Ok,
        result matches Ok(ratio) ==> ratio.wf() && ratio.is_value_of(distance as nat, time as nat),
{
    if time == 0 {
        Err(AnalyseError::ZeroDuration)
    } else {
        Ok(Ratio::new(distance, time))
    }
}

/// The six statistics of a batch, taken together.
#[derive(Clone, Copy, Debug, PartialEq, Eq)]
pub struct Analysis {
    /// The distances of all runs, added up.
    pub total_distance: u128,
    /// `total_distance` over the number of runs.
    pub average_distance: Ratio,
    /// `total_distance` over `total_driving_time`.
    pub average_speed: Result<Ratio, AnalyseError>,
    /// `total_distance` over `total_pure_driving_time`.
    pub pure_average_speed: Result<Ratio, AnalyseError>,
    /// The whole times of all runs, added up.
    pub total_driving_time: u128,
    /// The moving times of all runs, added up.
    pub total_pure_driving_time: u128,
}

impl Analysis {
    /// The statistics of `runs`, each by its definition.
    pub open spec fn of(runs: Seq<RunRecord>) -> Analysis {
        Analysis {
            total_distance: total(runs, Quantity::Distance) as u128,
            average_distance: mean_distance(runs),
            average_speed: mean_speed(runs),
            pure_average_speed: pure_mean_speed(runs),
            total_driving_time: total(runs, Quantity::TotalDuration) as u128,
            total_pure_driving_time: total(runs, Quantity::PureDuration) as u128,
        }
    }
}

/// A non-empty batch of runs, with its three sums.
///
/// The sums are taken once, when the group is made, and can never differ from
/// the runs: the group is read-only, and its invariant ties them together.
pub struct ResultAnalyserGroup {
    runs: Vec<RunRecord>,
    distance: u128,
    driving_time: u128,
    pure_driving_time: u128,
}

impl View for ResultAnalyserGroup {
    type V = Seq<RunRecord>;

    /// The runs of the group, in the order in which they were given.
    closed spec fn view(&self) -> Seq<RunRecord> {
        self.runs@
    }
}

impl ResultAnalyserGroup {
    /// There is a run, and each stored sum is the sum over the runs.
    #[verifier::type_invariant]
    spec fn well_formed(self) -> bool {
        &&& self.runs@.len() > 0
        &&& self.distance == total(self.runs@, Quantity::Distance)
        &&& self.driving_time == total(self.runs@, Quantity::TotalDuration)
        &&& self.pure_driving_time == total(self.runs@, Quantity::PureDuration)
    }

    /// The group over `runs`.
    pub closed spec fn over(runs: Vec<RunRecord>) -> ResultAnalyserGroup {
        ResultAnalyserGroup {
            runs,
            distance: total(runs@, Quantity::Distance) as u128,
            driving_time: total(runs@, Quantity::TotalDuration) as u128,
            pure_driving_time: total(runs@, Quantity::PureDuration) as u128,
        }
    }

    /// What making a group of `runs` gives: the group over them, or
    /// `EmptyBatch` where there are none.
    pub open spec fn try_over(runs: Vec<RunRecord>) -> Result<ResultAnalyserGroup, AnalyseError> {
        if runs@.len() == 0 {
            Err(AnalyseError::EmptyBatch)
        } else {
            Ok(ResultAnalyserGroup::over(runs))
        }
    }

    /// The group over `runs` holds just these runs, in their order.
    pub proof fn lemma_over_holds_runs(runs: Vec<RunRecord>)
        ensures
            ResultAnalyserGroup::over(runs)@ == runs@,
    {
    }

    /// Makes a group of `runs`: it succeeds exactly where there is a run, and
    /// fails with `EmptyBatch` where there is none.
    pub fn new(runs: Vec<RunRecord>) -> (result: Result<ResultAnalyserGroup, AnalyseError>)
        ensures
            result == ResultAnalyserGroup::try_over(runs),
            runs@.len() > 0 ==> result is Ok && result->Ok_0@ == runs@,
            runs@.len() == 0 ==> result == Err::<ResultAnalyserGroup, _>(AnalyseError::EmptyBatch),
    {
        if runs.len() == 0 {
            return Err(AnalyseError::EmptyBatch);
        }
        let distance = sum_of(&runs, Quantity::Distance);
        let driving_time = sum_of(&runs, Quantity::TotalDuration);
        let pure_driving_time = sum_of(&runs, Quantity::PureDuration);
        Ok(ResultAnalyserGroup { runs, distance, driving_time, pure_driving_time })
    }

    /// The runs of the group, in the order in which they were given.
    pub fn runs(&self) -> (runs: &Vec<RunRecord>)
        ensures
            runs@ == self@,
            runs@.len() > 0,
    {
        proof {
            use_type_invariant(self);
        }
        &self.runs
    }

    /// The number of runs, which is never zero.
    pub fn count(&self) -> (count: usize)
        ensures
            count == self@.len(),
            count > 0,
    {
        proof {
            use_type_invariant(self);
        }
        self.runs.len()
    }

    /// The distances of all runs, added up.
    pub fn total_distance(&self) -> (sum: u128)
        ensures
            sum == total(self@, Quantity::Distance),
    {
        proof {
            use_type_invariant(self);
        }
        self.distance
    }

    /// The whole times of all runs, added up.
    pub fn total_driving_time(&self) -> (sum: u128)
        ensures
            sum == total(self@, Quantity::TotalDuration),
    {
        proof {
            use_type_invariant(self);
        }
        self.driving_time
    }

    /// The moving times of all runs, added up.
    pub fn total_pure_driving_time(&self) -> (sum: u128)
        ensures
            sum == total(self@, Quantity::PureDuration),
    {
        proof {
            use_type_invariant(self);
        }
        self.pure_driving_time
    }

    /// The total distance over the number of runs, as an exact fraction.
    pub fn average_distance(&self) -> (mean: Ratio)
        ensures
            mean == mean_distance(self@),
            mean.wf(),
            mean.is_value_of(total(self@, Quantity::Distance), self@.len()),
    {
        proof {
            use_type_invariant(self);
        }
        Ratio::new(self.distance, self.runs.len() as u128)
    }

    /// The total distance over the total driving time, as an exact fraction;
    /// `ZeroDuration` where the driving times add up to zero.
    pub fn average_speed(&self) -> (result: Result<Ratio, AnalyseError>)
        ensures
            result == mean_speed(self@),
            total(self@, Quantity::TotalDuration) == 0 <==> result == Err::<Ratio, _>(
                AnalyseError::ZeroDuration,
            ),
            total(self@, Quantity::TotalDuration) > 0 <==> result is Ok,
            result matches Ok(ratio) ==> ratio.wf() && ratio.is_value_of(
                total(self@, Quantity::Distance),
                total(self@, Quantity::TotalDuration),
            ),
    {
        proof {
            use_type_invariant(self);
        }
        speed_over(self.distance, self.driving_time)
    }

    /// The total distance over the total moving time, as an exact fraction;
    /// `ZeroDuration` where the moving times add up to zero.
    pub fn pure_average_speed(&self) -> (result: Result<Ratio, AnalyseError>)
        ensures
            result == pure_mean_speed(self@),
            total(self@, Quantity::PureDuration) == 0 <==> result == Err::<Ratio, _>(
                AnalyseError::ZeroDuration,
            ),
            total(self@, Quantity::PureDuration) > 0 <==> result is Ok,
            result matches Ok(ratio) ==> ratio.wf() && ratio.is_value_of(
                total(self@, Quantity::Distance),
                total(self@, Quantity::PureDuration),
            ),
    {
        proof {
            use_type_invariant(self);
        }
        speed_over(self.distance, self.pure_driving_time)
    }

    /// All six statistics at once.
    pub fn analysis(&self) -> (analysis: Analysis)
        ensures
            analysis == Analysis::of(self@),
    {
        Analysis {
            total_distance: self.total_distance(),
            average_distance: self.average_distance(),
            average_speed: self.average_speed(),
            pure_average_speed: self.pure_average_speed(),
            total_driving_time: self.total_driving_time(),
            total_pure_driving_time: self.total_pure_driving_time(),
        }
    }
}

impl TryFrom<Vec<RunRecord>> for ResultAnalyserGroup {
    type Error = AnalyseError;

    /// Makes a group of `runs`, as [`ResultAnalyserGroup::new`] does.
    fn try_from(runs: Vec<RunRecord>) -> (result: Result<ResultAnalyserGroup, AnalyseError>) {
        ResultAnalyserGroup::new(runs)
    }
}

impl vstd::std_specs::convert::TryFromSpecImpl<Vec<RunRecord>> for ResultAnalyserGroup {
    open spec fn obeys_try_from_spec() -> bool {
        true
    }

    open spec fn try_from_spec(runs: Vec<RunRecord>) -> Result<ResultAnalyserGroup, AnalyseError> {
        ResultAnalyserGroup::try_over(runs)
    }
}

} // verus!
