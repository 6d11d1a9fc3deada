//! One simulation run, as measured.

use vstd::prelude::*;

verus! {

/// The three quantities that a run is measured in.
#[derive(Clone, Copy, Debug, PartialEq, Eq)]
pub enum Quantity {
    /// Distance covered.
    Distance,
    /// Time from start to end.
    TotalDuration,
    /// Time in which the train was moving.
    PureDuration,
}

/// What one run measured.
///
/// The three quantities are whole numbers of the caller's length and time
/// units. A record is plain data: nothing here checks it. [`RunRecord::is_valid`]
/// says what a well-formed record looks like, and the statistics that depend on
/// it say so.
#[derive(Clone, Copy, Debug, PartialEq, Eq)]
pub struct RunRecord {
    /// Distance covered during the run.
    pub distance: u64,
    /// Time from the start of the run to its end.
    pub total_duration: u64,
    /// The part of `total_duration` in which the train was moving.
    pub pure_duration: u64,
}

impl RunRecord {
    /// A record is valid when its moving time is no longer than its whole time.
    pub open spec fn is_valid(self) -> bool {
        self.pure_duration <= self.total_duration
    }

    /// The record's value of one quantity.
    pub open spec fn measure(self, quantity: Quantity) -> nat {
        match quantity {
            Quantity::Distance => self.distance as nat,
            Quantity::TotalDuration => self.total_duration as nat,
            Quantity::PureDuration => self.pure_duration as nat,
        }
    }

    /// The record's value of one quantity.
    pub fn get(&self, quantity: Quantity) -> (value: u64)
        ensures
            value == self.measure(quantity),
    {
        match quantity {
            Quantity::Distance => self.distance,
            Quantity::TotalDuration => self.total_duration,
            Quantity::PureDuration => self.pure_duration,
        }
    }

    /// Builds a record from its three measurements, unchecked.
    pub fn new(distance: u64, total_duration: u64, pure_duration: u64) -> (record: RunRecord)
        ensures
            record.distance == distance,
            record.total_duration == total_duration,
            record.pure_duration == pure_duration,
    {
        RunRecord { distance, total_duration, pure_duration }
    }
}

} // verus!
