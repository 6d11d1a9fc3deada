//! Statistics over a batch of train-simulator runs.
//!
//! A [`RunRecord`] holds what one run measured: the distance covered, the time
//! it took, and the part of that time in which the train was moving. A
//! [`ResultAnalyserGroup`] owns a non-empty batch of records and answers six
//! questions about it: the three sums, the mean distance, and the two average
//! speeds. All quantities are whole numbers of a unit that the caller fixes
//! (metres and seconds, or millimetres and milliseconds); sums are exact, and
//! quotients are exact fractions in lowest terms.

pub mod files;
pub mod group;
pub mod laws;
pub mod ratio;
pub mod run;

pub use files::{
    analyse_files, read_result, AnalyseFilesArgs, FileOutcome, FilesReport, ReadResultError,
    Skipped,
};
pub use group::{AnalyseError, Analysis, ResultAnalyserGroup};
pub use ratio::Ratio;
pub use run::{Quantity, RunRecord};
