//! From the files that a pattern matched to the batch that is analysed.
//!
//! Finding and reading files is the caller's work. What is decided here is
//! which run a file stands for, which files enter the batch, which are left
//! out, and what is said about each.

use crate::group::{AnalyseError, ResultAnalyserGroup};
use crate::run::RunRecord;
use vstd::prelude::*;

verus! {

/// What to analyse, and how much to say while doing so.
pub struct AnalyseFilesArgs {
    /// The pattern that the files to analyse match.
    pub pattern: String,
    /// Whether the path of every file that enters the batch is shown.
    pub debug: bool,
}

/// Why no run could be had from a file.
#[derive(Debug, PartialEq, Eq)]
pub enum ReadResultError {
    /// The file could not be found or read; the text says why.
    IOError(String),
    /// The file could not be parsed; the text says why.
    DeError(String),
    /// The file was parsed and holds no run.
    NoResults,
}

impl Clone for ReadResultError {
    fn clone(&self) -> (copy: ReadResultError)
        ensures
            copy == *self,
    {
        match self {
            ReadResultError::IOError(text) => ReadResultError::IOError(text.clone()),
            ReadResultError::DeError(text) => ReadResultError::DeError(text.clone()),
            ReadResultError::NoResults => ReadResultError::NoResults,
        }
    }
}

/// What came of one matched file: its run, or why it has none.
pub type FileOutcome = Result<RunRecord, ReadResultError>;

/// `at` is the place of the first run among `values`.
pub open spec fn is_first_run<T>(values: Seq<Option<T>>, at: int) -> bool {
    &&& 0 <= at < values.len()
    &&& values[at] is Some
    &&& forall|before: int| 0 <= before < at ==> values[before] is None
}

/// Picks the run that a parsed file stands for: the first among its values,
/// where `None` is a value of another kind. A file without a run is
/// `NoResults`.
pub fn read_result<T>(values: Vec<Option<T>>) -> (result: Result<T, ReadResultError>)
    ensures
        result is Ok <==> exists|at: int| 0 <= at < values@.len() && values@[at] is Some,
        result matches Ok(run) ==> exists|at: int|
            is_first_run(values@, at) && values@[at] == Some(run),
        result matches Err(error) ==> error == ReadResultError::NoResults,
{
    let mut rest = values;
    let mut i: usize = 0;
    while i < rest.len()
        invariant
            rest@ == values@,
            i <= rest.len(),
            forall|before: int| 0 <= before < i ==> values@[before] is None,
        decreases rest.len() - i,
    {
        if rest[i].is_some() {
            let run = rest.remove(i).unwrap();
            assert(is_first_run(values@, i as int) && values@[i as int] == Some(run));
            return Ok(run);
        }
        i = i + 1;
    }
    Err(ReadResultError::NoResults)
}

/// The runs among the first `n` outcomes, in their order.
pub open spec fn runs_among(outcomes: Seq<FileOutcome>, n: nat) -> Seq<RunRecord>
    decreases n,
{
    if n == 0 {
        Seq::empty()
    } else {
        let before = runs_among(outcomes, (n - 1) as nat);
        match outcomes[n - 1] {
            Ok(run) => before.push(run),
            Err(_) => before,
        }
    }
}

/// The places, among the first `n` outcomes, of those that hold a run
/// (`with_run`) or of those that hold none, in rising order.
pub open spec fn places_among(outcomes: Seq<FileOutcome>, with_run: bool, n: nat) -> Seq<usize>
    decreases n,
{
    if n == 0 {
        Seq::empty()
    } else {
        let before = places_among(outcomes, with_run, (n - 1) as nat);
        if (outcomes[n - 1] is Ok) == with_run {
            before.push((n - 1) as usize)
        } else {
            before
        }
    }
}

/// The batch that the outcomes give: every run among them, in their order.
pub open spec fn batch_of(outcomes: Seq<FileOutcome>) -> Seq<RunRecord> {
    runs_among(outcomes, outcomes.len())
}

/// The places of the files that enter the batch.
pub open spec fn accepted_places(outcomes: Seq<FileOutcome>) -> Seq<usize> {
    places_among(outcomes, true, outcomes.len())
}

/// The places of the files that are left out of the batch.
pub open spec fn skipped_places(outcomes: Seq<FileOutcome>) -> Seq<usize> {
    places_among(outcomes, false, outcomes.len())
}

/// A file that was left out of the batch.
#[derive(Clone, Debug, PartialEq, Eq)]
pub struct Skipped {
    /// The place of the file among the matched files.
    pub place: usize,
    /// Why the file gave no run.
    pub reason: ReadResultError,
}

/// `skipped` lists the files without a run among the first `n` outcomes, in
/// rising order, each with its reason.
pub open spec fn is_skipped_list(
    skipped: Seq<Skipped>,
    outcomes: Seq<FileOutcome>,
    n: nat,
) -> bool {
    let places = places_among(outcomes, false, n);
    &&& skipped.len() == places.len()
    &&& forall|k: int|
        0 <= k < skipped.len() ==> (#[trigger] skipped[k]).place == places[k]
            && outcomes[places[k] as int] == Err::<RunRecord, _>(skipped[k].reason)
}

/// What was decided about the matched files.
pub struct FilesReport {
    /// The places of the files whose paths are to be shown, in rising order.
    pub shown: Vec<usize>,
    /// The files that were left out, in rising order of their places.
    pub skipped: Vec<Skipped>,
    /// The group over the runs that were read, or `EmptyBatch`.
    pub group: Result<ResultAnalyserGroup, AnalyseError>,
}

/// Sorts the outcomes of the matched files into the batch and the rest.
///
/// `outcomes` holds one entry for each file, in the order in which they were
/// found. Every run among them enters the batch, in that order. The files
/// without a run are listed as skipped, each with its reason. With
/// `args.debug` the files that entered the batch are listed as shown,
/// otherwise none is. The group is made of the batch; there is none where no
/// file gave a run.
pub fn analyse_files(args: &AnalyseFilesArgs, outcomes: &Vec<FileOutcome>) -> (report: FilesReport)
    ensures
        args.debug ==> report.shown@ == accepted_places(outcomes@),
        !args.debug ==> report.shown@ == Seq::<usize>::empty(),
        is_skipped_list(report.skipped@, outcomes@, outcomes@.len()),
        batch_of(outcomes@).len() > 0 ==> report.group is Ok
            && report.group->Ok_0@ == batch_of(outcomes@),
        batch_of(outcomes@).len() == 0
            ==> report.group == Err::<ResultAnalyserGroup, _>(AnalyseError::EmptyBatch),
{
    let mut runs: Vec<RunRecord> = Vec::new();
    let mut shown: Vec<usize> = Vec::new();
    let mut skipped: Vec<Skipped> = Vec::new();
    let mut i: usize = 0;
    while i < outcomes.len()
        invariant
            i <= outcomes.len(),
            runs@ == runs_among(outcomes@, i as nat),
            is_skipped_list(skipped@, outcomes@, i as nat),
            args.debug ==> shown@ == places_among(outcomes@, true, i as nat),
            !args.debug ==> shown@ == Seq::<usize>::empty(),
        decreases outcomes.len() - i,
    {
        match &outcomes[i] {
            Ok(run) => {
                runs.push(*run);
                if args.debug {
                    shown.push(i);
                }
            },
            Err(reason) => {
                skipped.push(Skipped { place: i, reason: reason.clone() });
            },
        }
        i = i + 1;
    }
    FilesReport { shown, skipped, group: ResultAnalyserGroup::new(runs) }
}

/// The places in `places` rise strictly.
pub open spec fn rising(places: Seq<usize>) -> bool {
    forall|k: int, l: int| 0 <= k < l < places.len() ==> places[k] < places[l]
}

/// Every place in `places` is below `n` and is that of an outcome with a run
/// (`with_run`) or of one without.
pub open spec fn places_are_of_kind(
    places: Seq<usize>,
    outcomes: Seq<FileOutcome>,
    with_run: bool,
    n: nat,
) -> bool {
    forall|k: int|
        0 <= k < places.len() ==> (#[trigger] places[k]) < n
            && (outcomes[places[k] as int] is Ok) == with_run
}

/// The outcome at each place in `places` is the run at the same position in
/// `runs`.
pub open spec fn runs_are_at(
    runs: Seq<RunRecord>,
    places: Seq<usize>,
    outcomes: Seq<FileOutcome>,
) -> bool {
    &&& runs.len() == places.len()
    &&& forall|k: int|
        0 <= k < runs.len() ==> outcomes[places[k] as int] == Ok::<RunRecord, ReadResultError>(
            #[trigger] runs[k],
        )
}

proof fn lemma_places_among(outcomes: Seq<FileOutcome>, with_run: bool, n: nat)
    requires
        n <= outcomes.len(),
        outcomes.len() <= usize::MAX,
    ensures
        places_among(outcomes, true, n).len() + places_among(outcomes, false, n).len() == n,
        rising(places_among(outcomes, with_run, n)),
        places_are_of_kind(places_among(outcomes, with_run, n), outcomes, with_run, n),
        runs_are_at(runs_among(outcomes, n), places_among(outcomes, true, n), outcomes),
        forall|at: int|
            0 <= at < n && (#[trigger] outcomes[at] is Ok) == with_run
                ==> places_among(outcomes, with_run, n).contains(at as usize),
    decreases n,
{
    if n > 0 {
        let m = (n - 1) as nat;
        lemma_places_among(outcomes, with_run, m);
        lemma_places_among(outcomes, true, m);
        let before = places_among(outcomes, with_run, m);
        let now = places_among(outcomes, with_run, n);
        assert forall|at: int|
            0 <= at < n && (#[trigger] outcomes[at] is Ok) == with_run implies now.contains(
            at as usize,
        ) by {
            if at < m {
                let k = choose|k: int| 0 <= k < before.len() && before[k] == at as usize;
                assert(now[k] == at as usize);
            } else {
                assert(now[now.len() - 1] == at as usize);
            }
        }
    }
}

/// Every file is either in the batch or skipped, never both. The accepted
/// places are those of the files with a run, the skipped places those of the
/// files without; both lists rise; and the batch holds the run of each
/// accepted file, in the same order.
pub proof fn lemma_every_file_is_accepted_or_skipped(outcomes: Seq<FileOutcome>)
    requires
        outcomes.len() <= usize::MAX,
    ensures
        accepted_places(outcomes).len() + skipped_places(outcomes).len() == outcomes.len(),
        rising(accepted_places(outcomes)),
        rising(skipped_places(outcomes)),
        places_are_of_kind(accepted_places(outcomes), outcomes, true, outcomes.len()),
        places_are_of_kind(skipped_places(outcomes), outcomes, false, outcomes.len()),
        runs_are_at(batch_of(outcomes), accepted_places(outcomes), outcomes),
        forall|at: int|
            0 <= at < outcomes.len() ==> (#[trigger] outcomes[at] is Ok) == accepted_places(
                outcomes,
            ).contains(at as usize),
        forall|at: int|
            0 <= at < outcomes.len() ==> (#[trigger] outcomes[at] is Err) == skipped_places(
                outcomes,
            ).contains(at as usize),
{
    let n = outcomes.len();
    lemma_places_among(outcomes, true, n);
    lemma_places_among(outcomes, false, n);
    let accepted = accepted_places(outcomes);
    let skipped = skipped_places(outcomes);
    assert forall|at: int| 0 <= at < n implies (#[trigger] outcomes[at] is Ok) == accepted.contains(
        at as usize,
    ) by {
        if accepted.contains(at as usize) {
            let k = choose|k: int| 0 <= k < accepted.len() && accepted[k] == at as usize;
            assert(outcomes[accepted[k] as int] is Ok);
        }
    }
    assert forall|at: int| 0 <= at < n implies (#[trigger] outcomes[at] is Err) == skipped.contains(
        at as usize,
    ) by {
        if skipped.contains(at as usize) {
            let k = choose|k: int| 0 <= k < skipped.len() && skipped[k] == at as usize;
            assert(outcomes[skipped[k] as int] is Err);
        }
    }
}

} // verus!
