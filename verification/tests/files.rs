use zusi_result_cli::{
    analyse_files, read_result, AnalyseError, AnalyseFilesArgs, FileOutcome, Ratio,
    ReadResultError, RunRecord, Skipped,
};

fn args(debug: bool) -> AnalyseFilesArgs {
    AnalyseFilesArgs { pattern: String::from("data/*.result.xml"), debug }
}

#[test]
fn first_run_of_a_file_is_read() {
    let values = vec![None, Some("first"), None, Some("second")];
    assert_eq!(read_result(values), Ok("first"));
    let values = vec![Some(RunRecord::new(1, 2, 3)), Some(RunRecord::new(4, 5, 6))];
    assert_eq!(read_result(values), Ok(RunRecord::new(1, 2, 3)));
    let values = vec![None, None, Some(7u8)];
    assert_eq!(read_result(values), Ok(7));
    let values = vec![Some(String::from("owned")), None];
    assert_eq!(read_result(values), Ok(String::from("owned")));
}

#[test]
fn file_without_run_has_no_results() {
    let values: Vec<Option<RunRecord>> = vec![None, None];
    assert_eq!(read_result(values), Err(ReadResultError::NoResults));
    let values: Vec<Option<RunRecord>> = vec![];
    assert_eq!(read_result(values), Err(ReadResultError::NoResults));
}

#[test]
fn runs_enter_the_batch_in_order() {
    let outcomes: Vec<FileOutcome> = vec![
        Ok(RunRecord::new(1000, 100, 80)),
        Err(ReadResultError::NoResults),
        Ok(RunRecord::new(2000, 200, 150)),
        Err(ReadResultError::IOError(String::from("permission denied"))),
        Err(ReadResultError::DeError(String::from("unexpected end of file"))),
    ];
    let report = analyse_files(&args(true), &outcomes);
    assert_eq!(report.shown, vec![0, 2]);
    assert_eq!(
        report.skipped,
        vec![
            Skipped { place: 1, reason: ReadResultError::NoResults },
            Skipped { place: 3, reason: ReadResultError::IOError(String::from("permission denied")) },
            Skipped {
                place: 4,
                reason: ReadResultError::DeError(String::from("unexpected end of file")),
            },
        ]
    );
    let group = report.group.ok().unwrap();
    assert_eq!(
        group.runs(),
        &vec![RunRecord::new(1000, 100, 80), RunRecord::new(2000, 200, 150)]
    );
    assert_eq!(group.total_distance(), 3000);
    assert_eq!(group.pure_average_speed(), Ok(Ratio { numerator: 300, denominator: 23 }));
}

#[test]
fn nothing_is_shown_without_debug() {
    let outcomes: Vec<FileOutcome> =
        vec![Ok(RunRecord::new(1, 1, 1)), Err(ReadResultError::NoResults), Ok(RunRecord::new(2, 2, 2))];
    let report = analyse_files(&args(false), &outcomes);
    assert!(report.shown.is_empty());
    assert_eq!(report.skipped, vec![Skipped { place: 1, reason: ReadResultError::NoResults }]);
    assert_eq!(report.group.ok().unwrap().count(), 2);
}

#[test]
fn no_file_gives_an_empty_batch() {
    let report = analyse_files(&args(true), &vec![]);
    assert!(report.shown.is_empty());
    assert!(report.skipped.is_empty());
    assert!(matches!(report.group, Err(AnalyseError::EmptyBatch)));
}

#[test]
fn only_failures_give_an_empty_batch() {
    let outcomes: Vec<FileOutcome> = vec![
        Err(ReadResultError::IOError(String::from("not found"))),
        Err(ReadResultError::NoResults),
    ];
    let report = analyse_files(&args(true), &outcomes);
    assert!(report.shown.is_empty());
    assert_eq!(
        report.skipped,
        vec![
            Skipped { place: 0, reason: ReadResultError::IOError(String::from("not found")) },
            Skipped { place: 1, reason: ReadResultError::NoResults },
        ]
    );
    assert!(matches!(report.group, Err(AnalyseError::EmptyBatch)));
}

#[test]
fn every_file_is_shown_or_skipped() {
    let outcomes: Vec<FileOutcome> = (0..50u64)
        .map(|i| if i % 3 == 0 { Err(ReadResultError::NoResults) } else { Ok(RunRecord::new(i, 1, 1)) })
        .collect();
    let report = analyse_files(&args(true), &outcomes);
    assert_eq!(report.shown.len() + report.skipped.len(), outcomes.len());
    for place in 0..outcomes.len() {
        assert_eq!(report.shown.contains(&place), outcomes[place].is_ok());
        assert_eq!(
            report.skipped.iter().any(|skipped| skipped.place == place),
            outcomes[place].is_err()
        );
    }
    assert!(report.shown.windows(2).all(|pair| pair[0] < pair[1]));
    assert!(report.skipped.windows(2).all(|pair| pair[0].place < pair[1].place));
    assert!(report.skipped.iter().all(|skipped| skipped.reason == ReadResultError::NoResults));
    assert_eq!(report.group.ok().unwrap().count(), report.shown.len());
}

#[test]
fn reasons_are_copied_whole() {
    let errors = [
        ReadResultError::IOError(String::from("disk on fire")),
        ReadResultError::DeError(String::from("missing tag")),
        ReadResultError::NoResults,
    ];
    for error in errors {
        assert_eq!(error.clone(), error);
    }
    assert_ne!(
        ReadResultError::IOError(String::from("x")),
        ReadResultError::DeError(String::from("x"))
    );
}
