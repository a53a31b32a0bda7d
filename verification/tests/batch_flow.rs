use batchconv::{
    job_outcome, plan_batch, prepare_batch, stems_distinct, BatchRunner, ConversionError,
    ConversionOutcome, FormatTag, NamingScheme,
};

fn strings(items: &[&str]) -> Vec<String> {
    items.iter().map(|s| s.to_string()).collect()
}

#[test]
fn plan_assigns_distinct_indices_in_order() {
    let paths = strings(&["a.png", "b.png", "c.png"]);
    let jobs = plan_batch(
        &paths,
        "/out",
        "img",
        NamingScheme::SequenceIndexed,
        FormatTag::Jpeg,
    );
    assert_eq!(jobs.len(), 3);
    for (k, job) in jobs.iter().enumerate() {
        assert_eq!(job.sequence_index, k as u32);
        assert_eq!(job.request.input_path, paths[k]);
    }
}

#[test]
fn sequence_indexed_batch_paths() {
    let paths = strings(&["a.png", "b.png"]);
    let jobs = plan_batch(
        &paths,
        "/out",
        "img",
        NamingScheme::SequenceIndexed,
        FormatTag::Jpeg,
    );
    assert_eq!(jobs[0].output_path, "/out/img0.jpeg");
    assert_eq!(jobs[1].output_path, "/out/img1.jpeg");
}

#[test]
fn planned_paths_are_collision_free() {
    let inputs: Vec<String> = (0..11).map(|k| format!("in/f{}.png", k)).collect();
    let jobs = plan_batch(
        &inputs,
        "/out",
        "img",
        NamingScheme::SequenceIndexed,
        FormatTag::Png,
    );
    for k1 in 0..jobs.len() {
        for k2 in 0..jobs.len() {
            if k1 != k2 {
                assert_ne!(jobs[k1].output_path, jobs[k2].output_path);
            }
        }
    }
}

#[test]
fn replanning_the_same_batch_names_the_same_files() {
    let paths = strings(&["x/a.svg", "y/b.svg"]);
    let first = plan_batch(
        &paths,
        "/out",
        "img",
        NamingScheme::PreserveStem,
        FormatTag::Pdf,
    );
    let second = plan_batch(
        &paths,
        "/out",
        "img",
        NamingScheme::PreserveStem,
        FormatTag::Pdf,
    );
    assert_eq!(first.len(), second.len());
    for k in 0..first.len() {
        assert_eq!(first[k].output_path, second[k].output_path);
        assert_eq!(first[k].sequence_index, second[k].sequence_index);
    }
}

#[test]
fn out_of_range_selection_is_config_error_before_dispatch() {
    let paths = strings(&["a.png", "b.png"]);
    let r = prepare_batch(&paths, "/out", "img", NamingScheme::PreserveStem, 99);
    match r {
        Err(e) => assert_eq!(e, ConversionError::ConfigError),
        Ok(_) => panic!("an out-of-range selection must not plan any job"),
    }
}

#[test]
fn colliding_stems_are_a_config_error_before_dispatch() {
    // Same file name under two directories: under stem-preserving naming both
    // would be written to /out/x.pdf, so the batch is refused before any job.
    let paths = strings(&["in/x.svg", "sub/x.png"]);
    let r = prepare_batch(&paths, "/out", "img", NamingScheme::PreserveStem, 1);
    assert_eq!(r.err(), Some(ConversionError::ConfigError));
}

#[test]
fn colliding_stems_allowed_under_sequence_naming() {
    let paths = strings(&["in/x.svg", "sub/x.png"]);
    let jobs = prepare_batch(&paths, "/out", "img", NamingScheme::SequenceIndexed, 1).unwrap();
    assert_eq!(jobs[0].output_path, "/out/img0.pdf");
    assert_eq!(jobs[1].output_path, "/out/img1.pdf");
}

#[test]
fn stem_distinctness_check() {
    assert!(stems_distinct(&strings(&["a/x.svg", "a/y.svg", "z.png"])));
    assert!(!stems_distinct(&strings(&["a/x.svg", "b/x.png"])));
    assert!(!stems_distinct(&strings(&["x.svg", "x.svg"])));
    assert!(stems_distinct(&strings(&["only.svg"])));
    assert!(stems_distinct(&strings(&[])));
}

#[test]
fn valid_selection_plans_every_input() {
    let paths = strings(&["a.svg", "b.svg"]);
    let jobs = prepare_batch(&paths, "/out", "img", NamingScheme::PreserveStem, 2).unwrap();
    assert_eq!(jobs.len(), 2);
    assert_eq!(jobs[0].output_path, "/out/a.png");
    assert_eq!(jobs[1].output_path, "/out/b.png");
}

#[test]
fn worker_outcome_reports_on_its_job() {
    let paths = strings(&["in/a.svg"]);
    let jobs = plan_batch(
        &paths,
        "/out",
        "img",
        NamingScheme::PreserveStem,
        FormatTag::Png,
    );
    let outcome = job_outcome(&jobs[0], Ok(()));
    assert_eq!(outcome.sequence_index, 0);
    assert_eq!(outcome.input_path, "in/a.svg");
    assert_eq!(outcome.output_path, "/out/a.png");
    assert_eq!(outcome.result, Ok(()));
}

fn outcome_for(index: u32, input: &str, result: Result<(), ConversionError>) -> ConversionOutcome {
    ConversionOutcome {
        sequence_index: index,
        input_path: input.to_string(),
        output_path: format!("/out/o{}.png", index),
        result,
    }
}

#[test]
fn batch_done_fires_exactly_once() {
    let mut runner = BatchRunner::new(3);
    runner.begin();
    let mid = runner.all_dispatched();
    assert!(mid.is_none());
    let mut done_signals = 0;
    for index in [2u32, 0u32, 1u32] {
        assert!(!runner.is_recorded(index));
        let done = runner.record(outcome_for(index, "in.png", Ok(())));
        if done.is_some() {
            done_signals += 1;
        }
    }
    assert_eq!(done_signals, 1);
}

#[test]
fn fault_isolation_one_failure_among_valid_inputs() {
    let mut runner = BatchRunner::new(3);
    runner.begin();
    assert!(runner.all_dispatched().is_none());
    assert!(runner
        .record(outcome_for(0, "good1.png", Ok(())))
        .is_none());
    assert!(runner
        .record(outcome_for(
            1,
            "corrupt.png",
            Err(ConversionError::DecodeError),
        ))
        .is_none());
    let result = runner
        .record(outcome_for(2, "good2.png", Ok(())))
        .expect("the last outcome completes the batch");
    assert_eq!(result.total, 3);
    assert_eq!(result.succeeded, 2);
    assert_eq!(result.failed.len(), 1);
    assert_eq!(result.failed[0].input_path, "corrupt.png");
    assert_eq!(result.failed[0].reason, ConversionError::DecodeError);
}

#[test]
fn missing_tool_still_signals_done() {
    let mut runner = BatchRunner::new(1);
    runner.begin();
    assert!(runner.all_dispatched().is_none());
    let result = runner
        .record(outcome_for(
            0,
            "doc.svg",
            Err(ConversionError::ExternalToolError(None)),
        ))
        .expect("the only outcome completes the batch");
    assert_eq!(result.total, 1);
    assert_eq!(result.succeeded, 0);
    assert_eq!(result.failed.len(), 1);
    assert_eq!(
        result.failed[0].reason,
        ConversionError::ExternalToolError(None)
    );
}

#[test]
fn recording_marks_the_sequence_index_spent() {
    let mut runner = BatchRunner::new(2);
    runner.begin();
    assert!(!runner.is_recorded(0));
    assert!(!runner.is_recorded(1));
    runner.record(outcome_for(0, "a.png", Ok(())));
    assert!(runner.is_recorded(0));
    assert!(!runner.is_recorded(1));
}

#[test]
fn outcomes_recorded_before_dispatch_ends() {
    let mut runner = BatchRunner::new(2);
    runner.begin();
    assert!(runner.record(outcome_for(0, "a.png", Ok(()))).is_none());
    assert!(runner.record(outcome_for(1, "b.png", Ok(()))).is_none());
    let result = runner
        .all_dispatched()
        .expect("a fully recorded batch is done when dispatch ends");
    assert_eq!(result.total, 2);
    assert_eq!(result.succeeded, 2);
    assert_eq!(result.failed.len(), 0);
}

#[test]
fn empty_batch_is_done_at_dispatch_end() {
    let mut runner = BatchRunner::new(0);
    runner.begin();
    let result = runner.all_dispatched().expect("nothing left outstanding");
    assert_eq!(result.total, 0);
    assert_eq!(result.succeeded, 0);
    assert_eq!(result.failed.len(), 0);
}
