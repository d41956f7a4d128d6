use las_trimmer::error::{ConfigError, MyError};
use las_trimmer::orchestrator::{Orchestrator, Step};
use las_trimmer::predicate::{BoundingBox, Predicate};
use las_trimmer::progress::{tick_report, Report, Snapshot};
use las_trimmer::record::Record;
use las_trimmer::LasProcessor;

fn record(i: i32) -> Record {
    Record::new(i, i, i, vec![1, 2, 3], las::Point::default())
}

/// A source of ten records whose coordinates are 0 to 9.
fn ten_records() -> Vec<Record> {
    (0..10).map(record).collect()
}

fn x_below_five() -> Predicate {
    Predicate::Crop(BoundingBox::x_at_most(4))
}

fn processor(conditions: Vec<Predicate>, outputs: &[&str], strip: bool) -> LasProcessor {
    LasProcessor {
        paths: vec!["test.las".to_string()],
        output_paths: outputs.iter().map(|s| s.to_string()).collect(),
        conditions,
        vec_size: 100000,
        strip_extra_bytes: strip,
    }
}

#[test]
fn test_process_lidar_files_success() {
    let p = processor(vec![Predicate::AlwaysTrue], &["output.las"], false);
    let result = p.process_records(&vec![ten_records()]);
    assert!(result.is_ok());
}

#[test]
fn test_process_lidar_files_file_not_found() {
    // The single source does not open: the run ends before any task starts.
    let (mut run, step) = Orchestrator::new(1, 1);
    assert!(matches!(step, Step::OpenSource(0)));
    let step = run.source_opened(false);
    assert!(matches!(step, Step::Finish(Err(MyError::SourceOpenError { source: 0 }))));
    assert!(!run.spawned);
    assert!(run.outcome().is_err());
}

#[test]
fn test_process_lidar_files_condition_filtering() {
    let p = processor(vec![x_below_five()], &["output.las"], false);
    let sinks = p.process_records(&vec![ten_records()]).unwrap();
    assert_eq!(sinks[0].len(), 5);
    for r in &sinks[0] {
        assert!(r.x < 5);
    }
    let xs: Vec<i32> = sinks[0].iter().map(|r| r.x).collect();
    assert_eq!(xs, vec![0, 1, 2, 3, 4]);
}

#[test]
fn test_process_lidar_files_multiple_conditions() {
    let p = processor(vec![x_below_five(), x_below_five().negate()], &["output1.las", "output2.las"], false);
    let result = p.process_records(&vec![ten_records()]);
    assert!(result.is_ok());
    let sinks = result.unwrap();
    for r in &sinks[0] {
        assert!(r.x < 5);
    }
    for r in &sinks[1] {
        assert!(r.x >= 5);
    }
    assert_eq!(sinks[0].len() + sinks[1].len(), 10);
}

#[test]
fn test_process_lidar_files_empty_input() {
    let p = processor(vec![Predicate::AlwaysTrue], &["output.las"], false);
    let result = p.process_records(&vec![Vec::new()]);
    assert!(result.is_ok());
    assert!(result.unwrap()[0].is_empty());
    // Progress over an empty run divides by nothing.
    let zero = Snapshot { to_read: 0, read: 0, to_write: 0, written: 0 };
    assert_eq!(tick_report(zero, zero, 1), Report::Idle { elapsed_secs: 1 });
    assert_eq!(tick_report(zero, zero, 0), Report::Idle { elapsed_secs: 0 });
}

#[test]
fn test_process_lidar_files_strip_extra_bytes() {
    let p = processor(vec![Predicate::AlwaysTrue], &["output.las"], true);
    let result = p.process_records(&vec![ten_records()]);
    assert!(result.is_ok());
    let sinks = result.unwrap();
    assert_eq!(sinks[0].len(), 10);
    for (i, r) in sinks[0].iter().enumerate() {
        assert!(r.extra_bytes.is_empty());
        assert_eq!((r.x, r.y, r.z), (i as i32, i as i32, i as i32));
    }
}

#[test]
fn test_cli_always_true() {
    let p = processor(vec![Predicate::AlwaysTrue], &["output.las"], false);
    let sinks = p.process_records(&vec![ten_records()]).unwrap();
    assert_eq!(sinks[0].len(), 10);
}

#[test]
fn test_cli_always_false() {
    let p = processor(vec![Predicate::AlwaysFalse], &["output.las"], false);
    let sinks = p.process_records(&vec![ten_records()]).unwrap();
    assert!(sinks[0].is_empty());
}

#[test]
fn test_cli_multiple_output_files() {
    let p = processor(vec![Predicate::AlwaysTrue, Predicate::AlwaysFalse], &["output1.las", "output2.las"], false);
    let sinks = p.process_records(&vec![ten_records()]).unwrap();
    assert_eq!(sinks[0].len(), 10);
    assert_eq!(sinks[1].len(), 0);
}

#[test]
fn test_cli_mismatched_filters_and_outputs() {
    let p = processor(vec![Predicate::AlwaysTrue], &["output1.las", "output2.las"], false);
    let err = p.process_records(&vec![ten_records()]).err().unwrap();
    assert_eq!(
        err,
        MyError::Configuration(ConfigError::MismatchedFiltersAndOutputs { predicates: 1, sinks: 2 })
    );
    assert!(err.message().contains("Output paths number must match the number of filter arguments"));
    assert_eq!(p.validate(), Err(err));
}
