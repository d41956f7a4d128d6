use las_trimmer::config::{is_record_path, reader_pool_size, reader_threads, validate_config};
use las_trimmer::error::{ConfigError, MyError};
use las_trimmer::orchestrator::{Orchestrator, Step};
use las_trimmer::pipeline::route_sources;
use las_trimmer::predicate::{duplicate_predicates, BoundingBox, Predicate};
use las_trimmer::progress::{report_line, tick_report, ProgressCounters, ProgressMonitor, Report, SinkCounts, Snapshot, Status};
use las_trimmer::record::Record;
use las_trimmer::routing::ReadWorker;
use las_trimmer::schema::sink_point_format;
use las_trimmer::sink::prepare_batch;
use las_trimmer::process_points;

fn record(i: i32) -> Record {
    Record::new(i, -i, 2 * i, vec![i as u8], las::Point::default())
}

fn records(n: i32) -> Vec<Record> {
    (0..n).map(record).collect()
}

fn xs(v: &[Record]) -> Vec<i32> {
    v.iter().map(|r| r.x).collect()
}

#[test]
fn worker_flushes_full_batches_and_the_rest_at_the_end() {
    let mut w = ReadWorker::new(vec![Predicate::AlwaysTrue], 3);
    let out = w.push_chunk(&records(7));
    assert_eq!(out.len(), 2);
    assert!(out.iter().all(|b| b.sink == 0 && b.records.len() == 3));
    assert_eq!(xs(&out[0].records), vec![0, 1, 2]);
    assert_eq!(xs(&out[1].records), vec![3, 4, 5]);
    let rest = w.finish();
    assert_eq!(rest.len(), 1);
    assert_eq!(xs(&rest[0].records), vec![6]);
}

#[test]
fn worker_sends_a_record_to_every_sink_that_accepts_it() {
    let preds = vec![Predicate::AlwaysTrue, Predicate::Crop(BoundingBox::x_at_most(1)), Predicate::AlwaysFalse];
    let mut w = ReadWorker::new(preds, 10);
    assert_eq!(w.sinks(), 3);
    assert!(w.push_chunk(&records(4)).is_empty());
    let out = w.finish();
    assert_eq!(out.len(), 2);
    let to0: Vec<_> = out.iter().filter(|b| b.sink == 0).collect();
    let to1: Vec<_> = out.iter().filter(|b| b.sink == 1).collect();
    assert_eq!(xs(&to0[0].records), vec![0, 1, 2, 3]);
    assert_eq!(xs(&to1[0].records), vec![0, 1]);
    assert!(out.iter().all(|b| b.sink != 2));
}

#[test]
fn worker_keeps_order_across_chunks() {
    let mut w = ReadWorker::new(vec![Predicate::AlwaysTrue], 4);
    let mut got = Vec::new();
    for chunk in [records(3), (3..6).map(record).collect::<Vec<_>>()] {
        for b in w.push_chunk(&chunk) {
            got.extend(xs(&b.records));
        }
    }
    for b in w.finish() {
        got.extend(xs(&b.records));
    }
    assert_eq!(got, vec![0, 1, 2, 3, 4, 5]);
}

#[test]
fn accept_all_over_one_source_keeps_its_count() {
    let sinks = route_sources(&vec![records(25)], &vec![Predicate::AlwaysTrue], 4, false);
    assert_eq!(sinks[0].len(), 25);
    assert_eq!(xs(&sinks[0]), (0..25).collect::<Vec<_>>());
}

#[test]
fn complementary_predicates_split_the_source() {
    let p = Predicate::Crop(BoundingBox { min_x: 2, max_x: 6, min_y: -100, max_y: 100, min_z: 0, max_z: 100 });
    let q = p.duplicate().negate();
    let sinks = route_sources(&vec![records(10)], &vec![p, q], 3, false);
    assert_eq!(sinks[0].len() + sinks[1].len(), 10);
    assert_eq!(xs(&sinks[0]), vec![2, 3, 4, 5, 6]);
    assert_eq!(xs(&sinks[1]), vec![0, 1, 7, 8, 9]);
}

#[test]
fn several_sources_feed_one_sink() {
    let a = records(3);
    let b: Vec<Record> = (10..12).map(record).collect();
    let sinks = route_sources(&vec![a, b], &vec![Predicate::AlwaysTrue], 2, true);
    assert_eq!(xs(&sinks[0]), vec![0, 1, 2, 10, 11]);
    assert!(sinks[0].iter().all(|r| r.extra_bytes.is_empty()));
}

#[test]
fn stripping_keeps_coordinates() {
    let out = prepare_batch(records(3), true);
    assert_eq!(out.len(), 3);
    for (i, r) in out.iter().enumerate() {
        assert!(r.extra_bytes.is_empty());
        assert_eq!((r.x, r.y, r.z), (i as i32, -(i as i32), 2 * i as i32));
    }
    let kept = prepare_batch(records(2), false);
    assert_eq!(kept[1].extra_bytes, vec![1u8]);
}

#[test]
fn sink_format_drops_extra_bytes_only_when_stripping() {
    let mut first = las::point::Format::new(3).unwrap();
    first.extra_bytes = 12;
    first.is_compressed = true;
    let stripped = sink_point_format(first, true).unwrap();
    assert_eq!(stripped.extra_bytes, 0);
    assert!(!stripped.is_compressed);
    assert_eq!(stripped.to_u8().unwrap(), 3);
    assert!(stripped.has_gps_time && stripped.has_color && !stripped.is_extended);
    assert_eq!(sink_point_format(first, false).unwrap(), first);
    let mut extended = las::point::Format::new(10).unwrap();
    extended.extra_bytes = 4;
    let s = sink_point_format(extended, true).unwrap();
    assert_eq!((s.to_u8().unwrap(), s.extra_bytes), (10, 0));
}

#[test]
fn sink_format_rejects_flags_of_no_point_format() {
    let mut odd = las::point::Format::new(0).unwrap();
    odd.has_nir = true;
    assert_eq!(sink_point_format(odd, true), Err(MyError::SourceOpenError { source: 0 }));
    assert_eq!(sink_point_format(odd, false), Ok(odd));
}

#[test]
fn predicates_evaluate_and_copy() {
    let r = record(5);
    assert!(Predicate::AlwaysTrue.evaluate(&r));
    assert!(!Predicate::AlwaysFalse.evaluate(&r));
    assert!(!Predicate::Crop(BoundingBox::x_at_most(4)).evaluate(&r));
    assert!(Predicate::Crop(BoundingBox::x_at_most(4)).negate().evaluate(&r));
    let ps = duplicate_predicates(&vec![Predicate::AlwaysFalse, Predicate::AlwaysTrue]);
    assert!(!ps[0].evaluate(&r) && ps[1].evaluate(&r));
    let d = r.duplicate();
    assert_eq!((d.x, d.y, d.z, d.extra_bytes.clone()), (5, -5, 10, vec![5u8]));
}

#[test]
fn process_points_filters_and_counts() {
    let mut c = ProgressCounters::new();
    let kept = process_points(&records(10), &Predicate::Crop(BoundingBox::x_at_most(4)), &mut c);
    assert_eq!(xs(&kept), vec![0, 1, 2, 3, 4]);
    assert_eq!(c.snapshot(), Snapshot { to_read: 0, read: 10, to_write: 5, written: 0 });
}

#[test]
fn counters_saturate() {
    let mut c = ProgressCounters::new();
    c.add_to_read(7);
    c.add_read(u64::MAX);
    c.add_read(3);
    c.add_to_write(2);
    c.add_written(1);
    assert_eq!(c.snapshot(), Snapshot { to_read: 7, read: u64::MAX, to_write: 2, written: 1 });
}

#[test]
fn sink_counters_add_to_the_totals() {
    let mut c = ProgressCounters::with_sinks(2);
    c.record_routed(1, 5);
    c.record_appended(1, 3);
    c.record_routed(0, 2);
    assert_eq!(c.sink_counts(0), SinkCounts { to_write: 2, written: 0 });
    assert_eq!(c.sink_counts(1), SinkCounts { to_write: 5, written: 3 });
    assert_eq!(c.snapshot(), Snapshot { to_read: 0, read: 0, to_write: 7, written: 3 });
}

#[test]
fn tick_reports_progress() {
    let prev = Snapshot { to_read: 3000, read: 0, to_write: 0, written: 0 };
    let now = Snapshot { to_read: 3000, read: 1000, to_write: 500, written: 200 };
    let r = tick_report(prev, now, 2);
    assert_eq!(
        r,
        Report::Progress(Status {
            elapsed_secs: 2,
            read_delta: 1000,
            written_delta: 200,
            read_left: 2000,
            write_left: 300,
            percent_hundredths: Some(3333),
            rate: Some(500),
            eta_secs: Some(4),
        })
    );
    assert_eq!(
        report_line(&r),
        "Points read/written in the last 2 second(s) and left to read/write : 1,000 / 200 / 2,000 / 300 / 33.33% / ETA 4 s"
    );
}

#[test]
fn tick_guards_every_division() {
    // Nothing to read yet, no whole second, no rate.
    let now = Snapshot { to_read: 0, read: 5, to_write: 0, written: 0 };
    let r = tick_report(Snapshot { to_read: 0, read: 0, to_write: 0, written: 0 }, now, 0);
    match r {
        Report::Progress(s) => {
            assert_eq!(s.percent_hundredths, None);
            assert_eq!(s.rate, None);
            assert_eq!(s.eta_secs, None);
        }
        Report::Idle { .. } => panic!("records were read"),
    }
    assert_eq!(
        report_line(&r),
        "Points read/written in the last 0 second(s) and left to read/write : 5 / 0 / 0 / 0 / n/a"
    );
    // Only writes moved: the rate is zero and no estimate is made.
    let a = Snapshot { to_read: 10, read: 10, to_write: 10, written: 1 };
    let b = Snapshot { written: 4, ..a };
    match tick_report(a, b, 1) {
        Report::Progress(s) => {
            assert_eq!(s.rate, Some(0));
            assert_eq!(s.eta_secs, None);
            assert_eq!(s.percent_hundredths, Some(10000));
        }
        Report::Idle { .. } => panic!("records were written"),
    }
}

#[test]
fn report_lines_group_digits() {
    let r = Report::Progress(Status {
        elapsed_secs: 1,
        read_delta: 1234567,
        written_delta: 1000000,
        read_left: 999,
        write_left: 0,
        percent_hundredths: Some(507),
        rate: Some(1234567),
        eta_secs: None,
    });
    assert_eq!(
        report_line(&r),
        "Points read/written in the last 1 second(s) and left to read/write : 1,234,567 / 1,000,000 / 999 / 0 / 5.07%"
    );
    assert_eq!(report_line(&Report::Idle { elapsed_secs: 1 }), "No points were written or read in the last 1 second(s).");
}

#[test]
fn monitor_remembers_the_last_tick() {
    let mut m = ProgressMonitor::new();
    let s1 = Snapshot { to_read: 100, read: 40, to_write: 10, written: 10 };
    assert!(matches!(m.observe(s1, 1), Report::Progress(_)));
    assert_eq!(m.previous, s1);
    assert_eq!(m.observe(s1, 1), Report::Idle { elapsed_secs: 1 });
}

#[test]
fn record_paths_need_a_las_or_laz_extension() {
    assert!(is_record_path("out.las"));
    assert!(is_record_path("dir/out.laz"));
    assert!(!is_record_path("out.txt"));
    assert!(!is_record_path(".las"));
    assert!(!is_record_path("dir/.las"));
    assert!(!is_record_path("out.LAS"));
    assert!(!is_record_path("las"));
}

#[test]
fn configuration_errors_in_order() {
    let outs = vec!["a.las".to_string(), "b.txt".to_string()];
    assert_eq!(
        validate_config(1, &outs, 3, 10),
        Err(ConfigError::MismatchedFiltersAndOutputs { predicates: 3, sinks: 2 })
    );
    assert_eq!(validate_config(1, &outs, 2, 10), Err(ConfigError::InvalidOutputExtension { sink: 1 }));
    let good = vec!["a.las".to_string()];
    assert_eq!(validate_config(0, &good, 1, 10), Err(ConfigError::NoSources));
    assert_eq!(validate_config(1, &good, 1, 0), Err(ConfigError::ZeroBatchSize));
    assert_eq!(validate_config(2, &good, 1, 10), Ok(()));
}

#[test]
fn pool_size_leaves_room_for_writers() {
    assert_eq!(reader_pool_size(8, 2), 4);
    assert_eq!(reader_pool_size(2, 5), 1);
    assert_eq!(reader_pool_size(3, 0), 1);
    assert_eq!(reader_pool_size(4, 1), 1);
    assert!(reader_threads(1) >= 1);
}

#[test]
fn orchestrator_closes_after_readers_and_keeps_the_first_error() {
    let (mut run, step) = Orchestrator::new(2, 1);
    assert!(matches!(step, Step::OpenSource(0)));
    assert!(matches!(run.source_opened(true), Step::OpenSource(1)));
    assert!(matches!(run.source_opened(true), Step::SpawnTasks));
    assert!(matches!(run.reader_joined(Err(MyError::SourceReadError { source: 1 })), Step::Wait));
    assert!(!run.closed);
    assert!(matches!(run.reader_joined(Err(MyError::TaskJoinError)), Step::CloseChannel));
    assert!(run.closed);
    let last = run.writer_joined(Ok(()));
    assert!(matches!(last, Step::Finish(Err(MyError::SourceReadError { source: 1 }))));
}

#[test]
fn orchestrator_succeeds_when_every_task_does() {
    let (mut run, _) = Orchestrator::new(1, 2);
    assert!(matches!(run.source_opened(true), Step::SpawnTasks));
    assert!(matches!(run.reader_joined(Ok(())), Step::CloseChannel));
    assert!(matches!(run.writer_joined(Ok(())), Step::Wait));
    assert!(matches!(run.writer_joined(Ok(())), Step::Finish(Ok(()))));
}

#[test]
fn every_error_has_a_message() {
    let all = [
        MyError::Configuration(ConfigError::InvalidOutputExtension { sink: 0 }),
        MyError::Configuration(ConfigError::InvalidInputPath { source: 0 }),
        MyError::Configuration(ConfigError::NoSources),
        MyError::Configuration(ConfigError::ZeroBatchSize),
        MyError::SourceOpenError { source: 0 },
        MyError::SourceReadError { source: 0 },
        MyError::SinkOpenError { sink: 0 },
        MyError::SinkWriteError { sink: 0 },
        MyError::LockError,
        MyError::ChannelSendError,
        MyError::TaskJoinError,
    ];
    for e in all {
        assert!(!e.message().is_empty());
    }
    assert_eq!(MyError::LockError.message(), "failed to lock mutex.");
}
