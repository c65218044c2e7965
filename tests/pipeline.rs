use std::collections::BTreeMap;

use log_manager::channel::{BoundedQueue, EnqueueOutcome};
use log_manager::dispatch::{format_record, Dispatcher, LogRecord, SinkBinding};
use log_manager::registry::SinkRegistry;
use log_manager::rolling::{RollingState, WriteAction};
use log_manager::rotation::{bucket_for, crosses_boundary, RotationPolicy};
use log_manager::settings::{build_dispatcher, resolve_settings, Settings};
use log_manager::severity::{passes, Severity};
use log_manager::{get_log_level, get_rotation_file, LogManagerError};

fn record(severity: Severity, message: &str) -> LogRecord {
    LogRecord {
        severity,
        time: "2024-01-01T00:00:00Z".to_string(),
        target: "log_manager::tests".to_string(),
        message: message.to_string(),
    }
}

fn drain(q: &mut BoundedQueue) -> Vec<String> {
    let mut out = Vec::new();
    while let Some(line) = q.pop_front() {
        out.push(line);
    }
    out
}

#[test]
fn test_invalid_log_level() {
    let result = resolve_settings("to_fail", "HOURLY", 1);
    match result {
        Err(LogManagerError::InvalidLogLevelFormat) => (),
        _ => panic!("Expected InvalidLogLevelFormat error"),
    }
}

#[test]
fn test_invalid_rotation_file() {
    let result = resolve_settings("INFO", "to_fail", 1);
    match result {
        Err(LogManagerError::InvalidRotationFileFormat) => (),
        _ => panic!("Expected InvalidRotationFileFormat error"),
    }
}

#[test]
fn valid_settings_are_resolved() {
    assert_eq!(
        resolve_settings("TRACE", "HOURLY", 10),
        Ok(Settings { level: Severity::Trace, rotation: RotationPolicy::Hourly, max_log_files: 10 })
    );
}

#[test]
fn level_names_ignore_case() {
    assert_eq!(get_log_level("TRACE"), Ok(Severity::Trace));
    assert_eq!(get_log_level("debug"), Ok(Severity::Debug));
    assert_eq!(get_log_level("Info"), Ok(Severity::Info));
    assert_eq!(get_log_level("wArN"), Ok(Severity::Warn));
    assert_eq!(get_log_level("error"), Ok(Severity::Error));
}

#[test]
fn level_numbers_count_down_from_error() {
    assert_eq!(get_log_level("1"), Ok(Severity::Error));
    assert_eq!(get_log_level("2"), Ok(Severity::Warn));
    assert_eq!(get_log_level("3"), Ok(Severity::Info));
    assert_eq!(get_log_level("+4"), Ok(Severity::Debug));
    assert_eq!(get_log_level("05"), Ok(Severity::Trace));
}

#[test]
fn bad_levels_are_refused() {
    for text in ["to_fail", "", "0", "6", "-1", " info", "warning", "+"] {
        assert_eq!(get_log_level(text), Err(LogManagerError::InvalidLogLevelFormat), "{text}");
    }
}

#[test]
fn rotation_names() {
    assert_eq!(get_rotation_file("MINUTELY"), Ok(RotationPolicy::Minutely));
    assert_eq!(get_rotation_file("HOURLY"), Ok(RotationPolicy::Hourly));
    assert_eq!(get_rotation_file("DAILY"), Ok(RotationPolicy::Daily));
    assert_eq!(get_rotation_file("NEVER"), Ok(RotationPolicy::Never));
    assert_eq!(get_rotation_file("hourly"), Err(LogManagerError::InvalidRotationFileFormat));
    assert_eq!(get_rotation_file(""), Err(LogManagerError::InvalidRotationFileFormat));
}

#[test]
fn buckets_truncate_to_the_window() {
    assert_eq!(bucket_for(RotationPolicy::Minutely, 125), 120);
    assert_eq!(bucket_for(RotationPolicy::Hourly, 7300), 7200);
    assert_eq!(bucket_for(RotationPolicy::Daily, 86400 * 3 + 5), 86400 * 3);
    assert_eq!(bucket_for(RotationPolicy::Never, 1_700_000_000), 0);
    assert_eq!(bucket_for(RotationPolicy::Hourly, u64::MAX), u64::MAX - u64::MAX % 3600);
}

#[test]
fn same_window_same_bucket_next_window_later_bucket() {
    assert_eq!(bucket_for(RotationPolicy::Hourly, 3600), bucket_for(RotationPolicy::Hourly, 7199));
    assert!(bucket_for(RotationPolicy::Hourly, 7199) < bucket_for(RotationPolicy::Hourly, 7200));
    assert!(bucket_for(RotationPolicy::Minutely, 59) < bucket_for(RotationPolicy::Minutely, 60));
    assert_eq!(bucket_for(RotationPolicy::Never, 0), bucket_for(RotationPolicy::Never, u64::MAX));
}

#[test]
fn boundary_crossing() {
    assert!(crosses_boundary(RotationPolicy::Hourly, None, 10));
    assert!(!crosses_boundary(RotationPolicy::Hourly, Some(3600), 7199));
    assert!(crosses_boundary(RotationPolicy::Hourly, Some(3600), 7200));
    assert!(!crosses_boundary(RotationPolicy::Hourly, Some(7200), 3600));
}

#[test]
fn hourly_retention_keeps_two_newest_files() {
    let mut w = RollingState::new(RotationPolicy::Hourly, 2);
    assert_eq!(w.on_write(3600), WriteAction::Rotate { open: 3600, delete: vec![] });
    assert_eq!(w.on_write(3700), WriteAction::Append);
    assert_eq!(w.on_write(7300), WriteAction::Rotate { open: 7200, delete: vec![] });
    assert_eq!(w.on_write(10900), WriteAction::Rotate { open: 10800, delete: vec![3600] });
    assert_eq!(w.on_write(11000), WriteAction::Append);
    assert_eq!(w.files, vec![7200, 10800]);
    assert_eq!(w.current, Some(10800));
}

#[test]
fn retention_keeps_most_recent_buckets() {
    let mut w = RollingState::new(RotationPolicy::Minutely, 3);
    for t in 0..600u64 {
        w.on_write(t);
    }
    assert_eq!(w.files, vec![420, 480, 540]);
}

#[test]
fn zero_max_files_never_deletes() {
    let mut w = RollingState::new(RotationPolicy::Minutely, 0);
    for t in (0..6000u64).step_by(7) {
        match w.on_write(t) {
            WriteAction::Rotate { delete, .. } => assert!(delete.is_empty()),
            WriteAction::Append => (),
        }
    }
    assert_eq!(w.files.len(), 100);
}

#[test]
fn single_file_retention() {
    let mut w = RollingState::new(RotationPolicy::Daily, 1);
    w.on_write(10);
    assert_eq!(w.on_write(86400), WriteAction::Rotate { open: 86400, delete: vec![0] });
    assert_eq!(w.files, vec![86400]);
}

#[test]
fn never_rotation_opens_one_file() {
    let mut w = RollingState::new(RotationPolicy::Never, 1);
    assert_eq!(w.on_write(5), WriteAction::Rotate { open: 0, delete: vec![] });
    assert_eq!(w.on_write(1_000_000), WriteAction::Append);
    assert_eq!(w.files, vec![0]);
}

#[test]
fn overflow_counts_each_dropped_record() {
    let mut q = BoundedQueue::new(3);
    let mut outcomes = Vec::new();
    for i in 0..8 {
        outcomes.push(q.enqueue(format!("r{i}")));
    }
    assert_eq!(outcomes.iter().filter(|o| **o == EnqueueOutcome::Accepted).count(), 3);
    assert_eq!(outcomes[3], EnqueueOutcome::DroppedOverflow);
    assert_eq!(q.dropped, 5);
    assert_eq!(drain(&mut q), vec!["r0", "r1", "r2"]);
}

#[test]
fn zero_capacity_drops_everything() {
    let mut q = BoundedQueue::new(0);
    assert_eq!(q.enqueue("a".to_string()), EnqueueOutcome::DroppedOverflow);
    assert_eq!(q.dropped, 1);
}

#[test]
fn drop_counter_saturates() {
    let mut q = BoundedQueue::new(0);
    q.dropped = u64::MAX;
    assert_eq!(q.enqueue("a".to_string()), EnqueueOutcome::DroppedOverflow);
    assert_eq!(q.dropped, u64::MAX);
}

#[test]
fn shutdown_flushes_once_and_refuses_later_records() {
    let mut q = BoundedQueue::new(4);
    q.enqueue("a".to_string());
    q.enqueue("b".to_string());
    assert_eq!(q.shutdown(), vec!["a", "b"]);
    assert!(q.shutdown().is_empty());
    assert_eq!(q.enqueue("c".to_string()), EnqueueOutcome::DroppedOverflow);
    assert_eq!(q.dropped, 1);
    assert_eq!(q.pop_front(), None);
}

#[test]
fn plain_and_coloured_lines() {
    let r = record(Severity::Info, "test valid log");
    assert_eq!(
        format_record(&r, false),
        "2024-01-01T00:00:00Z  INFO log_manager::tests: test valid log\n"
    );
    assert_eq!(
        format_record(&r, true),
        "2024-01-01T00:00:00Z \u{1b}[32m INFO\u{1b}[0m log_manager::tests: test valid log\n"
    );
    let e = record(Severity::Error, "x");
    assert_eq!(format_record(&e, false), "2024-01-01T00:00:00Z ERROR log_manager::tests: x\n");
}

#[test]
fn warn_is_kept_at_info_and_dropped_at_error() {
    assert!(!passes(Severity::Error, Severity::Warn));
    assert!(passes(Severity::Info, Severity::Warn));
    assert!(passes(Severity::Warn, Severity::Warn));
    let mut strict = SinkBinding::new(Severity::Error, false, 8);
    let mut loose = SinkBinding::new(Severity::Info, false, 8);
    let r = record(Severity::Warn, "careful");
    assert_eq!(strict.deliver(&r), None);
    assert_eq!(loose.deliver(&r), Some(EnqueueOutcome::Accepted));
    assert!(drain(&mut strict.queue).is_empty());
    assert_eq!(drain(&mut loose.queue).len(), 1);
}

#[test]
fn trace_level_reaches_both_sinks_in_order() {
    let mut d = build_dispatcher(Severity::Trace, 16);
    let severities = [Severity::Trace, Severity::Debug, Severity::Info, Severity::Warn, Severity::Error];
    for (i, s) in severities.iter().enumerate() {
        let outcomes = d.dispatch(&record(*s, &format!("m{i}")));
        assert_eq!(outcomes, vec![Some(EnqueueOutcome::Accepted), Some(EnqueueOutcome::Accepted)]);
    }
    let console = d.sinks[0].queue.shutdown();
    let file = d.sinks[1].queue.shutdown();
    assert_eq!(console.len(), 5);
    assert_eq!(file.len(), 5);
    for i in 0..5 {
        assert!(file[i].ends_with(&format!("m{i}\n")));
        assert!(console[i].ends_with(&format!("m{i}\n")));
        assert!(console[i].contains("\u{1b}["));
        assert!(!file[i].contains("\u{1b}["));
    }
}

#[test]
fn info_level_filters_both_sinks() {
    let mut d = build_dispatcher(Severity::Info, 16);
    let outcomes = d.dispatch(&record(Severity::Debug, "hidden"));
    assert_eq!(outcomes, vec![None, None]);
    let outcomes = d.dispatch(&record(Severity::Error, "shown"));
    assert_eq!(outcomes, vec![Some(EnqueueOutcome::Accepted), Some(EnqueueOutcome::Accepted)]);
}

#[test]
fn full_file_sink_does_not_stall_console() {
    let mut d = Dispatcher {
        sinks: vec![SinkBinding::new(Severity::Trace, true, 4), SinkBinding::new(Severity::Trace, false, 0)],
    };
    let outcomes = d.dispatch(&record(Severity::Info, "x"));
    assert_eq!(outcomes, vec![Some(EnqueueOutcome::Accepted), Some(EnqueueOutcome::DroppedOverflow)]);
    assert_eq!(d.sinks[1].queue.dropped, 1);
}

#[test]
fn second_installation_is_refused() {
    let mut reg = SinkRegistry::new();
    assert!(reg.emit(&record(Severity::Info, "nowhere")).is_none());
    assert_eq!(reg.install(build_dispatcher(Severity::Info, 8)), Ok(()));
    match reg.install(build_dispatcher(Severity::Trace, 8)) {
        Err(LogManagerError::LogSubscriberFailed(m)) => {
            assert_eq!(m, "a global default trace dispatcher has already been set")
        }
        other => panic!("unexpected {other:?}"),
    }
    let outcomes = reg.emit(&record(Severity::Debug, "below info")).unwrap();
    assert_eq!(outcomes, vec![None, None]);
    let installed = reg.installed.as_ref().unwrap();
    assert_eq!(installed.sinks[0].minimum, Severity::Info);
}

#[test]
fn bounded_shutdown_counts_discarded_records() {
    let mut q = BoundedQueue::new(8);
    for i in 0..5 {
        q.enqueue(format!("r{i}"));
    }
    assert_eq!(q.shutdown_within(3), vec!["r0", "r1", "r2"]);
    assert_eq!(q.dropped, 2);
    assert!(q.closed);
    assert_eq!(q.enqueue("late".to_string()), EnqueueOutcome::DroppedOverflow);
    assert_eq!(q.dropped, 3);
}

#[test]
fn bounded_shutdown_with_room_flushes_everything() {
    let mut q = BoundedQueue::new(8);
    q.enqueue("a".to_string());
    assert_eq!(q.shutdown_within(10), vec!["a"]);
    assert_eq!(q.dropped, 0);
}

#[test]
fn three_hourly_buckets_leave_the_last_two_files() {
    let settings = resolve_settings("INFO", "HOURLY", 2).unwrap();
    let mut d = build_dispatcher(settings.level, 64);
    let mut w = RollingState::new(settings.rotation, settings.max_log_files);
    let mut disk: BTreeMap<u64, Vec<String>> = BTreeMap::new();
    let writes = [(3600u64, "hour-1 a"), (3700, "hour-1 b"), (7200, "hour-2 a"), (9000, "hour-2 b"), (10800, "hour-3 a")];
    for (t, msg) in writes {
        d.dispatch(&record(Severity::Info, msg));
        let line = d.sinks[1].queue.pop_front().unwrap();
        match w.on_write(t) {
            WriteAction::Append => (),
            WriteAction::Rotate { open, delete } => {
                disk.entry(open).or_default();
                for b in delete {
                    disk.remove(&b);
                }
            }
        }
        disk.get_mut(&w.current.unwrap()).unwrap().push(line);
    }
    assert_eq!(disk.keys().copied().collect::<Vec<_>>(), vec![7200, 10800]);
    let all: Vec<&String> = disk.values().flatten().collect();
    assert_eq!(all.len(), 3);
    assert!(all.iter().all(|l| !l.contains("hour-1")));
    assert_eq!(w.files, vec![7200, 10800]);
}

