//! The watcher state machine: rotation cadence, sleeping on open failure
//! and end of file, and per-line forwarding in file order with the
//! watermark advancing.

use suricata_agent::watcher::{watch_step, WatchAction, WatchEvent, WatcherState};

#[test]
fn rotation_check_runs_after_the_interval() {
    let mut st = WatcherState { watermark: 0, last_rotation_check: 0 };
    let a = watch_step(&mut st, 5, WatchEvent::LoopStart { now: 30 });
    assert!(matches!(a, WatchAction::RunRotation));
    assert_eq!(st.last_rotation_check, 30);
    let b = watch_step(&mut st, 5, WatchEvent::LoopStart { now: 59 });
    assert!(matches!(b, WatchAction::OpenLog));
    assert_eq!(st.last_rotation_check, 30);
}

#[test]
fn open_failure_and_eof_sleep_for_the_interval() {
    let mut st = WatcherState { watermark: 7, last_rotation_check: 3 };
    match watch_step(&mut st, 5, WatchEvent::LogOpenFailed) {
        WatchAction::Sleep { seconds } => assert_eq!(seconds, 5),
        _ => panic!("expected a sleep"),
    }
    match watch_step(&mut st, 9, WatchEvent::EndOfFile) {
        WatchAction::Sleep { seconds } => assert_eq!(seconds, 9),
        _ => panic!("expected a sleep"),
    }
    assert_eq!(st.watermark, 7);
    assert_eq!(st.last_rotation_check, 3);
}

#[test]
fn lines_are_forwarded_in_file_order_and_advance_the_watermark() {
    let start: u64 = 1_000;
    let mut st = WatcherState { watermark: 0, last_rotation_check: 0 };
    let lines: [&[u8]; 2] = [
        b"{\"event_type\":\"alert\",\"src_ip\":\"10.0.0.1\"}",
        b"{\"event_type\":\"dns\",\"src_ip\":\"10.0.0.2\"}",
    ];
    let mut forwarded: Vec<Vec<u8>> = Vec::new();
    for (k, line) in lines.iter().enumerate() {
        let now = start + k as u64;
        match watch_step(&mut st, 5, WatchEvent::Line { now, raw: line.to_vec() }) {
            WatchAction::Forward { raw, .. } => forwarded.push(raw),
            _ => panic!("expected a forward"),
        }
        assert_eq!(st.watermark, now);
    }
    assert_eq!(forwarded.len(), 2);
    assert_eq!(forwarded[0], lines[0]);
    assert_eq!(forwarded[1], lines[1]);
    assert!(st.watermark >= start);
}

#[test]
fn a_line_that_is_not_json_is_skipped() {
    let mut st = WatcherState { watermark: 0, last_rotation_check: 0 };
    let a = watch_step(&mut st, 5, WatchEvent::Line { now: 42, raw: b"not json at all".to_vec() });
    assert!(matches!(a, WatchAction::SkipLine));
    assert_eq!(st.watermark, 42);
}
