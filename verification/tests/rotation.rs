//! Rotation and retention planning: the civil calendar, the archive name,
//! the size threshold, and what the sweep may and may not delete.

use suricata_agent::rotate::{
    archive_name, civil_from_epoch, format_timestamp, plan_retention, plan_rotation, CivilTime,
    LogDirEntry, RotationStep,
};

#[test]
fn epoch_zero_is_the_epoch() {
    let t = civil_from_epoch(0);
    assert_eq!(
        t,
        CivilTime { year: 1970, month: 1, day: 1, hour: 0, minute: 0, second: 0 }
    );
    assert_eq!(format_timestamp(&t), "19700101000000");
}

#[test]
fn calendar_handles_leap_years() {
    assert_eq!(format_timestamp(&civil_from_epoch(1709164800)), "20240229000000");
    assert_eq!(format_timestamp(&civil_from_epoch(951827696)), "20000229123456");
    assert_eq!(format_timestamp(&civil_from_epoch(1715000889)), "20240506130809");
    assert_eq!(format_timestamp(&civil_from_epoch(253402300799)), "99991231235959");
}

#[test]
fn archive_name_is_basename_dot_timestamp() {
    assert_eq!(archive_name("eve.json", 0), "eve.json.19700101000000");
    assert_eq!(archive_name("eve.json", 1715000889), "eve.json.20240506130809");
}

#[test]
fn oversized_log_rotates_to_a_timestamped_archive() {
    let step = plan_rotation(true, 1_048_577, 1, "eve.json", 1715000889);
    match step {
        RotationStep::Rotate { archive } => {
            assert_eq!(archive, "eve.json.20240506130809");
            let suffix = &archive["eve.json.".len()..];
            assert_eq!(suffix.len(), 14);
            assert!(suffix.chars().all(|c| c.is_ascii_digit()));
        },
        _ => panic!("expected a rotation"),
    }
}

#[test]
fn log_at_the_threshold_is_left_alone() {
    assert!(matches!(
        plan_rotation(true, 1_048_576, 1, "eve.json", 0),
        RotationStep::LeaveAsIs
    ));
}

#[test]
fn missing_log_is_recreated() {
    assert!(matches!(
        plan_rotation(false, 0, 1, "eve.json", 0),
        RotationStep::CreateActive
    ));
}

fn entry(name: &str, is_file: bool, mtime: u64) -> LogDirEntry {
    LogDirEntry { name: name.to_string(), is_file, mtime }
}

#[test]
fn retention_deletes_only_old_matching_archives() {
    let entries = vec![
        entry("eve.json", true, 0),
        entry("eve.old.json", true, 5),
        entry("eve.new.json", true, 100),
        entry("other.txt", true, 0),
        entry("eve.dir.json", false, 0),
        entry("eve.stale.json", true, 49),
    ];
    let doomed = plan_retention(&entries, "eve.json", 50);
    assert_eq!(doomed, vec!["eve.old.json".to_string(), "eve.stale.json".to_string()]);
}

#[test]
fn retention_never_touches_the_active_log() {
    let entries = vec![entry("eve.json", true, 0), entry("eve.a.json", true, 0)];
    let doomed = plan_retention(&entries, "eve.json", u64::MAX);
    assert_eq!(doomed, vec!["eve.a.json".to_string()]);
}

#[test]
fn retention_respects_the_watermark() {
    let entries = vec![entry("eve.a.json", true, 50), entry("eve.b.json", true, 51)];
    let doomed = plan_retention(&entries, "eve.json", 50);
    assert!(doomed.is_empty());
}

#[test]
fn retention_ignores_names_outside_the_glob() {
    let entries = vec![
        entry("eve.json.20240506130809", true, 0),
        entry("evex.json", true, 0),
        entry("eve..json", true, 0),
    ];
    let doomed = plan_retention(&entries, "eve.json", u64::MAX);
    assert_eq!(doomed, vec!["eve..json".to_string()]);
}
