use timegrapherq::db::{clip_destination, plan_migration, require_updated, RecordKind, SCHEMA_VERSION};
use timegrapherq::measure::trim_edges;

#[test]
fn migration_plan_is_idempotent() {
    assert_eq!(plan_migration(0), Some(SCHEMA_VERSION));
    assert_eq!(plan_migration(-3), Some(SCHEMA_VERSION));
    // Once migrated, reopening plans nothing.
    assert_eq!(plan_migration(SCHEMA_VERSION), None);
    assert_eq!(plan_migration(7), None);
}

#[test]
fn missing_records_are_reported() {
    assert!(require_updated(RecordKind::Watch, "w1", 1).is_ok());
    assert_eq!(
        require_updated(RecordKind::Watch, "w1", 0),
        Err("watch not found: w1".to_string())
    );
    assert_eq!(
        require_updated(RecordKind::Test, "t9", 0),
        Err("test not found: t9".to_string())
    );
}

#[test]
fn clips_are_filed_by_test_id() {
    assert_eq!(
        clip_destination(&Some("/tmp/a.wav".to_string()), "abc"),
        Some("recordings/abc.wav".to_string())
    );
    assert_eq!(clip_destination(&Some(String::new()), "abc"), None);
    assert_eq!(clip_destination(&None, "abc"), None);
}

#[test]
fn edge_beats_are_trimmed_only_when_enough() {
    assert_eq!(trim_edges(vec![1, 2, 3, 4, 5]), vec![2, 3, 4]);
    assert_eq!(trim_edges(vec![1, 2, 3, 4]), vec![1, 2, 3, 4]);
    assert_eq!(trim_edges(Vec::<u8>::new()), Vec::<u8>::new());
}

use timegrapherq::import::{check_clip_length, ClipLength};

#[test]
fn clip_length_limits() {
    // 0.1 s at 48 kHz is too short.
    assert_eq!(check_clip_length(4_800, 48_000), ClipLength::TooShort);
    assert_eq!(check_clip_length(95_999, 48_000), ClipLength::TooShort);
    assert_eq!(check_clip_length(96_000, 48_000), ClipLength::Acceptable);
    assert_eq!(check_clip_length(441_000, 44_100), ClipLength::Acceptable);
    assert_eq!(check_clip_length(600 * 8_000, 8_000), ClipLength::Acceptable);
    assert_eq!(check_clip_length(600 * 8_000 + 1, 8_000), ClipLength::TooLong);
    // A rate of zero counts as one sample per second.
    assert_eq!(check_clip_length(1, 0), ClipLength::TooShort);
    assert_eq!(check_clip_length(601, 0), ClipLength::TooLong);
}
