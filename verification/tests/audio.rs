use timegrapherq::audio::{
    expected_beats, is_degraded, list_devices, recording_file_name, select_named_device,
    validate_beat_rate, InputDeviceProbe, DEGRADED_SAMPLE_RATE_HZ,
};

#[test]
fn degraded_threshold() {
    assert!(is_degraded(8_000));
    assert!(is_degraded(16_000));
    assert!(is_degraded(DEGRADED_SAMPLE_RATE_HZ));
    assert!(!is_degraded(44_100));
    assert!(!is_degraded(48_000));
}

#[test]
fn expected_beats_for_clip() {
    // 28800 bph = 8 beats/s; 10 s of 44.1 kHz => ~80 beats.
    assert_eq!(expected_beats(441_000, 44_100, 28_800), 80);
}

#[test]
fn expected_beats_rounds_to_nearest() {
    // 2.5 s at 21600 bph (6 beats/s) = 15 beats exactly.
    assert_eq!(expected_beats(120_000, 48_000, 21_600), 15);
    // 1.0625 s at 28800 bph = 8.5 beats: halves round up.
    assert_eq!(expected_beats(17, 16, 28_800), 9);
    // 1.05 s at 28800 bph = 8.4 beats.
    assert_eq!(expected_beats(105, 100, 28_800), 8);
    assert_eq!(expected_beats(0, 44_100, 28_800), 0);
}

#[test]
fn expected_beats_without_a_sample_rate() {
    assert_eq!(expected_beats(100, 0, 28_800), usize::MAX);
    assert_eq!(expected_beats(0, 0, 28_800), 0);
    assert_eq!(expected_beats(100, 0, 0), 0);
    assert_eq!(expected_beats(100, 44_100, 0), 0);
}

#[test]
fn beat_rate_validation() {
    assert!(validate_beat_rate(28_800).is_ok());
    assert!(validate_beat_rate(3_600).is_ok());
    assert!(validate_beat_rate(72_000).is_ok());
    assert_eq!(
        validate_beat_rate(0).unwrap_err(),
        "beat rate (bph) must be between 3600 and 72000"
    );
    assert!(validate_beat_rate(72_001).is_err());
    assert!(validate_beat_rate(3_599).is_err());
}

#[test]
fn device_list_skips_unnamed_and_marks_default() {
    let probes = vec![
        InputDeviceProbe {
            name: Some("USB Mic".to_string()),
            default_config: Some((48_000, 2)),
        },
        InputDeviceProbe {
            name: None,
            default_config: Some((44_100, 1)),
        },
        InputDeviceProbe {
            name: Some("Built-in".to_string()),
            default_config: None,
        },
    ];
    let list = list_devices(&probes, &Some("Built-in".to_string()));
    assert_eq!(list.len(), 2);
    assert_eq!(list[0].name, "USB Mic");
    assert!(!list[0].is_default);
    assert_eq!(list[0].default_sample_rate, 48_000);
    assert_eq!(list[0].channels, 2);
    assert_eq!(list[1].name, "Built-in");
    assert!(list[1].is_default);
    assert_eq!(list[1].default_sample_rate, 0);
    assert_eq!(list[1].channels, 0);

    let none_default = list_devices(&probes, &None);
    assert!(none_default.iter().all(|d| !d.is_default));
    assert!(list_devices(&Vec::new(), &None).is_empty());
}

#[test]
fn named_device_selection() {
    let names = vec![
        Some("A".to_string()),
        None,
        Some("B".to_string()),
        Some("B".to_string()),
    ];
    assert_eq!(select_named_device(&names, "A"), Ok(0));
    assert_eq!(select_named_device(&names, "B"), Ok(2));
    assert_eq!(
        select_named_device(&names, "C"),
        Err("input device not found: C".to_string())
    );
    assert!(select_named_device(&Vec::new(), "A").is_err());
}

#[test]
fn recording_names_carry_the_timestamp() {
    assert_eq!(recording_file_name(0), "timegrapherq-0.wav");
    assert_eq!(recording_file_name(1_717_900_000), "timegrapherq-1717900000.wav");
    assert_eq!(
        recording_file_name(u64::MAX),
        "timegrapherq-18446744073709551615.wav"
    );
}
