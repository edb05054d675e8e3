use slumber::payload::format_duration;

#[test]
fn formats_compact_durations() {
    assert_eq!(format_duration(7), "7s");
    assert_eq!(format_duration(3_722), "1h 2m 2s");
}
