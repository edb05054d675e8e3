use slumber::clock::{now_secs, seconds_or_zero};

#[test]
fn clock_reads_seconds_since_epoch() {
    assert!(now_secs() > 1_600_000_000);
    assert_eq!(seconds_or_zero(Some(1_700_000_123)), 1_700_000_123);
    assert_eq!(seconds_or_zero(None), 0);
}
