use base_framework::clock::timestamp_from_secs;

#[test]
fn clock_readings_become_timestamps() {
    assert_eq!(timestamp_from_secs(Some(0)), 0);
    assert_eq!(timestamp_from_secs(Some(1_700_000_000)), 1_700_000_000);
    assert_eq!(timestamp_from_secs(Some(i64::MAX as u64)), i64::MAX);
    assert_eq!(timestamp_from_secs(Some(u64::MAX)), i64::MAX);
    // A clock set before the epoch reads as the epoch.
    assert_eq!(timestamp_from_secs(None), 0);
}
