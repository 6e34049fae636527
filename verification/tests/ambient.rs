use gemini_pool::ambient::{seconds_or_zero, timestamp_or_zero};

#[test]
fn a_reading_of_the_clock_gives_its_seconds() {
    assert_eq!(seconds_or_zero(Some(1_700_000_000)), 1_700_000_000);
    assert_eq!(seconds_or_zero(Some(u64::MAX)), u64::MAX);
    assert_eq!(seconds_or_zero(Some(0)), 0);
}

#[test]
fn a_clock_before_the_epoch_counts_as_zero() {
    assert_eq!(seconds_or_zero(None), 0);
    assert_eq!(timestamp_or_zero(None), 0);
}

#[test]
fn a_timestamp_is_held_at_the_last_there_is() {
    assert_eq!(timestamp_or_zero(Some(1_700_000_000)), 1_700_000_000);
    assert_eq!(timestamp_or_zero(Some(i64::MAX as u64)), i64::MAX);
    assert_eq!(timestamp_or_zero(Some(i64::MAX as u64 + 1)), i64::MAX);
    assert_eq!(timestamp_or_zero(Some(u64::MAX)), i64::MAX);
}
