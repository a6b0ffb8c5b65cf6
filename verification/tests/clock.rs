use std::time::{Duration, UNIX_EPOCH};
use ultimate_ttt::secs_elapsed;

#[test]
fn elapsed_time_counts_whole_seconds() {
    assert_eq!(secs_elapsed(Ok(Duration::from_secs(0))), Some(0));
    assert_eq!(secs_elapsed(Ok(Duration::from_secs(1_700_000_000))), Some(1_700_000_000));
    // Parts of a second are dropped, not rounded.
    assert_eq!(secs_elapsed(Ok(Duration::new(5, 999_999_999))), Some(5));
    assert_eq!(secs_elapsed(Ok(Duration::from_millis(999))), Some(0));
    assert_eq!(secs_elapsed(Ok(Duration::from_secs(u64::MAX))), Some(u64::MAX));
}

#[test]
fn reading_before_the_epoch_gives_nothing() {
    let later = UNIX_EPOCH + Duration::from_secs(10);
    let failed = UNIX_EPOCH.duration_since(later);
    assert!(failed.is_err());
    assert_eq!(secs_elapsed(failed), None);
}

#[test]
fn measurement_from_the_epoch_is_read_in_seconds() {
    let reading = UNIX_EPOCH + Duration::new(86_400, 500);
    assert_eq!(secs_elapsed(reading.duration_since(UNIX_EPOCH)), Some(86_400));
}
