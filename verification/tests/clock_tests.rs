use cloudapi_installr::clock::{timestamp_now, timestamp_of};
use cloudapi_installr::constants::UNIX_EPOCH_TIMESTAMP;

#[test]
fn reading_is_written_as_rfc3339_in_utc() {
    assert_eq!(timestamp_of(Some((0, 0))), "1970-01-01T00:00:00+00:00");
    assert_eq!(timestamp_of(Some((1431648000, 0))), "2015-05-15T00:00:00+00:00");
    assert_eq!(timestamp_of(Some((1, 500_000_000))), "1970-01-01T00:00:01.500+00:00");
    assert_eq!(timestamp_of(Some((86_399, 123_456_789))), "1970-01-01T23:59:59.123456789+00:00");
}

#[test]
fn clock_without_a_reading_gives_the_epoch() {
    assert_eq!(UNIX_EPOCH_TIMESTAMP, "1970-01-01T00:00:00+00:00");
    assert_eq!(timestamp_of(None), UNIX_EPOCH_TIMESTAMP);
}

#[test]
fn reading_that_is_no_instant_gives_the_epoch() {
    assert_eq!(timestamp_of(Some((u64::MAX, 0))), UNIX_EPOCH_TIMESTAMP);
    assert_eq!(timestamp_of(Some((9_223_372_036_854_775_807, 0))), UNIX_EPOCH_TIMESTAMP);
    assert_eq!(timestamp_of(Some((9_223_372_036_854_775_808, 0))), UNIX_EPOCH_TIMESTAMP);
    assert_eq!(timestamp_of(Some((10, 2_000_000_000))), UNIX_EPOCH_TIMESTAMP);
}

#[test]
fn timestamp_now_is_after_the_epoch() {
    let now = timestamp_now();
    assert!(now.ends_with("+00:00"));
    assert!(now.as_str() > "2020-01-01T00:00:00+00:00");
}
