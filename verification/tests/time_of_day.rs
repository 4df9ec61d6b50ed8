use time::duration::Duration;
use time::time::Time;

fn hms(hour: u8, minute: u8, second: u8) -> Time {
    Time::from_hms(hour, minute, second).unwrap()
}

#[test]
fn time_fields() {
    let time = Time::from_hms_nano(23, 59, 58, 123_456_789).unwrap();
    assert_eq!(time.hour(), 23);
    assert_eq!(time.minute(), 59);
    assert_eq!(time.second(), 58);
    assert_eq!(time.millisecond(), 123);
    assert_eq!(time.microsecond(), 123_456);
    assert_eq!(time.nanosecond(), 123_456_789);
    assert_eq!(time.as_hms(), (23, 59, 58));
    assert_eq!(time.as_hms_nano(), (23, 59, 58, 123_456_789));
    assert_eq!(time.nanoseconds_since_midnight(), 86_398_123_456_789);
    assert_eq!(Time::midnight(), hms(0, 0, 0));
    assert_eq!(Time::midnight().nanoseconds_since_midnight(), 0);
    assert_eq!(Time::from_hms_milli(1, 2, 3, 4).unwrap().nanosecond(), 4_000_000);
    assert_eq!(Time::from_hms_micro(1, 2, 3, 4).unwrap().nanosecond(), 4_000);
}

#[test]
fn time_fields_are_checked_in_order() {
    let error = Time::from_hms(24, 60, 60).unwrap_err();
    assert_eq!(error.name, "hour");
    assert_eq!((error.minimum, error.maximum, error.value), (0, 23, 24));
    assert!(!error.conditional_range);
    let error = Time::from_hms(23, 60, 60).unwrap_err();
    assert_eq!((error.name, error.maximum, error.value), ("minute", 59, 60));
    let error = Time::from_hms(23, 59, 60).unwrap_err();
    assert_eq!((error.name, error.maximum, error.value), ("second", 59, 60));
    let error = Time::from_hms_milli(23, 59, 59, 1_000).unwrap_err();
    assert_eq!((error.name, error.maximum, error.value), ("millisecond", 999, 1_000));
    let error = Time::from_hms_micro(23, 59, 59, 1_000_000).unwrap_err();
    assert_eq!((error.name, error.maximum, error.value), ("microsecond", 999_999, 1_000_000));
    let error = Time::from_hms_nano(23, 59, 59, 1_000_000_000).unwrap_err();
    assert_eq!((error.name, error.maximum, error.value), ("nanosecond", 999_999_999, 1_000_000_000));
    assert!(!error.conditional_range);
    assert!(Time::from_hms_nano(23, 59, 59, 999_999_999).is_ok());
}

#[test]
fn adding_wraps_and_counts_the_days() {
    assert_eq!(hms(23, 0, 0).adjusting_add(Duration::hours(2)), (1, hms(1, 0, 0)));
    assert_eq!(hms(1, 0, 0).adjusting_add(Duration::hours(-2)), (-1, hms(23, 0, 0)));
    assert_eq!(hms(12, 0, 0).adjusting_add(Duration::hours(1)), (0, hms(13, 0, 0)));
    assert_eq!(hms(12, 0, 0).adjusting_add(Duration::days(3)), (3, hms(12, 0, 0)));
    assert_eq!(hms(0, 0, 0).adjusting_add(Duration::nanoseconds(-1)).0, -1);
    assert_eq!(
        hms(0, 0, 0).adjusting_add(Duration::nanoseconds(-1)).1,
        Time::from_hms_nano(23, 59, 59, 999_999_999).unwrap()
    );
    assert_eq!(hms(0, 0, 0).adjusting_add(Duration::days(-2)), (-2, hms(0, 0, 0)));
    assert_eq!(hms(1, 0, 0).adjusting_sub(Duration::hours(2)), (-1, hms(23, 0, 0)));
    assert_eq!(hms(23, 0, 0).adjusting_sub(Duration::hours(-2)), (1, hms(1, 0, 0)));
    assert_eq!(hms(23, 59, 59).wrapping_add(Duration::seconds(1)), hms(0, 0, 0));
    assert_eq!(hms(0, 0, 0).wrapping_sub(Duration::seconds(1)), hms(23, 59, 59));
    let (days, time) = hms(6, 0, 0).adjusting_add(Duration::max_value());
    assert_eq!(days, 106_751_991_167_300);
    assert_eq!(time, Time::from_hms_nano(21, 30, 7, 999_999_999).unwrap());
    let (days, _) = hms(6, 0, 0).adjusting_add(Duration::min_value());
    assert_eq!(days, -106_751_991_167_301);
}

#[test]
fn times_compare_by_their_fields() {
    assert!(hms(1, 0, 0).is_before(hms(1, 0, 1)));
    assert!(!hms(1, 0, 1).is_before(hms(1, 0, 1)));
    assert!(hms(0, 59, 59) < hms(1, 0, 0));
    assert!(Time::from_hms_nano(1, 0, 0, 1).unwrap() > hms(1, 0, 0));
    assert_eq!(hms(13, 0, 0).duration_since(hms(12, 0, 0)), Duration::hours(1));
    assert_eq!(hms(12, 0, 0).duration_since(hms(13, 0, 0)), Duration::hours(-1));
}
