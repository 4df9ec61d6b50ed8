use time::date::Date;
use time::duration::Duration;
use time::offset_date_time::{OffsetDateTime, MAX_TIMESTAMP, MIN_TIMESTAMP};
use time::primitive_date_time::PrimitiveDateTime;
use time::time::Time;
use time::utc_offset::UtcOffset;

fn at(year: i32, month: u8, day: u8, hour: u8, minute: u8, second: u8) -> PrimitiveDateTime {
    PrimitiveDateTime::new(
        Date::from_calendar_date(year, month, day).unwrap(),
        Time::from_hms(hour, minute, second).unwrap(),
    )
}

fn offset(hours: i8, minutes: i8) -> UtcOffset {
    UtcOffset::from_hms(hours, minutes, 0).unwrap()
}

#[test]
fn date_time_parts() {
    let value = at(2021, 3, 4, 5, 6, 7);
    assert_eq!(value.date(), Date::from_calendar_date(2021, 3, 4).unwrap());
    assert_eq!(value.time(), Time::from_hms(5, 6, 7).unwrap());
    assert_eq!(value.replace_time(Time::midnight()), at(2021, 3, 4, 0, 0, 0));
    assert_eq!(
        value.replace_date(Date::from_calendar_date(2000, 1, 1).unwrap()),
        at(2000, 1, 1, 5, 6, 7)
    );
}

#[test]
fn time_overflow_carries_into_the_date() {
    let value = at(2020, 12, 31, 23, 0, 0);
    assert_eq!(value.checked_add(Duration::hours(2)).unwrap(), at(2021, 1, 1, 1, 0, 0));
    assert_eq!(value.checked_add(Duration::hours(26)).unwrap(), at(2021, 1, 2, 1, 0, 0));
    assert_eq!(value.checked_add(Duration::hours(-24)).unwrap(), at(2020, 12, 30, 23, 0, 0));
    assert_eq!(value.checked_add(Duration::minutes(59)).unwrap(), at(2020, 12, 31, 23, 59, 0));
    let value = at(2021, 1, 1, 1, 0, 0);
    assert_eq!(value.checked_sub(Duration::hours(2)).unwrap(), at(2020, 12, 31, 23, 0, 0));
    assert_eq!(value.checked_sub(Duration::hours(-23)).unwrap(), at(2021, 1, 2, 0, 0, 0));
    assert_eq!(value.checked_add(Duration::hours(-2)).unwrap(), at(2020, 12, 31, 23, 0, 0));
    assert_eq!(
        at(2020, 2, 28, 23, 59, 59).checked_add(Duration::seconds(1)).unwrap(),
        at(2020, 2, 29, 0, 0, 0)
    );
    for seconds in [1, 59, 3_600, 86_399, 86_400, 86_401, 1_000_000] {
        let span = Duration::seconds(seconds);
        let later = value.checked_add(span).unwrap();
        assert_eq!(later.checked_sub(span).unwrap(), value);
        assert_eq!(later.duration_since(value), span);
        assert_eq!(value.duration_since(later), Duration::seconds(-seconds));
        assert!(value.is_before(later));
        assert!(!later.is_before(value));
    }
}

#[test]
fn date_time_arithmetic_fails_past_the_supported_years() {
    let last = at(9999, 12, 31, 23, 59, 59);
    let error = last.checked_add(Duration::seconds(1)).unwrap_err();
    assert_eq!(error.name, "year");
    assert_eq!(error.value, 10_000);
    assert!(last.checked_add(Duration::milliseconds(999)).is_ok());
    let first = at(-9999, 1, 1, 0, 0, 0);
    let error = first.checked_sub(Duration::nanoseconds(1)).unwrap_err();
    assert_eq!(error.value, -10_000);
    assert!(first.checked_add(Duration::max_value()).is_err());
    assert!(first.checked_add(Duration::min_value()).is_err());
    assert!(first.checked_sub(Duration::min_value()).is_err());
    assert_eq!(
        last.duration_since(first),
        Duration::seconds(253_402_300_799 + 377_705_116_800)
    );
}

#[test]
fn unix_timestamps() {
    let epoch = OffsetDateTime::unix_epoch();
    assert_eq!(epoch.local_date_time(), at(1970, 1, 1, 0, 0, 0));
    assert!(epoch.offset().is_utc());
    assert_eq!(epoch.unix_timestamp(), 0);
    let value = OffsetDateTime::from_unix_timestamp(1_609_459_200).unwrap();
    assert_eq!(value.local_date_time(), at(2021, 1, 1, 0, 0, 0));
    assert_eq!(value.unix_timestamp(), 1_609_459_200);
    assert_eq!(value.unix_timestamp_nanos(), 1_609_459_200_000_000_000);
    let value = OffsetDateTime::from_unix_timestamp(-1).unwrap();
    assert_eq!(value.local_date_time(), at(1969, 12, 31, 23, 59, 59));
    assert_eq!(value.unix_timestamp(), -1);
    assert_eq!(
        OffsetDateTime::from_unix_timestamp(MAX_TIMESTAMP).unwrap().local_date_time(),
        at(9999, 12, 31, 23, 59, 59)
    );
    assert_eq!(
        OffsetDateTime::from_unix_timestamp(MIN_TIMESTAMP).unwrap().local_date_time(),
        at(-9999, 1, 1, 0, 0, 0)
    );
    let error = OffsetDateTime::from_unix_timestamp(MAX_TIMESTAMP + 1).unwrap_err();
    assert_eq!(error.name, "timestamp");
    assert_eq!(
        (error.minimum, error.maximum, error.value),
        (MIN_TIMESTAMP, MAX_TIMESTAMP, MAX_TIMESTAMP + 1)
    );
    assert!(!error.conditional_range);
    assert!(OffsetDateTime::from_unix_timestamp(MIN_TIMESTAMP - 1).is_err());
    assert!(OffsetDateTime::from_unix_timestamp(i64::MAX).is_err());
    let below = OffsetDateTime::new(
        PrimitiveDateTime::new(
            Date::from_calendar_date(1969, 12, 31).unwrap(),
            Time::from_hms_nano(23, 59, 59, 500_000_000).unwrap(),
        ),
        UtcOffset::utc(),
    );
    assert_eq!(below.unix_timestamp(), -1);
    assert_eq!(below.unix_timestamp_nanos(), -500_000_000);
}

#[test]
fn the_instant_is_local_time_minus_the_offset() {
    let value = OffsetDateTime::new(at(2021, 1, 1, 0, 0, 0), offset(1, 0));
    assert_eq!(value.unix_timestamp(), 1_609_459_200 - 3_600);
    let value = OffsetDateTime::new(at(2021, 1, 1, 0, 0, 0), offset(-5, -30));
    assert_eq!(value.unix_timestamp(), 1_609_459_200 + 19_800);
    assert_eq!(value.date(), Date::from_calendar_date(2021, 1, 1).unwrap());
    assert_eq!(value.time(), Time::midnight());
    assert_eq!(value.offset(), offset(-5, -30));
}

#[test]
fn changing_the_offset_keeps_the_instant() {
    let utc = OffsetDateTime::new(at(2020, 12, 31, 23, 30, 0), UtcOffset::utc());
    let east = utc.to_offset(offset(1, 0)).unwrap();
    assert_eq!(east.local_date_time(), at(2021, 1, 1, 0, 30, 0));
    assert_eq!(east.offset(), offset(1, 0));
    assert_eq!(east.unix_timestamp(), utc.unix_timestamp());
    assert!(east.is_same_instant(utc));
    assert!(!east.is_before(utc));
    let west = east.to_offset(offset(-8, 0)).unwrap();
    assert_eq!(west.local_date_time(), at(2020, 12, 31, 15, 30, 0));
    assert_eq!(west.to_offset(UtcOffset::utc()).unwrap(), utc);
    assert_eq!(east.to_offset(UtcOffset::utc()).unwrap(), utc);
    let far = UtcOffset::from_hms(23, 59, 59).unwrap();
    let back = UtcOffset::from_hms(-23, -59, -59).unwrap();
    let shifted = utc.to_offset(far).unwrap().to_offset(back).unwrap();
    assert_eq!(shifted.local_date_time(), at(2020, 12, 30, 23, 30, 1));
    assert!(shifted.is_same_instant(utc));
    let last = OffsetDateTime::new(at(9999, 12, 31, 23, 30, 0), UtcOffset::utc());
    let error = last.to_offset(offset(1, 0)).unwrap_err();
    assert_eq!((error.name, error.value), ("year", 10_000));
    assert!(last.to_offset(offset(-1, 0)).is_ok());
}

#[test]
fn offset_date_time_arithmetic() {
    let value = OffsetDateTime::new(at(2020, 12, 31, 23, 0, 0), offset(2, 0));
    let later = value.checked_add(Duration::hours(2)).unwrap();
    assert_eq!(later.local_date_time(), at(2021, 1, 1, 1, 0, 0));
    assert_eq!(later.offset(), offset(2, 0));
    assert_eq!(later.checked_sub(Duration::hours(2)).unwrap(), value);
    assert_eq!(later.duration_since(value), Duration::hours(2));
    assert!(value.is_before(later));
    let other = OffsetDateTime::new(at(2020, 12, 31, 23, 0, 0), offset(-2, 0));
    assert_eq!(other.duration_since(value), Duration::hours(4));
    assert_eq!(value.duration_since(other), Duration::hours(-4));
    assert!(value.is_before(other));
    assert!(!value.is_same_instant(other));
    let last = OffsetDateTime::new(at(9999, 12, 31, 23, 0, 0), offset(2, 0));
    assert_eq!(last.checked_add(Duration::hours(1)).unwrap_err().name, "year");
}

#[test]
fn unix_timestamps_in_nanoseconds() {
    let value = OffsetDateTime::from_unix_timestamp_nanos(1_609_459_200_123_456_789).unwrap();
    assert_eq!(value.date(), Date::from_calendar_date(2021, 1, 1).unwrap());
    assert_eq!(value.time(), Time::from_hms_nano(0, 0, 0, 123_456_789).unwrap());
    assert_eq!(value.unix_timestamp_nanos(), 1_609_459_200_123_456_789);
    assert!(value.offset().is_utc());
    let value = OffsetDateTime::from_unix_timestamp_nanos(-1).unwrap();
    assert_eq!(value.date(), Date::from_calendar_date(1969, 12, 31).unwrap());
    assert_eq!(value.time(), Time::from_hms_nano(23, 59, 59, 999_999_999).unwrap());
    assert_eq!(value.unix_timestamp(), -1);
    let last = MAX_TIMESTAMP as i128 * 1_000_000_000 + 999_999_999;
    assert_eq!(OffsetDateTime::from_unix_timestamp_nanos(last).unwrap().unix_timestamp_nanos(), last);
    let error = OffsetDateTime::from_unix_timestamp_nanos(last + 1).unwrap_err();
    assert_eq!((error.name, error.value), ("timestamp", MAX_TIMESTAMP + 1));
    let first = MIN_TIMESTAMP as i128 * 1_000_000_000;
    assert!(OffsetDateTime::from_unix_timestamp_nanos(first).is_ok());
    let error = OffsetDateTime::from_unix_timestamp_nanos(first - 1).unwrap_err();
    assert_eq!((error.name, error.value), ("timestamp", MIN_TIMESTAMP - 1));
    assert_eq!(OffsetDateTime::from_unix_timestamp_nanos(i128::MAX).unwrap_err().value, i64::MAX);
    assert_eq!(OffsetDateTime::from_unix_timestamp_nanos(i128::MIN).unwrap_err().value, i64::MIN);
}

#[test]
fn a_date_time_can_be_given_an_offset() {
    let local = at(2021, 1, 1, 12, 0, 0);
    assert_eq!(local.assume_utc(), OffsetDateTime::new(local, UtcOffset::utc()));
    assert_eq!(local.assume_utc().unix_timestamp(), 1_609_459_200 + 43_200);
    assert_eq!(local.assume_offset(offset(2, 0)), OffsetDateTime::new(local, offset(2, 0)));
    assert_eq!(local.assume_offset(offset(2, 0)).unix_timestamp(), 1_609_459_200 + 36_000);
}
