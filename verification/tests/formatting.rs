use time::date::Date;
use time::format_description::well_known::{iso_date, rfc3339};
use time::format_description::{parse, Padding};
use time::formatting::{fraction_width, pow10, push_number};
use time::offset_date_time::OffsetDateTime;
use time::primitive_date_time::PrimitiveDateTime;
use time::time::Time;
use time::utc_offset::UtcOffset;

fn date(year: i32, month: u8, day: u8) -> Date {
    Date::from_calendar_date(year, month, day).unwrap()
}

fn written(source: &str, date: Option<Date>, time: Option<Time>, offset: Option<UtcOffset>) -> String {
    let description = parse(source.as_bytes()).unwrap();
    String::from_utf8(time::formatting::format(&description, date, time, offset).unwrap()).unwrap()
}

fn number(value: u32, width: u8, padding: Padding) -> String {
    let mut out = b"x".to_vec();
    push_number(&mut out, value, width, padding);
    String::from_utf8(out).unwrap()
}

#[test]
fn numbers_are_padded_to_their_width() {
    assert_eq!(number(7, 2, Padding::Zero), "x07");
    assert_eq!(number(7, 2, Padding::Space), "x 7");
    assert_eq!(number(7, 2, Padding::Unpadded), "x7");
    assert_eq!(number(0, 4, Padding::Zero), "x0000");
    assert_eq!(number(0, 1, Padding::Unpadded), "x0");
    assert_eq!(number(12_345, 4, Padding::Zero), "x12345");
    assert_eq!(number(123, 3, Padding::Space), "x123");
    assert_eq!(number(u32::MAX, 0, Padding::Zero), "x4294967295");
    assert_eq!(number(10, 5, Padding::Space), "x   10");
    assert_eq!(pow10(0), 1);
    assert_eq!(pow10(9), 1_000_000_000);
    assert_eq!(fraction_width(0), 1);
    assert_eq!(fraction_width(500_000_000), 1);
    assert_eq!(fraction_width(120_000_000), 2);
    assert_eq!(fraction_width(1), 9);
    assert_eq!(fraction_width(123_456_000), 6);
}

#[test]
fn formats_an_rfc3339_date_time() {
    let value = OffsetDateTime::new(
        PrimitiveDateTime::new(date(2021, 1, 1), Time::midnight()),
        UtcOffset::utc(),
    );
    assert_eq!(value.format(&rfc3339()), b"2021-01-01T00:00:00+00:00".to_vec());
    let zulu = parse(b"[year]-[month]-[day]T[hour]:[minute]:[second]Z").unwrap();
    assert_eq!(value.format(&zulu), b"2021-01-01T00:00:00Z".to_vec());
    let value = OffsetDateTime::new(
        PrimitiveDateTime::new(date(1999, 12, 31), Time::from_hms(23, 59, 58).unwrap()),
        UtcOffset::from_hms(-5, -30, 0).unwrap(),
    );
    assert_eq!(value.format(&rfc3339()), b"1999-12-31T23:59:58-05:30".to_vec());
}

#[test]
fn formats_the_fields_of_a_date() {
    let day = Some(date(2021, 3, 7));
    assert_eq!(written("[year]-[month]-[day]", day, None, None), "2021-03-07");
    assert_eq!(written("[day padding=none].[month padding=none].", day, None, None), "7.3.");
    assert_eq!(written("[day padding=space]|[month padding=space]", day, None, None), " 7| 3");
    assert_eq!(written("[ordinal]", day, None, None), "066");
    assert_eq!(written("[ordinal padding=none]", day, None, None), "66");
    assert_eq!(written("[ordinal padding=space]", day, None, None), " 66");
    assert_eq!(written("[weekday]", day, None, None), "7");
    assert_eq!(written("[weekday one_indexed=false]", day, None, None), "6");
    assert_eq!(written("[weekday repr=sunday]", day, None, None), "1");
    assert_eq!(written("[weekday repr=sunday one_indexed=false]", day, None, None), "0");
    assert_eq!(written("[week_number]", day, None, None), "09");
    assert_eq!(written("[week_number repr=monday]", day, None, None), "09");
    assert_eq!(written("[week_number repr=sunday]", day, None, None), "10");
    assert_eq!(written("[year sign=mandatory]", day, None, None), "+2021");
    let first = Some(date(2021, 1, 1));
    assert_eq!(written("[year base=iso_week]-W[week_number]-[weekday]", first, None, None), "2020-W53-5");
    assert_eq!(date(2021, 3, 7).format(&iso_date()).unwrap(), b"2021-03-07".to_vec());
}

#[test]
fn formats_years_with_few_digits_and_negative_years() {
    assert_eq!(written("[year]", Some(date(7, 1, 1)), None, None), "0007");
    assert_eq!(written("[year padding=none]", Some(date(7, 1, 1)), None, None), "7");
    assert_eq!(written("[year padding=space]", Some(date(7, 1, 1)), None, None), "   7");
    assert_eq!(written("[year]", Some(date(0, 1, 1)), None, None), "0000");
    assert_eq!(written("[year]", Some(date(-1, 1, 1)), None, None), "-0001");
    assert_eq!(written("[year sign=mandatory]", Some(date(-9999, 1, 1)), None, None), "-9999");
    assert_eq!(written("[year padding=space]", Some(date(-44, 3, 15)), None, None), "-  44");
    assert_eq!(written("[year sign=mandatory]", Some(date(0, 1, 1)), None, None), "+0000");
}

#[test]
fn formats_the_fields_of_a_time() {
    let time = Some(Time::from_hms_nano(15, 4, 5, 120_000_000).unwrap());
    assert_eq!(written("[hour]:[minute]:[second]", None, time, None), "15:04:05");
    assert_eq!(written("[hour repr=12] [period]", None, time, None), "03 PM");
    assert_eq!(written("[hour repr=12 padding=none][period case=lower]", None, time, None), "3pm");
    assert_eq!(written("[second].[subsecond]", None, time, None), "05.12");
    assert_eq!(written("[subsecond digits=1]", None, time, None), "1");
    assert_eq!(written("[subsecond digits=3]", None, time, None), "120");
    assert_eq!(written("[subsecond digits=9]", None, time, None), "120000000");
    assert_eq!(written("[minute padding=none]", None, time, None), "4");
    assert_eq!(written("[minute padding=space]", None, time, None), " 4");
    let midnight = Some(Time::midnight());
    assert_eq!(written("[hour repr=12] [period]", None, midnight, None), "12 AM");
    assert_eq!(written("[subsecond]", None, midnight, None), "0");
    assert_eq!(written("[subsecond digits=2]", None, midnight, None), "00");
    let noon = Some(Time::from_hms(12, 0, 0).unwrap());
    assert_eq!(written("[hour repr=12][period case=lower]", None, noon, None), "12pm");
    let late = Some(Time::from_hms_nano(23, 59, 59, 999_999_999).unwrap());
    assert_eq!(written("[hour repr=12]:[subsecond]", None, late, None), "11:999999999");
    assert_eq!(written("[subsecond digits=4]", None, late, None), "9999");
    let small = Some(Time::from_hms_nano(0, 0, 0, 1_000).unwrap());
    assert_eq!(written("[subsecond]", None, small, None), "000001");
    assert_eq!(written("[subsecond digits=3]", None, small, None), "000");
    assert_eq!(Time::midnight().format(&parse(b"[hour]").unwrap()).unwrap(), b"00".to_vec());
}

#[test]
fn formats_the_fields_of_an_offset() {
    let east = Some(UtcOffset::from_hms(5, 30, 15).unwrap());
    assert_eq!(written("[offset_hour]:[offset_minute]:[offset_second]", None, None, east), "05:30:15");
    assert_eq!(written("[offset_hour sign=mandatory]", None, None, east), "+05");
    assert_eq!(written("[offset_hour padding=none]", None, None, east), "5");
    let west = Some(UtcOffset::from_hms(-5, -30, -15).unwrap());
    assert_eq!(written("[offset_hour]:[offset_minute]:[offset_second]", None, None, west), "-05:30:15");
    assert_eq!(written("[offset_hour padding=space]", None, None, west), "- 5");
    let half = Some(UtcOffset::from_hms(0, -30, 0).unwrap());
    assert_eq!(written("[offset_hour]:[offset_minute]", None, None, half), "-00:30");
    let utc = Some(UtcOffset::utc());
    assert_eq!(written("[offset_hour]:[offset_minute]", None, None, utc), "00:00");
    assert_eq!(written("[offset_hour sign=mandatory]:[offset_minute]", None, None, utc), "+00:00");
}

#[test]
fn a_missing_value_gives_nothing() {
    let description = parse(b"[year] [hour]").unwrap();
    assert_eq!(time::formatting::format(&description, Some(date(2021, 1, 1)), None, None), None);
    assert_eq!(date(2021, 1, 1).format(&description), None);
    assert_eq!(Time::midnight().format(&description), None);
    assert_eq!(time::formatting::format(&description, None, Some(Time::midnight()), None), None);
    assert!(time::formatting::format(&description, Some(date(2021, 1, 1)), Some(Time::midnight()), None).is_some());
    let with_offset = parse(b"[hour][offset_hour]").unwrap();
    let value = PrimitiveDateTime::new(date(2021, 1, 1), Time::midnight());
    assert_eq!(value.format(&with_offset), None);
    assert_eq!(value.format(&description).unwrap(), b"2021 00".to_vec());
    let text = parse(b"only text [[").unwrap();
    assert_eq!(time::formatting::format(&text, None, None, None).unwrap(), b"only text [".to_vec());
    assert_eq!(time::formatting::format(&parse(b"").unwrap(), None, None, None).unwrap(), b"".to_vec());
}
