use time::date::Date;
use time::error::{ComponentRange, Error, IntermediateParse};
use time::format_description::well_known::{iso_date, rfc3339};
use time::format_description::{parse as compile, Padding};
use time::offset_date_time::OffsetDateTime;
use time::parsing::{parse, parse_items, parse_number, parse_sign, stands_at, Parsed};
use time::primitive_date_time::PrimitiveDateTime;
use time::time::Time;
use time::utc_offset::UtcOffset;
use time::weekday::Weekday;

fn date(year: i32, month: u8, day: u8) -> Date {
    Date::from_calendar_date(year, month, day).unwrap()
}

fn range(error: Error) -> ComponentRange {
    match error {
        Error::ComponentRange(error) => error,
        other => panic!("{:?}", other),
    }
}

fn read(source: &str, input: &str) -> Result<Parsed, Error> {
    parse(input.as_bytes(), &compile(source.as_bytes()).unwrap())
}

fn invalid(name: &'static str) -> Error {
    Error::IntermediateParse(IntermediateParse::InvalidComponent(name))
}

#[test]
fn parses_an_iso_date() {
    assert_eq!(Date::parse(b"2020-02-29", &iso_date()).unwrap(), date(2020, 2, 29));
    assert_eq!(Date::parse(b"0001-01-01", &iso_date()).unwrap(), date(1, 1, 1));
    assert_eq!(Date::parse(b"-0001-12-31", &iso_date()).unwrap(), date(-1, 12, 31));
    assert_eq!(Date::parse(b"+2020-02-29", &iso_date()).unwrap(), date(2020, 2, 29));
}

#[test]
fn february_29_of_a_common_year_is_a_conditional_range_error() {
    let error = range(Date::parse(b"2021-02-29", &iso_date()).unwrap_err());
    assert_eq!(error.name, "day");
    assert_eq!((error.minimum, error.maximum, error.value), (1, 28, 29));
    assert!(error.conditional_range);
}

#[test]
fn month_13_is_a_range_error_on_the_month() {
    let error = range(Date::parse(b"2023-13-01", &iso_date()).unwrap_err());
    assert_eq!(error.name, "month");
    assert_eq!((error.minimum, error.maximum, error.value), (1, 12, 13));
    assert!(!error.conditional_range);
    let error = range(Date::parse(b"2023-00-01", &iso_date()).unwrap_err());
    assert_eq!(error.name, "month");
    let error = range(Date::parse(b"2023-01-00", &iso_date()).unwrap_err());
    assert_eq!(error.name, "day");
}

#[test]
fn text_must_match_and_nothing_may_be_left() {
    assert_eq!(
        Date::parse(b"2020/02/29", &iso_date()).unwrap_err(),
        Error::IntermediateParse(IntermediateParse::InvalidLiteral)
    );
    assert_eq!(
        Date::parse(b"2020-02-29 ", &iso_date()).unwrap_err(),
        Error::UnexpectedTrailingCharacters
    );
    assert_eq!(
        Date::parse(b"2020-02-", &iso_date()).unwrap_err(),
        invalid("day")
    );
    assert_eq!(Date::parse(b"2020", &iso_date()).unwrap_err(),
        Error::IntermediateParse(IntermediateParse::InvalidLiteral));
    assert_eq!(Date::parse(b"20-02-29", &iso_date()).unwrap_err(), invalid("year"));
    assert_eq!(Date::parse(b"", &iso_date()).unwrap_err(), invalid("year"));
    assert_eq!(Date::parse(b"2020-2-29", &iso_date()).unwrap_err(), invalid("month"));
    assert_eq!(read("", "").unwrap(), Parsed::empty());
    assert_eq!(read("", "x").unwrap_err(), Error::UnexpectedTrailingCharacters);
    assert_eq!(read("abc", "abc").unwrap(), Parsed::empty());
    assert_eq!(
        read("abc", "ab").unwrap_err(),
        Error::IntermediateParse(IntermediateParse::InvalidLiteral)
    );
    let description = compile(b"[year]x").unwrap();
    assert_eq!(
        parse_items(b"2020x and more", &description).unwrap(),
        (Parsed { year: Some(2020), ..Parsed::empty() }, 5)
    );
}

#[test]
fn numbers_are_read_as_their_padding_says() {
    assert_eq!(parse_number(b"0712", 0, 2, Padding::Zero), Some((7, 2)));
    assert_eq!(parse_number(b"0712", 2, 2, Padding::Zero), Some((12, 4)));
    assert_eq!(parse_number(b"0712", 3, 2, Padding::Zero), None);
    assert_eq!(parse_number(b"7x", 0, 2, Padding::Zero), None);
    assert_eq!(parse_number(b" 7x", 0, 2, Padding::Space), Some((7, 2)));
    assert_eq!(parse_number(b"17x", 0, 2, Padding::Space), Some((17, 2)));
    assert_eq!(parse_number(b"  7", 0, 2, Padding::Space), None);
    assert_eq!(parse_number(b"  7", 0, 3, Padding::Space), Some((7, 3)));
    assert_eq!(parse_number(b"   ", 0, 3, Padding::Space), None);
    assert_eq!(parse_number(b"7 ", 0, 2, Padding::Space), None);
    assert_eq!(parse_number(b"7x", 0, 2, Padding::Unpadded), Some((7, 1)));
    assert_eq!(parse_number(b"712", 0, 2, Padding::Unpadded), Some((71, 2)));
    assert_eq!(parse_number(b"x", 0, 2, Padding::Unpadded), None);
    assert_eq!(parse_number(b"", 0, 2, Padding::Unpadded), None);
    assert_eq!(parse_number(b"999999999", 0, 9, Padding::Zero), Some((999_999_999, 9)));
    assert_eq!(parse_number(b"12", 0, 0, Padding::Unpadded), None);
    assert_eq!(parse_sign(b"-1", 0, false), Some((true, 1)));
    assert_eq!(parse_sign(b"+1", 0, false), Some((false, 1)));
    assert_eq!(parse_sign(b"1", 0, false), Some((false, 0)));
    assert_eq!(parse_sign(b"1", 0, true), None);
    assert_eq!(parse_sign(b"", 0, true), None);
    assert!(stands_at(b"abcd", 1, b"bc"));
    assert!(stands_at(b"abcd", 4, b""));
    assert!(!stands_at(b"abcd", 3, b"de"));
    assert!(!stands_at(b"abcd", 1, b"bd"));
}

#[test]
fn parses_the_fields_of_a_date() {
    let parsed = read("[year] [ordinal]", "2021 066").unwrap();
    assert_eq!((parsed.year, parsed.ordinal), (Some(2021), Some(66)));
    assert_eq!(parsed.to_date().unwrap(), date(2021, 3, 7));
    let parsed = read("[year base=iso_week]-W[week_number]-[weekday]", "2020-W53-5").unwrap();
    assert_eq!(
        (parsed.iso_year, parsed.iso_week, parsed.weekday),
        (Some(2020), Some(53), Some(Weekday::Friday))
    );
    assert_eq!(parsed.to_date().unwrap(), date(2021, 1, 1));
    assert_eq!(read("[weekday]", "1").unwrap().weekday, Some(Weekday::Monday));
    assert_eq!(read("[weekday]", "7").unwrap().weekday, Some(Weekday::Sunday));
    assert_eq!(read("[weekday]", "0").unwrap_err(), invalid("weekday"));
    assert_eq!(read("[weekday]", "8").unwrap_err(), invalid("weekday"));
    assert_eq!(read("[weekday one_indexed=false]", "0").unwrap().weekday, Some(Weekday::Monday));
    assert_eq!(read("[weekday one_indexed=false]", "7").unwrap_err(), invalid("weekday"));
    assert_eq!(read("[weekday repr=sunday]", "1").unwrap().weekday, Some(Weekday::Sunday));
    assert_eq!(read("[weekday repr=sunday]", "7").unwrap().weekday, Some(Weekday::Saturday));
    assert_eq!(
        read("[weekday repr=sunday one_indexed=false]", "1").unwrap().weekday,
        Some(Weekday::Monday)
    );
    assert_eq!(read("[week_number repr=sunday]", "10").unwrap().sunday_week, Some(10));
    assert_eq!(read("[week_number repr=monday]", "09").unwrap().monday_week, Some(9));
    assert_eq!(read("[day padding=none].[month padding=none].", "7.3.").unwrap().day, Some(7));
    assert_eq!(read("[day padding=space]", " 7").unwrap().day, Some(7));
    assert_eq!(read("[year padding=space]", "-  44").unwrap().year, Some(-44));
    assert_eq!(read("[year padding=none]", "7").unwrap().year, Some(7));
    assert_eq!(read("[year sign=mandatory]", "2021").unwrap_err(), invalid("year"));
    assert_eq!(read("[year sign=mandatory]", "+2021").unwrap().year, Some(2021));
    assert_eq!(read("[year]", "-0000").unwrap().year, Some(0));
    assert_eq!(read("[year]", "2021").unwrap().to_date().unwrap_err(), Error::InsufficientInformation);
    assert_eq!(
        read("[year] [week_number repr=monday] [weekday]", "2024 53 1").unwrap().to_date().unwrap(),
        date(2024, 12, 30)
    );
    assert_eq!(
        read("[year] [week_number repr=sunday] [weekday]", "2024 52 1").unwrap().to_date().unwrap(),
        date(2024, 12, 30)
    );
    let error = range(
        read("[year] [week_number repr=monday] [weekday]", "2021 00 1").unwrap().to_date().unwrap_err(),
    );
    assert_eq!((error.name, error.value), ("ordinal", -3));
    assert_eq!(
        read("[year]-[month]", "2021-03").unwrap().to_date().unwrap_err(),
        Error::InsufficientInformation
    );
    let error = range(read("[year] [ordinal]", "2021 366").unwrap().to_date().unwrap_err());
    assert_eq!((error.name, error.maximum), ("ordinal", 365));
    let error = range(
        read("[year base=iso_week] [week_number] [weekday]", "2021 53 1").unwrap().to_date().unwrap_err(),
    );
    assert_eq!((error.name, error.maximum), ("week", 52));
}

#[test]
fn parses_the_fields_of_a_time() {
    let description = compile(b"[hour]:[minute]:[second].[subsecond]").unwrap();
    assert_eq!(
        Time::parse(b"15:04:05.12", &description).unwrap(),
        Time::from_hms_nano(15, 4, 5, 120_000_000).unwrap()
    );
    assert_eq!(
        Time::parse(b"15:04:05.000000001", &description).unwrap(),
        Time::from_hms_nano(15, 4, 5, 1).unwrap()
    );
    assert_eq!(
        Time::parse(b"15:04:05.0000000012", &description).unwrap_err(),
        Error::UnexpectedTrailingCharacters
    );
    assert_eq!(Time::parse(b"15:04:05.", &description).unwrap_err(), invalid("subsecond"));
    let error = range(Time::parse(b"24:00:00.0", &description).unwrap_err());
    assert_eq!((error.name, error.maximum, error.value), ("hour", 23, 24));
    let error = range(Time::parse(b"23:60:00.0", &description).unwrap_err());
    assert_eq!(error.name, "minute");
    let error = range(Time::parse(b"23:59:60.0", &description).unwrap_err());
    assert_eq!(error.name, "second");
    let twelve = compile(b"[hour repr=12 padding=none][period case=lower]").unwrap();
    assert_eq!(Time::parse(b"3pm", &twelve).unwrap(), Time::from_hms(15, 0, 0).unwrap());
    assert_eq!(Time::parse(b"12am", &twelve).unwrap(), Time::midnight());
    assert_eq!(Time::parse(b"12pm", &twelve).unwrap(), Time::from_hms(12, 0, 0).unwrap());
    assert_eq!(Time::parse(b"11am", &twelve).unwrap(), Time::from_hms(11, 0, 0).unwrap());
    assert_eq!(Time::parse(b"13pm", &twelve).unwrap_err(), invalid("hour"));
    assert_eq!(Time::parse(b"0am", &twelve).unwrap_err(), invalid("hour"));
    assert_eq!(Time::parse(b"3PM", &twelve).unwrap_err(), invalid("period"));
    assert_eq!(Time::parse(b"3p", &twelve).unwrap_err(), invalid("period"));
    assert_eq!(Time::parse(b"3xm", &twelve).unwrap_err(), invalid("period"));
    let upper = compile(b"[hour repr=12] [period]").unwrap();
    assert_eq!(Time::parse(b"03 PM", &upper).unwrap(), Time::from_hms(15, 0, 0).unwrap());
    assert_eq!(Time::parse(b"03 AM", &upper).unwrap(), Time::from_hms(3, 0, 0).unwrap());
    assert_eq!(Time::parse(b"03 pm", &upper).unwrap_err(), invalid("period"));
    let hour_only = compile(b"[hour]").unwrap();
    assert_eq!(Time::parse(b"07", &hour_only).unwrap(), Time::from_hms(7, 0, 0).unwrap());
    let no_hour = compile(b"[minute]").unwrap();
    assert_eq!(Time::parse(b"07", &no_hour).unwrap_err(), Error::InsufficientInformation);
    let half = compile(b"[hour repr=12]").unwrap();
    assert_eq!(Time::parse(b"07", &half).unwrap_err(), Error::InsufficientInformation);
    let fixed = compile(b"[hour][subsecond digits=3]").unwrap();
    assert_eq!(
        Time::parse(b"07120", &fixed).unwrap(),
        Time::from_hms_nano(7, 0, 0, 120_000_000).unwrap()
    );
    assert_eq!(Time::parse(b"0712", &fixed).unwrap_err(), invalid("subsecond"));
}

#[test]
fn parses_the_fields_of_an_offset() {
    let description = compile(b"[offset_hour]:[offset_minute]:[offset_second]").unwrap();
    assert_eq!(
        UtcOffset::parse(b"05:30:15", &description).unwrap(),
        UtcOffset::from_hms(5, 30, 15).unwrap()
    );
    assert_eq!(
        UtcOffset::parse(b"-05:30:15", &description).unwrap(),
        UtcOffset::from_hms(-5, -30, -15).unwrap()
    );
    assert_eq!(
        UtcOffset::parse(b"-00:30:00", &description).unwrap(),
        UtcOffset::from_hms(0, -30, 0).unwrap()
    );
    assert_eq!(
        UtcOffset::parse(b"+00:00:00", &description).unwrap(),
        UtcOffset::utc()
    );
    let error = range(UtcOffset::parse(b"24:00:00", &description).unwrap_err());
    assert_eq!((error.name, error.value), ("hours", 24));
    let error = range(UtcOffset::parse(b"-99:00:00", &description).unwrap_err());
    assert_eq!((error.name, error.value), ("hours", -99));
    let error = range(UtcOffset::parse(b"-23:60:00", &description).unwrap_err());
    assert_eq!((error.name, error.value), ("minutes", -60));
    let minutes_only = compile(b"[offset_minute]").unwrap();
    assert_eq!(UtcOffset::parse(b"30", &minutes_only).unwrap_err(), Error::InsufficientInformation);
    let hours_only = compile(b"[offset_hour sign=mandatory]").unwrap();
    assert_eq!(UtcOffset::parse(b"-08", &hours_only).unwrap(), UtcOffset::from_hms(-8, 0, 0).unwrap());
    assert_eq!(UtcOffset::parse(b"08", &hours_only).unwrap_err(), invalid("offset_hour"));
}

#[test]
fn parses_date_times() {
    let value = OffsetDateTime::parse(b"1999-12-31T23:59:58-05:30", &rfc3339()).unwrap();
    assert_eq!(
        value,
        OffsetDateTime::new(
            PrimitiveDateTime::new(date(1999, 12, 31), Time::from_hms(23, 59, 58).unwrap()),
            UtcOffset::from_hms(-5, -30, 0).unwrap(),
        )
    );
    assert_eq!(value.unix_timestamp(), 946_684_798 + 19_800);
    let local = compile(b"[year]-[month]-[day] [hour]:[minute]").unwrap();
    assert_eq!(
        PrimitiveDateTime::parse(b"2021-03-07 15:04", &local).unwrap(),
        PrimitiveDateTime::new(date(2021, 3, 7), Time::from_hms(15, 4, 0).unwrap())
    );
    assert_eq!(
        OffsetDateTime::parse(b"2021-03-07 15:04", &local).unwrap_err(),
        Error::InsufficientInformation
    );
    assert_eq!(
        PrimitiveDateTime::parse(b"2021-03-07", &iso_date()).unwrap_err(),
        Error::InsufficientInformation
    );
    let error = range(PrimitiveDateTime::parse(b"2021-02-30 15:04", &local).unwrap_err());
    assert_eq!(error.name, "day");
    let error = range(PrimitiveDateTime::parse(b"2021-02-28 25:04", &local).unwrap_err());
    assert_eq!(error.name, "hour");
}

#[test]
fn what_is_written_is_read_back() {
    let descriptions = [
        "[year]-[month]-[day]T[hour]:[minute]:[second].[subsecond digits=9][offset_hour sign=mandatory]:[offset_minute]:[offset_second]",
        "[year padding=space] [ordinal padding=space] [hour repr=12 padding=space] [period] [minute padding=none]:[second padding=none].[subsecond] [offset_hour]:[offset_minute padding=space]:[offset_second padding=none]",
        "[weekday]/[week_number]/[year base=iso_week sign=mandatory] [hour]h[minute]m[second]s[subsecond]ns [offset_hour padding=none]h[offset_minute]m[offset_second]",
    ];
    let dates = [date(2021, 1, 1), date(-9999, 1, 1), date(9999, 12, 31), date(0, 2, 29), date(7, 7, 7)];
    let descriptions = descriptions
        .iter()
        .map(|source| source.to_string())
        .chain([
            "[year]+[week_number repr=sunday]+[weekday repr=sunday one_indexed=false] [hour]:[minute]:[second].[subsecond] [offset_hour]:[offset_minute]:[offset_second]".to_string(),
            "[weekday one_indexed=false][week_number repr=monday padding=none]/[year padding=none] [hour padding=none]:[minute]:[second].[subsecond digits=9][offset_hour sign=mandatory padding=space][offset_minute][offset_second]".to_string(),
        ])
        .collect::<Vec<String>>();
    let times = [
        Time::midnight(),
        Time::from_hms_nano(23, 59, 59, 999_999_999).unwrap(),
        Time::from_hms_nano(12, 0, 0, 500_000_000).unwrap(),
        Time::from_hms_nano(1, 2, 3, 4_000).unwrap(),
    ];
    let offsets = [
        UtcOffset::utc(),
        UtcOffset::from_hms(23, 59, 59).unwrap(),
        UtcOffset::from_hms(-23, -59, -59).unwrap(),
        UtcOffset::from_hms(0, -30, 0).unwrap(),
        UtcOffset::from_hms(0, 0, -1).unwrap(),
    ];
    for source in &descriptions {
        let description = compile(source.as_bytes()).unwrap();
        for day in dates {
            for time in times {
                for offset in offsets {
                    let value = OffsetDateTime::new(PrimitiveDateTime::new(day, time), offset);
                    let text = value.format(&description);
                    assert_eq!(OffsetDateTime::parse(&text, &description).unwrap(), value);
                }
            }
        }
    }
}

#[test]
fn errors_have_messages_and_convert() {
    assert_eq!(
        IntermediateParse::InvalidLiteral.message(),
        "a character literal was not valid"
    );
    assert_eq!(
        IntermediateParse::InvalidComponent("month").message(),
        "the 'month' component could not be parsed"
    );
    assert_eq!(
        Error::from(IntermediateParse::InvalidLiteral),
        Error::IntermediateParse(IntermediateParse::InvalidLiteral)
    );
    let error = Date::from_calendar_date(2021, 2, 29).unwrap_err();
    assert_eq!(Error::from(error), Error::ComponentRange(error));
    let error = compile(b"[").unwrap_err();
    assert_eq!(Error::from(error.clone()), Error::InvalidFormatDescription(error));
    assert_eq!(
        time::error::component_range::ensure_value_in_range("day", 5, 1, 10, false),
        Ok(5)
    );
    assert_eq!(
        time::error::component_range::ensure_value_in_range("day", 11, 1, 10, true),
        Err(ComponentRange { name: "day", minimum: 1, maximum: 10, value: 11, conditional_range: true })
    );
}

#[test]
fn a_description_can_be_given_by_its_source() {
    let parsed = time::parsing::parse_from_source(b"2021-03-07", b"[year]-[month]-[day]").unwrap();
    assert_eq!(parsed.to_date().unwrap(), date(2021, 3, 7));
    assert_eq!(
        time::parsing::parse_from_source(b"2021", b"[yaer]").unwrap_err(),
        Error::InvalidFormatDescription(
            time::format_description::InvalidFormatDescription::InvalidComponentName {
                name: b"yaer".to_vec(),
                index: 1,
            }
        )
    );
    assert_eq!(
        time::parsing::parse_from_source(b"2021", b"[year]!").unwrap_err(),
        Error::IntermediateParse(IntermediateParse::InvalidLiteral)
    );
}
