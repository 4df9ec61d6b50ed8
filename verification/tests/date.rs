use time::date::{Date, MAX_YEAR, MIN_YEAR};
use time::duration::Duration;
use time::util::{days_in_year, days_in_year_month, div_floor, is_leap_year, rem_floor};
use time::weekday::Weekday;

fn ymd(year: i32, month: u8, day: u8) -> Date {
    Date::from_calendar_date(year, month, day).unwrap()
}

#[test]
fn leap_years_follow_the_gregorian_rule() {
    assert!(is_leap_year(2000));
    assert!(is_leap_year(2020));
    assert!(is_leap_year(0));
    assert!(is_leap_year(-4));
    assert!(is_leap_year(-400));
    assert!(!is_leap_year(1900));
    assert!(!is_leap_year(2021));
    assert!(!is_leap_year(-100));
    assert!(!is_leap_year(-1));
    assert_eq!(days_in_year(2020), 366);
    assert_eq!(days_in_year(2021), 365);
}

#[test]
fn february_has_29_days_only_in_leap_years() {
    for year in -420..2500 {
        assert_eq!(days_in_year_month(year, 2) == 29, is_leap_year(year));
    }
    assert_eq!(days_in_year_month(2021, 1), 31);
    assert_eq!(days_in_year_month(2021, 4), 30);
    assert_eq!(days_in_year_month(2021, 12), 31);
}

#[test]
fn floor_division_rounds_down() {
    assert_eq!(div_floor(7, 2), 3);
    assert_eq!(div_floor(-7, 2), -4);
    assert_eq!(div_floor(-8, 2), -4);
    assert_eq!(div_floor(0, 5), 0);
    assert_eq!(rem_floor(7, 2), 1);
    assert_eq!(rem_floor(-7, 2), 1);
    assert_eq!(rem_floor(-8, 2), 0);
    assert_eq!(div_floor(i64::MIN, 1), i64::MIN);
}

#[test]
fn calendar_date_round_trips() {
    let date = ymd(2020, 2, 29);
    assert_eq!(date.to_calendar_date(), (2020, 2, 29));
    assert_eq!(date.year(), 2020);
    assert_eq!(date.month(), 2);
    assert_eq!(date.day(), 29);
    assert_eq!(date.ordinal(), 60);
    assert_eq!(date.weekday(), Weekday::Saturday);
    assert_eq!(date.to_julian_day(), 2_458_909);
}

#[test]
fn every_day_of_four_centuries_round_trips() {
    let mut date = ymd(1600, 1, 1);
    let mut julian = date.to_julian_day();
    let last = ymd(2000, 12, 31);
    let mut weekday = date.weekday();
    loop {
        let (year, month, day) = date.to_calendar_date();
        assert_eq!(ymd(year, month, day), date);
        let (ordinal_year, ordinal) = date.to_ordinal_date();
        assert_eq!(Date::from_ordinal_date(ordinal_year, ordinal).unwrap(), date);
        let (iso_year, iso_week) = date.iso_year_week();
        assert_eq!(Date::from_iso_week_date(iso_year, iso_week, date.weekday()).unwrap(), date);
        assert_eq!(date.to_julian_day(), julian);
        assert_eq!(date.weekday(), weekday);
        assert_eq!(
            Date::from_week_date(year, date.monday_based_week(), weekday, false).unwrap(),
            date
        );
        assert_eq!(
            Date::from_week_date(year, date.sunday_based_week(), weekday, true).unwrap(),
            date
        );
        if date == last {
            break;
        }
        date = date.next_day().unwrap();
        julian += 1;
        weekday = weekday.next();
    }
}

#[test]
fn dates_before_year_one() {
    let date = ymd(0, 12, 31);
    assert_eq!(date.to_julian_day(), 1_721_425);
    assert_eq!(date.next_day().unwrap(), ymd(1, 1, 1));
    assert_eq!(date.weekday(), Weekday::Sunday);
    assert_eq!(ymd(0, 2, 29).ordinal(), 60);
    assert_eq!(ymd(-1, 3, 1).ordinal(), 60);
    assert_eq!(ymd(-9999, 1, 1), Date::min_value());
    assert_eq!(Date::min_value().to_calendar_date(), (-9999, 1, 1));
    assert_eq!(Date::min_value().weekday(), Weekday::Monday);
    assert_eq!(ymd(-4, 2, 29).to_calendar_date(), (-4, 2, 29));
}

#[test]
fn known_day_numbers() {
    assert_eq!(ymd(1, 1, 1).to_julian_day(), 1_721_426);
    assert_eq!(ymd(1970, 1, 1).to_julian_day(), 2_440_588);
    assert_eq!(ymd(2000, 1, 1).to_julian_day(), 2_451_545);
    assert_eq!(ymd(9999, 12, 31).to_julian_day(), 5_373_484);
    assert_eq!(ymd(9999, 12, 31), Date::max_value());
    assert_eq!(Date::from_julian_day(2_451_545).unwrap(), ymd(2000, 1, 1));
    assert_eq!(Date::from_julian_day(0).unwrap().to_calendar_date(), (-4713, 11, 24));
}

#[test]
fn weekdays_of_known_dates() {
    assert_eq!(ymd(1, 1, 1).weekday(), Weekday::Monday);
    assert_eq!(ymd(1970, 1, 1).weekday(), Weekday::Thursday);
    assert_eq!(ymd(2000, 1, 1).weekday(), Weekday::Saturday);
    assert_eq!(ymd(2021, 1, 1).weekday(), Weekday::Friday);
    assert_eq!(ymd(2019, 12, 31).weekday(), Weekday::Tuesday);
    assert_eq!(ymd(9999, 12, 31).weekday(), Weekday::Friday);
}

#[test]
fn iso_weeks_spill_into_the_neighbouring_year() {
    assert_eq!(ymd(2021, 1, 1).iso_year_week(), (2020, 53));
    assert_eq!(ymd(2021, 1, 3).iso_year_week(), (2020, 53));
    assert_eq!(ymd(2021, 1, 4).iso_year_week(), (2021, 1));
    assert_eq!(ymd(2019, 12, 31).iso_year_week(), (2020, 1));
    assert_eq!(ymd(2024, 12, 30).iso_year_week(), (2025, 1));
    assert_eq!(ymd(2000, 1, 1).iso_year_week(), (1999, 52));
    assert_eq!(ymd(2023, 6, 15).iso_year_week(), (2023, 24));
    assert_eq!(ymd(2020, 12, 31).iso_week(), 53);
    assert_eq!(time::date::weeks_in_year(2020), 53);
    assert_eq!(time::date::weeks_in_year(2021), 52);
    assert_eq!(time::date::weeks_in_year(2015), 53);
}

#[test]
fn weeks_counted_from_monday_and_sunday() {
    assert_eq!(ymd(2024, 12, 30).monday_based_week(), 53);
    assert_eq!(ymd(2024, 12, 30).sunday_based_week(), 52);
    assert_eq!(ymd(2021, 1, 3).monday_based_week(), 0);
    assert_eq!(ymd(2021, 1, 3).sunday_based_week(), 1);
    assert_eq!(ymd(2023, 6, 15).monday_based_week(), 24);
    assert_eq!(ymd(1, 1, 1).monday_based_week(), 1);
}

#[test]
fn from_iso_week_date_checks_the_week() {
    assert_eq!(Date::from_iso_week_date(2020, 53, Weekday::Friday).unwrap(), ymd(2021, 1, 1));
    assert_eq!(Date::from_iso_week_date(2020, 1, Weekday::Tuesday).unwrap(), ymd(2019, 12, 31));
    let error = Date::from_iso_week_date(2021, 53, Weekday::Monday).unwrap_err();
    assert_eq!(error.name, "week");
    assert_eq!((error.minimum, error.maximum, error.value), (1, 52, 53));
    assert!(error.conditional_range);
    let error = Date::from_iso_week_date(2021, 0, Weekday::Monday).unwrap_err();
    assert_eq!(error.name, "week");
    let error = Date::from_iso_week_date(10_000, 1, Weekday::Monday).unwrap_err();
    assert_eq!(error.name, "year");
    assert!(Date::from_iso_week_date(9999, 52, Weekday::Friday).is_ok());
    let error = Date::from_iso_week_date(9999, 52, Weekday::Saturday).unwrap_err();
    assert_eq!(error.name, "year");
    assert_eq!(error.value, 10_000);
}

#[test]
fn february_29_needs_a_leap_year() {
    let error = Date::from_calendar_date(2021, 2, 29).unwrap_err();
    assert_eq!(error.name, "day");
    assert!(error.conditional_range);
    assert!(error.is_conditional());
    assert_eq!(error.name(), "day");
    assert_eq!(error.minimum, 1);
    assert_eq!(error.maximum, 28);
    assert_eq!(error.value, 29);
    assert!(Date::from_calendar_date(2020, 2, 29).is_ok());
}

#[test]
fn month_and_year_are_checked_before_the_day() {
    let error = Date::from_calendar_date(2023, 13, 1).unwrap_err();
    assert_eq!(error.name, "month");
    assert_eq!((error.minimum, error.maximum, error.value), (1, 12, 13));
    assert!(!error.conditional_range);
    let error = Date::from_calendar_date(2023, 0, 1).unwrap_err();
    assert_eq!(error.name, "month");
    let error = Date::from_calendar_date(10_000, 13, 40).unwrap_err();
    assert_eq!(error.name, "year");
    assert_eq!((error.minimum, error.maximum, error.value), (-9999, 9999, 10_000));
    assert!(error.conditional_range);
    let error = Date::from_calendar_date(-10_000, 1, 1).unwrap_err();
    assert_eq!(error.name, "year");
    let error = Date::from_calendar_date(2023, 4, 31).unwrap_err();
    assert_eq!((error.name, error.maximum), ("day", 30));
    let error = Date::from_calendar_date(2023, 4, 0).unwrap_err();
    assert_eq!(error.name, "day");
    assert_eq!(MIN_YEAR, -9999);
    assert_eq!(MAX_YEAR, 9999);
}

#[test]
fn ordinal_dates_are_checked() {
    assert_eq!(Date::from_ordinal_date(2020, 366).unwrap(), ymd(2020, 12, 31));
    assert_eq!(Date::from_ordinal_date(2021, 1).unwrap(), ymd(2021, 1, 1));
    assert_eq!(Date::from_ordinal_date(2021, 59).unwrap(), ymd(2021, 2, 28));
    assert_eq!(Date::from_ordinal_date(2021, 60).unwrap(), ymd(2021, 3, 1));
    let error = Date::from_ordinal_date(2021, 366).unwrap_err();
    assert_eq!(error.name, "ordinal");
    assert_eq!((error.minimum, error.maximum, error.value), (1, 365, 366));
    assert!(error.conditional_range);
    assert_eq!(Date::from_ordinal_date(2021, 0).unwrap_err().name, "ordinal");
    assert_eq!(Date::from_ordinal_date(-10_000, 1).unwrap_err().name, "year");
}

#[test]
fn a_day_forward_and_back_is_the_same_day() {
    for (year, month, day) in [(2020, 2, 28), (2020, 12, 31), (1, 1, 1), (-9999, 1, 1), (0, 3, 1)] {
        let date = ymd(year, month, day);
        let next = date.checked_add_days(1).unwrap();
        assert_eq!(next.checked_sub_days(1).unwrap(), date);
        assert_eq!(next.previous_day().unwrap(), date);
        assert_eq!(next.days_since(date), 1);
    }
    assert_eq!(ymd(2020, 2, 28).checked_add_days(1).unwrap(), ymd(2020, 2, 29));
    assert_eq!(ymd(2021, 2, 28).checked_add_days(1).unwrap(), ymd(2021, 3, 1));
    assert_eq!(ymd(2020, 12, 31).next_day().unwrap(), ymd(2021, 1, 1));
}

#[test]
fn a_week_later_is_the_same_weekday() {
    let mut date = ymd(1999, 12, 27);
    for _ in 0..500 {
        let later = date.checked_add_days(7).unwrap();
        assert_eq!(later.weekday(), date.weekday());
        date = date.checked_add_days(5).unwrap();
    }
}

#[test]
fn arithmetic_past_the_supported_years_fails() {
    let last = Date::max_value();
    assert!(last.next_day().is_none());
    let error = last.checked_add_days(1).unwrap_err();
    assert_eq!(error.name, "year");
    assert_eq!((error.minimum, error.maximum, error.value), (-9999, 9999, 10_000));
    let first = Date::min_value();
    assert!(first.previous_day().is_none());
    let error = first.checked_sub_days(1).unwrap_err();
    assert_eq!(error.name, "year");
    assert_eq!(error.value, -10_000);
    let error = ymd(2000, 1, 1).checked_add_days(i64::MAX).unwrap_err();
    assert_eq!(error.name, "year");
    assert!(error.value > 25_000_000_000_000_000);
    let error = ymd(2000, 1, 1).checked_sub_days(i64::MIN).unwrap_err();
    assert_eq!(error.name, "year");
    let error = ymd(2000, 1, 1).checked_add_days(i64::MIN).unwrap_err();
    assert!(error.value < -25_000_000_000_000_000);
    let error = ymd(9999, 1, 1).checked_add(Duration::days(365)).unwrap_err();
    assert_eq!(error.value, 10_000);
    let error = Date::from_julian_day(i64::MAX).unwrap_err();
    assert_eq!(error.name, "year");
    assert_eq!(ymd(2001, 1, 1).checked_add_days(146_097).unwrap(), ymd(2401, 1, 1));
}

#[test]
fn durations_move_dates_by_their_whole_days() {
    let date = ymd(2021, 1, 1);
    assert_eq!(date.checked_add(Duration::days(31)).unwrap(), ymd(2021, 2, 1));
    assert_eq!(date.checked_add(Duration::hours(47)).unwrap(), ymd(2021, 1, 2));
    assert_eq!(date.checked_add(Duration::hours(-47)).unwrap(), ymd(2020, 12, 31));
    assert_eq!(date.checked_sub(Duration::weeks(1)).unwrap(), ymd(2020, 12, 25));
    assert_eq!(date.checked_sub(Duration::seconds(86_399)).unwrap(), date);
    assert_eq!(ymd(2021, 3, 1).duration_since(ymd(2021, 2, 1)), Duration::days(28));
    assert_eq!(ymd(2021, 2, 1).duration_since(ymd(2021, 3, 1)), Duration::days(-28));
    assert_eq!(ymd(2021, 3, 1).days_since(ymd(2020, 3, 1)), 365);
    assert!(ymd(2021, 2, 1).is_before(ymd(2021, 3, 1)));
    assert!(!ymd(2021, 3, 1).is_before(ymd(2021, 3, 1)));
    assert!(ymd(2021, 2, 1) < ymd(2021, 3, 1));
}

#[test]
fn from_week_date_checks_that_the_year_has_the_day() {
    assert_eq!(Date::from_week_date(2024, 53, Weekday::Monday, false).unwrap(), ymd(2024, 12, 30));
    assert_eq!(Date::from_week_date(2024, 52, Weekday::Monday, true).unwrap(), ymd(2024, 12, 30));
    assert_eq!(Date::from_week_date(2021, 0, Weekday::Sunday, false).unwrap(), ymd(2021, 1, 3));
    assert_eq!(Date::from_week_date(2021, 1, Weekday::Sunday, true).unwrap(), ymd(2021, 1, 3));
    assert_eq!(Date::from_week_date(2021, 0, Weekday::Friday, true).unwrap(), ymd(2021, 1, 1));
    let error = Date::from_week_date(2021, 0, Weekday::Monday, false).unwrap_err();
    assert_eq!(error.name, "ordinal");
    assert_eq!((error.minimum, error.maximum, error.value), (1, 365, -3));
    assert!(error.conditional_range);
    let error = Date::from_week_date(2021, 53, Weekday::Monday, false).unwrap_err();
    assert_eq!((error.name, error.value), ("ordinal", 368));
    let error = Date::from_week_date(2021, 255, Weekday::Sunday, true).unwrap_err();
    assert_eq!((error.name, error.value), ("ordinal", 1_781));
    let error = Date::from_week_date(-10_000, 1, Weekday::Monday, false).unwrap_err();
    assert_eq!(error.name, "year");
}
