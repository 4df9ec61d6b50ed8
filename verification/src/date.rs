//! Days of the proleptic Gregorian calendar.

use vstd::prelude::*;
use crate::duration::Duration;
use crate::error::component_range::{ensure_value_in_range, ComponentRange};
use crate::util::{
    days_in_year, days_in_year_month, div_floor, is_leap_year, lemma_day_number_inverse,
    lemma_month_of_ordinal, lemma_year_from_parts, lemma_year_length, lemma_year_of_day,
    lemma_years_increase, rem_floor, spec_day_number, spec_days_before_month,
    spec_days_before_year, spec_days_in_year, spec_days_in_year_month, spec_div_trunc,
    spec_is_leap_year, spec_is_month_day, spec_month_of_ordinal, spec_ordinal, spec_year_of_day,
};
use crate::weekday::{spec_weekday_from_index, Weekday};

verus! {

/// The first year that a date can lie in.
pub const MIN_YEAR: i32 = -9999;

/// The last year that a date can lie in.
pub const MAX_YEAR: i32 = 9999;

/// Day number of the first day of [`MIN_YEAR`].
pub const MIN_DAY: i32 = -3_652_424;

/// Day number of the last day of [`MAX_YEAR`].
pub const MAX_DAY: i32 = 3_652_059;

/// What has to be added to a day number to get the Julian day number of the
/// same day.
pub const JULIAN_DAY_OFFSET: i64 = 1_721_425;

/// A day of the proleptic Gregorian calendar between the first day of
/// [`MIN_YEAR`] and the last day of [`MAX_YEAR`], held as its day number.
#[derive(Debug, Clone, Copy, PartialEq, Eq, Hash, PartialOrd, Ord)]
pub struct Date {
    days: i32,
}

/// Day number of the first day that a date can be.
pub open spec fn spec_min_day() -> int {
    spec_days_before_year(MIN_YEAR as int) + 1
}

/// Day number of the last day that a date can be.
pub open spec fn spec_max_day() -> int {
    spec_days_before_year(MAX_YEAR as int + 1)
}

/// The error for a year outside the supported years.
pub open spec fn spec_year_error(year: int) -> ComponentRange {
    ComponentRange {
        name: "year",
        minimum: MIN_YEAR as i64,
        maximum: MAX_YEAR as i64,
        value: year as i64,
        conditional_range: true,
    }
}

/// The date with the given day number, or the error for the year in which
/// that day lies where it is not a supported year.
pub open spec fn spec_checked_date(number: int) -> Result<Date, ComponentRange> {
    if spec_min_day() <= number <= spec_max_day() {
        Ok(Date::spec_from_day_number(number))
    } else {
        Err(spec_year_error(spec_year_of_day(number)))
    }
}

/// What building a date from a year, a month and a day of the month gives:
/// the fields are checked in that order.
pub open spec fn spec_from_calendar_date(year: int, month: int, day: int) -> Result<
    Date,
    ComponentRange,
> {
    if !(MIN_YEAR <= year <= MAX_YEAR) {
        Err(spec_year_error(year))
    } else if !(1 <= month <= 12) {
        Err(
            ComponentRange {
                name: "month",
                minimum: 1,
                maximum: 12,
                value: month as i64,
                conditional_range: false,
            },
        )
    } else if !(1 <= day <= spec_days_in_year_month(year, month)) {
        Err(
            ComponentRange {
                name: "day",
                minimum: 1,
                maximum: spec_days_in_year_month(year, month) as i64,
                value: day as i64,
                conditional_range: true,
            },
        )
    } else {
        Ok(Date::spec_from_day_number(spec_day_number(year, month, day)))
    }
}

/// What building a date from a year and a position in the year gives.
pub open spec fn spec_from_ordinal_date(year: int, ordinal: int) -> Result<Date, ComponentRange> {
    if !(MIN_YEAR <= year <= MAX_YEAR) {
        Err(spec_year_error(year))
    } else if !(1 <= ordinal <= spec_days_in_year(year)) {
        Err(
            ComponentRange {
                name: "ordinal",
                minimum: 1,
                maximum: spec_days_in_year(year) as i64,
                value: ordinal as i64,
                conditional_range: true,
            },
        )
    } else {
        Ok(Date::spec_from_day_number(spec_days_before_year(year) + ordinal))
    }
}

/// Day number of the Monday with which the first ISO week of `year` begins:
/// the week that holds the fourth of January, and so the year's first
/// Thursday.
pub open spec fn spec_iso_year_start(year: int) -> int {
    let fourth = spec_days_before_year(year) + 4;
    fourth - (fourth - 1) % 7
}

/// The ISO week-numbering year of the day with the given number: the
/// calendar year, unless the day lies before that year's first ISO week or
/// in the first ISO week of the next year.
pub open spec fn spec_iso_year_of_day(number: int) -> int {
    let year = spec_year_of_day(number);
    if number < spec_iso_year_start(year) {
        year - 1
    } else if number >= spec_iso_year_start(year + 1) {
        year + 1
    } else {
        year
    }
}

/// The ISO week, counted from 1, of the day with the given number.
pub open spec fn spec_iso_week_of_day(number: int) -> int {
    (number - spec_iso_year_start(spec_iso_year_of_day(number))) / 7 + 1
}

/// Number of ISO weeks in the ISO week-numbering year: 52 or 53.
pub open spec fn spec_weeks_in_year(year: int) -> int {
    (spec_iso_year_start(year + 1) - spec_iso_year_start(year)) / 7
}

/// What building a date from an ISO year, an ISO week and a weekday gives.
pub open spec fn spec_from_iso_week_date(year: int, week: int, weekday: Weekday) -> Result<
    Date,
    ComponentRange,
> {
    if !(MIN_YEAR <= year <= MAX_YEAR) {
        Err(spec_year_error(year))
    } else if !(1 <= week <= spec_weeks_in_year(year)) {
        Err(
            ComponentRange {
                name: "week",
                minimum: 1,
                maximum: spec_weeks_in_year(year) as i64,
                value: week as i64,
                conditional_range: true,
            },
        )
    } else {
        spec_checked_date(spec_iso_year_start(year) + (week - 1) * 7 + weekday.spec_index())
    }
}

/// The number of a weekday within a week that begins on Sunday or on
/// Monday, counted from 0.
pub open spec fn spec_day_of_week(index: int, from_sunday: bool) -> int {
    if from_sunday {
        (index + 1) % 7
    } else {
        index
    }
}

/// Position in the year of the given weekday of the given week of the year,
/// where weeks begin on Sunday or on Monday and the days before the first
/// such day of the year are in week 0. It is no position in the year where
/// the year has no such day.
pub open spec fn spec_week_ordinal(year: int, week: int, weekday: Weekday, from_sunday: bool)
    -> int {
    let first = spec_day_of_week(spec_days_before_year(year) % 7, from_sunday);
    7 * week + spec_day_of_week(weekday.spec_index(), from_sunday) - 6 + (7 - first) % 7
}

/// What building a date from a year, a week of the year and a weekday
/// gives, where weeks begin on Sunday or on Monday.
pub open spec fn spec_from_week_date(year: int, week: int, weekday: Weekday, from_sunday: bool)
    -> Result<Date, ComponentRange> {
    if !(MIN_YEAR <= year <= MAX_YEAR) {
        Err(spec_year_error(year))
    } else {
        spec_from_ordinal_date(year, spec_week_ordinal(year, week, weekday, from_sunday))
    }
}

/// The year and the position in the year of the day with the given number.
fn year_ordinal_of_day(number: i128) -> (found: (i64, u16))
    requires
        -9_300_000_000_000_000_000 <= number <= 9_300_000_000_000_000_000,
    ensures
        found.0 == spec_year_of_day(number as int),
        spec_days_before_year(found.0 as int) < number <= spec_days_before_year(found.0 + 1),
        found.1 == number - spec_days_before_year(found.0 as int),
        1 <= found.1 <= spec_days_in_year(found.0 as int),
{
    let z: i128 = number - 1;
    let mut cycles: i128 = z / 146_097;
    let mut in_cycle: i128 = z - cycles * 146_097;
    if in_cycle < 0 {
        cycles = cycles - 1;
        in_cycle = in_cycle + 146_097;
    }
    let mut centuries: i128 = in_cycle / 36_524;
    if centuries > 3 {
        centuries = 3;
    }
    let in_century: i128 = in_cycle - centuries * 36_524;
    let quads: i128 = in_century / 1_461;
    let in_quad: i128 = in_century - quads * 1_461;
    let mut years: i128 = in_quad / 365;
    if years > 3 {
        years = 3;
    }
    let in_year: i128 = in_quad - years * 365;
    let year: i128 = 400 * cycles + 100 * centuries + 4 * quads + years + 1;
    proof {
        lemma_year_from_parts(cycles as int, centuries as int, quads as int, years as int);
        lemma_year_length(year as int);
        lemma_year_of_day(number as int, year as int);
    }
    (year as i64, (in_year + 1) as u16)
}

/// Day number of the last day before the given year.
fn days_before_year(year: i32) -> (days: i64)
    ensures
        days == spec_days_before_year(year as int),
{
    let previous: i64 = year as i64 - 1;
    365 * previous + div_floor(previous, 4) - div_floor(previous, 100) + div_floor(previous, 400)
}

/// Number of days of the year that lie before the given month.
fn days_before_month(year: i32, month: u8) -> (days: u16)
    requires
        1 <= month <= 12,
    ensures
        days == spec_days_before_month(year as int, month as int),
        days <= 335,
{
    proof {
        reveal_with_fuel(spec_days_before_month, 14);
    }
    let leap: u16 = if month > 2 && is_leap_year(year) {
        1
    } else {
        0
    };
    let common: u16 = if month == 1 {
        0
    } else if month == 2 {
        31
    } else if month == 3 {
        59
    } else if month == 4 {
        90
    } else if month == 5 {
        120
    } else if month == 6 {
        151
    } else if month == 7 {
        181
    } else if month == 8 {
        212
    } else if month == 9 {
        243
    } else if month == 10 {
        273
    } else if month == 11 {
        304
    } else {
        334
    };
    common + leap
}

/// The month and the day of the month at a position in the year.
fn month_day_of_ordinal(year: i32, ordinal: u16) -> (found: (u8, u8))
    requires
        1 <= ordinal <= spec_days_in_year(year as int),
    ensures
        found.0 == spec_month_of_ordinal(year as int, ordinal as int),
        spec_is_month_day(year as int, found.0 as int, found.1 as int),
        spec_ordinal(year as int, found.0 as int, found.1 as int) == ordinal,
{
    let leap: u16 = if is_leap_year(year) {
        1
    } else {
        0
    };
    let month: u8 = if ordinal <= 31 {
        1
    } else if ordinal <= 59 + leap {
        2
    } else if ordinal <= 90 + leap {
        3
    } else if ordinal <= 120 + leap {
        4
    } else if ordinal <= 151 + leap {
        5
    } else if ordinal <= 181 + leap {
        6
    } else if ordinal <= 212 + leap {
        7
    } else if ordinal <= 243 + leap {
        8
    } else if ordinal <= 273 + leap {
        9
    } else if ordinal <= 304 + leap {
        10
    } else if ordinal <= 334 + leap {
        11
    } else {
        12
    };
    let before: u16 = days_before_month(year, month);
    proof {
        reveal_with_fuel(spec_days_before_month, 14);
        lemma_month_of_ordinal(year as int, ordinal as int, month as int);
    }
    (month, (ordinal - before) as u8)
}

/// Day number of the Monday that begins the first ISO week of the year.
fn iso_year_start(year: i32) -> (start: i64)
    ensures
        start == spec_iso_year_start(year as int),
        spec_days_before_year(year as int) - 2 <= start <= spec_days_before_year(year as int) + 4,
{
    let fourth: i64 = days_before_year(year) + 4;
    fourth - rem_floor(fourth - 1, 7)
}

/// The first ISO week of a year begins on a Monday, at most three days
/// before or after the first of January, and the ISO year is 52 or 53 whole
/// weeks long.
pub proof fn lemma_iso_year(year: int)
    ensures
        spec_days_before_year(year) - 2 <= spec_iso_year_start(year) <= spec_days_before_year(year)
            + 4,
        (spec_iso_year_start(year) - 1) % 7 == 0,
        spec_iso_year_start(year + 1) - spec_iso_year_start(year) == 7 * spec_weeks_in_year(year),
        52 <= spec_weeks_in_year(year) <= 53,
{
    lemma_year_length(year);
    let first = spec_iso_year_start(year);
    let second = spec_iso_year_start(year + 1);
    lemma_monday_on_or_before(spec_days_before_year(year) + 4);
    lemma_monday_on_or_before(spec_days_before_year(year + 1) + 4);
    let a = (first - 1) / 7;
    let b = (second - 1) / 7;
    vstd::arithmetic::div_mod::lemma_fundamental_div_mod(first - 1, 7);
    vstd::arithmetic::div_mod::lemma_fundamental_div_mod(second - 1, 7);
    assert(second - first == 7 * (b - a));
    vstd::arithmetic::div_mod::lemma_fundamental_div_mod_converse(second - first, 7, b - a, 0);
}

/// Going back from a day by its distance from Monday arrives on a Monday, at
/// most six days earlier.
proof fn lemma_monday_on_or_before(number: int)
    ensures
        (number - (number - 1) % 7 - 1) % 7 == 0,
        0 <= (number - 1) % 7 <= 6,
{
    let q = (number - 1) / 7;
    vstd::arithmetic::div_mod::lemma_fundamental_div_mod(number - 1, 7);
    vstd::arithmetic::div_mod::lemma_fundamental_div_mod_converse(
        number - (number - 1) % 7 - 1,
        7,
        q,
        0,
    );
}

/// The number of ISO weeks in the ISO week-numbering year: 52 or 53.
pub fn weeks_in_year(year: i32) -> (weeks: u8)
    requires
        year < i32::MAX,
    ensures
        weeks == spec_weeks_in_year(year as int),
        52 <= weeks <= 53,
{
    proof {
        lemma_iso_year(year as int);
    }
    let start: i64 = iso_year_start(year);
    let next: i64 = iso_year_start(year + 1);
    ((next - start) / 7) as u8
}

impl Date {
    /// The day number: 1 for the first of January of year 1.
    pub closed spec fn view(&self) -> int {
        self.days as int
    }

    /// The day lies in a supported year.
    pub open spec fn wf(&self) -> bool {
        spec_min_day() <= self@ <= spec_max_day()
    }

    /// The date with the given day number.
    pub closed spec fn spec_from_day_number(number: int) -> Date {
        Date { days: number as i32 }
    }

    /// The calendar year.
    pub open spec fn spec_year(&self) -> int {
        spec_year_of_day(self@)
    }

    /// Position of the day within its year, counted from 1.
    pub open spec fn spec_ordinal(&self) -> int {
        self@ - spec_days_before_year(self.spec_year())
    }

    /// The month, counted from 1.
    pub open spec fn spec_month(&self) -> int {
        spec_month_of_ordinal(self.spec_year(), self.spec_ordinal())
    }

    /// The day of the month, counted from 1.
    pub open spec fn spec_day(&self) -> int {
        self.spec_ordinal() - spec_days_before_month(self.spec_year(), self.spec_month())
    }

    /// The day of the week.
    pub open spec fn spec_weekday(&self) -> Weekday {
        spec_weekday_from_index(self@ - 1)
    }

    /// The ISO week-numbering year.
    pub open spec fn spec_iso_year(&self) -> int {
        spec_iso_year_of_day(self@)
    }

    /// The ISO week, counted from 1.
    pub open spec fn spec_iso_week(&self) -> int {
        spec_iso_week_of_day(self@)
    }

    /// The week of the calendar year where weeks begin on Monday and the
    /// days before the first Monday are in week 0.
    pub open spec fn spec_monday_based_week(&self) -> int {
        (self.spec_ordinal() + 6 - self.spec_weekday().spec_index()) / 7
    }

    /// The week of the calendar year where weeks begin on Sunday and the
    /// days before the first Sunday are in week 0.
    pub open spec fn spec_sunday_based_week(&self) -> int {
        (self.spec_ordinal() + 6 - (self.spec_weekday().spec_index() + 1) % 7) / 7
    }

    /// The date with a given day number has that day number, where the
    /// number is one of a supported day; and a date is the date with its own
    /// day number.
    pub proof fn lemma_from_day_number(number: int)
        requires
            spec_min_day() <= number <= spec_max_day(),
        ensures
            Date::spec_from_day_number(number)@ == number,
            Date::spec_from_day_number(number).wf(),
    {
    }

    /// Two dates with the same day number are the same date.
    pub proof fn lemma_equal_by_day_number(self, other: Date)
        requires
            self@ == other@,
        ensures
            self == other,
            Date::spec_from_day_number(self@) == self,
    {
    }

    /// The year, the month and the day of a date name a day of the
    /// calendar, and that day is the date.
    pub proof fn lemma_calendar_fields(self)
        requires
            self.wf(),
        ensures
            MIN_YEAR <= self.spec_year() <= MAX_YEAR,
            1 <= self.spec_ordinal() <= spec_days_in_year(self.spec_year()),
            spec_is_month_day(self.spec_year(), self.spec_month(), self.spec_day()),
            spec_day_number(self.spec_year(), self.spec_month(), self.spec_day()) == self@,
    {
        let number = self@;
        lemma_supported_days(number);
        let year = self.spec_year();
        let ordinal = self.spec_ordinal();
        lemma_year_length(year);
        lemma_ordinal_has_month(year, ordinal);
    }

    /// The weeks of a date lie within a year's weeks, and its ISO
    /// week-numbering year is a supported year.
    pub proof fn lemma_week_fields(self)
        requires
            self.wf(),
        ensures
            MIN_YEAR <= self.spec_iso_year() <= MAX_YEAR,
            1 <= self.spec_iso_week() <= 53,
            0 <= self.spec_monday_based_week() <= 53,
            0 <= self.spec_sunday_based_week() <= 53,
            0 <= self.spec_weekday().spec_index() <= 6,
            spec_iso_year_start(self.spec_iso_year()) <= self@ < spec_iso_year_start(
                self.spec_iso_year() + 1,
            ),
    {
        self.lemma_calendar_fields();
        lemma_supported_days(self@);
        let year = self.spec_year();
        lemma_year_length(year);
        lemma_year_length(year - 1);
        lemma_iso_year(year - 1);
        lemma_iso_year(year);
        lemma_iso_year(year + 1);
        let iso_year = self.spec_iso_year();
        let offset = self@ - spec_iso_year_start(iso_year);
        assert(0 <= offset < 7 * spec_weeks_in_year(iso_year));
        assert(spec_iso_year_start(MAX_YEAR as int + 1) > spec_max_day());
        assert(spec_iso_year_start(MIN_YEAR as int) <= spec_min_day());
    }

    /// A date is the day of its weekday in its week of its year, where
    /// weeks begin on Sunday or on Monday.
    pub proof fn lemma_week_date(self, from_sunday: bool)
        requires
            self.wf(),
        ensures
            spec_week_ordinal(
                self.spec_year(),
                if from_sunday {
                    self.spec_sunday_based_week()
                } else {
                    self.spec_monday_based_week()
                },
                self.spec_weekday(),
                from_sunday,
            ) == self.spec_ordinal(),
    {
        self.lemma_calendar_fields();
        let before = spec_days_before_year(self.spec_year());
        let ordinal = self.spec_ordinal();
        let index = self.spec_weekday().spec_index();
        crate::weekday::lemma_weekday_index_inverse(self.spec_weekday(), self@ - 1);
        assert(index == (before + ordinal - 1) % 7);
        let first_index = before % 7;
        let a = (before + ordinal - 1) / 7;
        let b = before / 7;
        vstd::arithmetic::div_mod::lemma_fundamental_div_mod(before + ordinal - 1, 7);
        vstd::arithmetic::div_mod::lemma_fundamental_div_mod(before, 7);
        let number = spec_day_of_week(index, from_sunday);
        let first = spec_day_of_week(first_index, from_sunday);
        let shift = (7 - first) % 7;
        let c: int = if first == 0 {
            1
        } else {
            0
        };
        assert(shift == 7 - first - 7 * c);
        let d: int = if from_sunday && index == 6 {
            1
        } else {
            0
        };
        let e: int = if from_sunday && first_index == 6 {
            1
        } else {
            0
        };
        assert(number == index + (if from_sunday {
            1int
        } else {
            0int
        }) - 7 * d);
        assert(first == first_index + (if from_sunday {
            1int
        } else {
            0int
        }) - 7 * e);
        let k = ordinal + 6 - number;
        let q = a - b + c + d - e;
        assert(k == q * 7 + shift);
        vstd::arithmetic::div_mod::lemma_fundamental_div_mod_converse(k, 7, q, shift);
        if from_sunday {
            assert(self.spec_sunday_based_week() == q);
        } else {
            assert(self.spec_monday_based_week() == q);
        }
    }

    /// The first day that a date can be: the first of January of
    /// [`MIN_YEAR`].
    pub fn min_value() -> (date: Date)
        ensures
            date.wf(),
            date@ == spec_min_day(),
    {
        Date { days: MIN_DAY }
    }

    /// The last day that a date can be: the last of December of
    /// [`MAX_YEAR`].
    pub fn max_value() -> (date: Date)
        ensures
            date.wf(),
            date@ == spec_max_day(),
    {
        Date { days: MAX_DAY }
    }

    /// The date with the given day number.
    pub(crate) fn at_day(number: i32) -> (date: Date)
        requires
            spec_min_day() <= number <= spec_max_day(),
        ensures
            date.wf(),
            date@ == number,
    {
        Date { days: number }
    }

    /// The date with the given day number, where it lies in a supported
    /// year.
    fn from_day_number(number: i128) -> (date: Result<Date, ComponentRange>)
        requires
            -9_300_000_000_000_000_000 <= number <= 9_300_000_000_000_000_000,
        ensures
            date == spec_checked_date(number as int),
            date is Ok ==> date->Ok_0.wf() && date->Ok_0@ == number,
            date is Ok <==> spec_min_day() <= number <= spec_max_day(),
    {
        if number < MIN_DAY as i128 || number > MAX_DAY as i128 {
            let (year, _) = year_ordinal_of_day(number);
            Err(
                ComponentRange {
                    name: "year",
                    minimum: MIN_YEAR as i64,
                    maximum: MAX_YEAR as i64,
                    value: year,
                    conditional_range: true,
                },
            )
        } else {
            Ok(Date { days: number as i32 })
        }
    }

    /// The date of the given year, month and day of the month.
    pub fn from_calendar_date(year: i32, month: u8, day: u8) -> (date: Result<
        Date,
        ComponentRange,
    >)
        ensures
            date == spec_from_calendar_date(year as int, month as int, day as int),
            date is Ok ==> date->Ok_0.wf() && date->Ok_0@ == spec_day_number(
                year as int,
                month as int,
                day as int,
            ),
    {
        match ensure_value_in_range("year", year as i64, MIN_YEAR as i64, MAX_YEAR as i64, true) {
            Err(error) => {
                return Err(error);
            },
            Ok(_) => {},
        }
        match ensure_value_in_range("month", month as i64, 1, 12, false) {
            Err(error) => {
                return Err(error);
            },
            Ok(_) => {},
        }
        let last: u8 = days_in_year_month(year, month);
        match ensure_value_in_range("day", day as i64, 1, last as i64, true) {
            Err(error) => {
                return Err(error);
            },
            Ok(_) => {},
        }
        let number: i64 = days_before_year(year) + days_before_month(year, month) as i64
            + day as i64;
        proof {
            lemma_years_increase(MIN_YEAR as int, year as int);
            lemma_years_increase(year as int + 1, MAX_YEAR as int + 1);
            lemma_day_number_inverse(year as int, month as int, day as int);
            lemma_year_length(year as int);
        }
        Ok(Date { days: number as i32 })
    }

    /// The date at the given position of the given year.
    pub fn from_ordinal_date(year: i32, ordinal: u16) -> (date: Result<Date, ComponentRange>)
        ensures
            date == spec_from_ordinal_date(year as int, ordinal as int),
            date is Ok ==> date->Ok_0.wf() && date->Ok_0@ == spec_days_before_year(year as int)
                + ordinal,
    {
        match ensure_value_in_range("year", year as i64, MIN_YEAR as i64, MAX_YEAR as i64, true) {
            Err(error) => {
                return Err(error);
            },
            Ok(_) => {},
        }
        let last: u16 = days_in_year(year);
        match ensure_value_in_range("ordinal", ordinal as i64, 1, last as i64, true) {
            Err(error) => {
                return Err(error);
            },
            Ok(_) => {},
        }
        let number: i64 = days_before_year(year) + ordinal as i64;
        proof {
            lemma_years_increase(MIN_YEAR as int, year as int);
            lemma_years_increase(year as int + 1, MAX_YEAR as int + 1);
            lemma_year_length(year as int);
        }
        Ok(Date { days: number as i32 })
    }

    /// The date of the given weekday in the given ISO week of the given ISO
    /// week-numbering year. The first and the last ISO week of a year may
    /// reach into the neighbouring calendar years, and so past the
    /// supported years.
    pub fn from_iso_week_date(year: i32, week: u8, weekday: Weekday) -> (date: Result<
        Date,
        ComponentRange,
    >)
        ensures
            date == spec_from_iso_week_date(year as int, week as int, weekday),
            date is Ok ==> date->Ok_0.wf() && date->Ok_0@ == spec_iso_year_start(year as int) + (
            week - 1) * 7 + weekday.spec_index(),
    {
        match ensure_value_in_range("year", year as i64, MIN_YEAR as i64, MAX_YEAR as i64, true) {
            Err(error) => {
                return Err(error);
            },
            Ok(_) => {},
        }
        let last: u8 = weeks_in_year(year);
        match ensure_value_in_range("week", week as i64, 1, last as i64, true) {
            Err(error) => {
                return Err(error);
            },
            Ok(_) => {},
        }
        proof {
            lemma_years_increase(MIN_YEAR as int, year as int);
            lemma_years_increase(year as int, MAX_YEAR as int + 1);
        }
        let number: i64 = iso_year_start(year) + (week as i64 - 1) * 7
            + weekday.number_days_from_monday() as i64;
        Date::from_day_number(number as i128)
    }

    /// The date of the given weekday in the given week of the given year,
    /// where weeks begin on Sunday or on Monday and the days before the
    /// first such day of the year are in week 0. Fails, with the position
    /// in the year that the day would have, where the year has no such day.
    pub fn from_week_date(year: i32, week: u8, weekday: Weekday, from_sunday: bool) -> (date:
        Result<Date, ComponentRange>)
        ensures
            date == spec_from_week_date(year as int, week as int, weekday, from_sunday),
            date is Ok ==> date->Ok_0.wf() && date->Ok_0@ == spec_days_before_year(year as int)
                + spec_week_ordinal(year as int, week as int, weekday, from_sunday),
    {
        match ensure_value_in_range("year", year as i64, MIN_YEAR as i64, MAX_YEAR as i64, true) {
            Err(error) => {
                return Err(error);
            },
            Ok(_) => {},
        }
        let before: i64 = days_before_year(year);
        let first_index: u8 = rem_floor(before, 7) as u8;
        let first: i64 = if from_sunday {
            ((first_index + 1) % 7) as i64
        } else {
            first_index as i64
        };
        let number: i64 = if from_sunday {
            weekday.number_days_from_sunday() as i64
        } else {
            weekday.number_days_from_monday() as i64
        };
        let ordinal: i64 = 7 * week as i64 + number - 6 + (7 - first) % 7;
        let last: u16 = days_in_year(year);
        match ensure_value_in_range("ordinal", ordinal, 1, last as i64, true) {
            Err(error) => {
                return Err(error);
            },
            Ok(_) => {},
        }
        proof {
            lemma_years_increase(MIN_YEAR as int, year as int);
            lemma_years_increase(year as int + 1, MAX_YEAR as int + 1);
            lemma_year_length(year as int);
        }
        Ok(Date { days: (before + ordinal) as i32 })
    }

    /// The date with the given Julian day number.
    pub fn from_julian_day(julian_day: i64) -> (date: Result<Date, ComponentRange>)
        ensures
            date == spec_checked_date(julian_day - JULIAN_DAY_OFFSET),
            date is Ok ==> date->Ok_0.wf() && date->Ok_0@ == julian_day - JULIAN_DAY_OFFSET,
    {
        Date::from_day_number(julian_day as i128 - JULIAN_DAY_OFFSET as i128)
    }

    /// The Julian day number of the date.
    pub fn to_julian_day(self) -> (julian_day: i64)
        requires
            self.wf(),
        ensures
            julian_day == self@ + JULIAN_DAY_OFFSET,
    {
        self.days as i64 + JULIAN_DAY_OFFSET
    }

    /// The year and the position of the day in it.
    pub fn to_ordinal_date(self) -> (found: (i32, u16))
        requires
            self.wf(),
        ensures
            found.0 == self.spec_year(),
            found.1 == self.spec_ordinal(),
            MIN_YEAR <= found.0 <= MAX_YEAR,
            1 <= found.1 <= spec_days_in_year(found.0 as int),
            spec_days_before_year(found.0 as int) + found.1 == self@,
    {
        proof {
            lemma_supported_days(self@);
        }
        let (year, ordinal) = year_ordinal_of_day(self.days as i128);
        (year as i32, ordinal)
    }

    /// The year, the month and the day of the month.
    pub fn to_calendar_date(self) -> (found: (i32, u8, u8))
        requires
            self.wf(),
        ensures
            found.0 == self.spec_year(),
            found.1 == self.spec_month(),
            found.2 == self.spec_day(),
            MIN_YEAR <= found.0 <= MAX_YEAR,
            spec_is_month_day(found.0 as int, found.1 as int, found.2 as int),
            spec_day_number(found.0 as int, found.1 as int, found.2 as int) == self@,
    {
        let (year, ordinal) = self.to_ordinal_date();
        let (month, day) = month_day_of_ordinal(year, ordinal);
        (year, month, day)
    }

    /// The calendar year.
    pub fn year(self) -> (year: i32)
        requires
            self.wf(),
        ensures
            year == self.spec_year(),
            MIN_YEAR <= year <= MAX_YEAR,
    {
        self.to_ordinal_date().0
    }

    /// The month, counted from 1.
    pub fn month(self) -> (month: u8)
        requires
            self.wf(),
        ensures
            month == self.spec_month(),
            1 <= month <= 12,
    {
        self.to_calendar_date().1
    }

    /// The day of the month, counted from 1.
    pub fn day(self) -> (day: u8)
        requires
            self.wf(),
        ensures
            day == self.spec_day(),
            1 <= day <= spec_days_in_year_month(self.spec_year(), self.spec_month()),
    {
        self.to_calendar_date().2
    }

    /// Position of the day within its year, counted from 1.
    pub fn ordinal(self) -> (ordinal: u16)
        requires
            self.wf(),
        ensures
            ordinal == self.spec_ordinal(),
            1 <= ordinal <= spec_days_in_year(self.spec_year()),
    {
        self.to_ordinal_date().1
    }

    /// The day of the week.
    pub fn weekday(self) -> (weekday: Weekday)
        requires
            self.wf(),
        ensures
            weekday == self.spec_weekday(),
    {
        let index: i64 = rem_floor(self.days as i64 - 1, 7);
        Weekday::from_number_days_from_monday(index as u8)
    }

    /// The ISO week-numbering year and the ISO week of the day. The year
    /// differs from the calendar year for the first days of January that
    /// belong to the last week of the year before, and for the last days of
    /// December that belong to the first week of the year after.
    pub fn iso_year_week(self) -> (found: (i32, u8))
        requires
            self.wf(),
        ensures
            found.0 == self.spec_iso_year(),
            found.1 == self.spec_iso_week(),
            1 <= found.1 <= spec_weeks_in_year(found.0 as int),
            spec_iso_year_start(found.0 as int) <= self@ < spec_iso_year_start(found.0 + 1),
    {
        let (year, _) = self.to_ordinal_date();
        let number: i64 = self.days as i64;
        proof {
            lemma_year_length(year as int);
            lemma_year_length(year as int - 1);
            lemma_iso_year(year as int - 1);
            lemma_iso_year(year as int);
            lemma_iso_year(year as int + 1);
        }
        let start: i64 = iso_year_start(year);
        let iso_year: i32 = if number < start {
            year - 1
        } else if number >= iso_year_start(year + 1) {
            year + 1
        } else {
            year
        };
        let iso_start: i64 = iso_year_start(iso_year);
        let week: i64 = (number - iso_start) / 7 + 1;
        proof {
            let weeks = spec_weeks_in_year(iso_year as int);
            let offset = number - iso_start;
            assert(0 <= offset < 7 * weeks);
            vstd::arithmetic::div_mod::lemma_fundamental_div_mod(offset, 7);
        }
        (iso_year, week as u8)
    }

    /// The ISO week of the day, counted from 1.
    pub fn iso_week(self) -> (week: u8)
        requires
            self.wf(),
        ensures
            week == self.spec_iso_week(),
            1 <= week <= 53,
    {
        self.iso_year_week().1
    }

    /// The week of the calendar year, where weeks begin on Monday and the
    /// days before the year's first Monday are in week 0.
    pub fn monday_based_week(self) -> (week: u8)
        requires
            self.wf(),
        ensures
            week == self.spec_monday_based_week(),
            week <= 53,
    {
        let ordinal: u16 = self.ordinal();
        let weekday: u8 = self.weekday().number_days_from_monday();
        ((ordinal + 6 - weekday as u16) / 7) as u8
    }

    /// The week of the calendar year, where weeks begin on Sunday and the
    /// days before the year's first Sunday are in week 0.
    pub fn sunday_based_week(self) -> (week: u8)
        requires
            self.wf(),
        ensures
            week == self.spec_sunday_based_week(),
            week <= 53,
    {
        let ordinal: u16 = self.ordinal();
        let weekday: u8 = self.weekday().number_days_from_sunday();
        ((ordinal + 6 - weekday as u16) / 7) as u8
    }

    /// The date `days` days later, or earlier for a negative count. Fails
    /// where that day lies outside the supported years, with the year in
    /// which it lies.
    pub fn checked_add_days(self, days: i64) -> (date: Result<Date, ComponentRange>)
        requires
            self.wf(),
        ensures
            date == spec_checked_date(self@ + days),
            date is Ok ==> date->Ok_0.wf() && date->Ok_0@ == self@ + days,
            date is Ok <==> spec_min_day() <= self@ + days <= spec_max_day(),
    {
        Date::from_day_number(self.days as i128 + days as i128)
    }

    /// The date `days` days earlier, or later for a negative count. Fails
    /// where that day lies outside the supported years, with the year in
    /// which it lies.
    pub fn checked_sub_days(self, days: i64) -> (date: Result<Date, ComponentRange>)
        requires
            self.wf(),
        ensures
            date == spec_checked_date(self@ - days),
            date is Ok ==> date->Ok_0.wf() && date->Ok_0@ == self@ - days,
            date is Ok <==> spec_min_day() <= self@ - days <= spec_max_day(),
    {
        Date::from_day_number(self.days as i128 - days as i128)
    }

    /// The date moved by the whole days of the span; what the span holds
    /// beyond whole days is dropped.
    pub fn checked_add(self, duration: Duration) -> (date: Result<Date, ComponentRange>)
        requires
            self.wf(),
            duration.wf(),
        ensures
            date == spec_checked_date(self@ + spec_div_trunc(duration@, 86_400_000_000_000)),
            date is Ok ==> date->Ok_0.wf() && date->Ok_0@ == self@ + spec_div_trunc(
                duration@,
                86_400_000_000_000,
            ),
    {
        self.checked_add_days(duration.whole_days())
    }

    /// The date moved back by the whole days of the span; what the span
    /// holds beyond whole days is dropped.
    pub fn checked_sub(self, duration: Duration) -> (date: Result<Date, ComponentRange>)
        requires
            self.wf(),
            duration.wf(),
        ensures
            date == spec_checked_date(self@ - spec_div_trunc(duration@, 86_400_000_000_000)),
            date is Ok ==> date->Ok_0.wf() && date->Ok_0@ == self@ - spec_div_trunc(
                duration@,
                86_400_000_000_000,
            ),
    {
        self.checked_sub_days(duration.whole_days())
    }

    /// The day after, or `None` after the last supported day.
    pub fn next_day(self) -> (date: Option<Date>)
        requires
            self.wf(),
        ensures
            date is Some <==> self@ < spec_max_day(),
            date is Some ==> date->0.wf() && date->0@ == self@ + 1,
    {
        if self.days >= MAX_DAY {
            None
        } else {
            Some(Date { days: self.days + 1 })
        }
    }

    /// The day before, or `None` before the first supported day.
    pub fn previous_day(self) -> (date: Option<Date>)
        requires
            self.wf(),
        ensures
            date is Some <==> self@ > spec_min_day(),
            date is Some ==> date->0.wf() && date->0@ == self@ - 1,
    {
        if self.days <= MIN_DAY {
            None
        } else {
            Some(Date { days: self.days - 1 })
        }
    }

    /// Number of days from `earlier` to this date; negative where this date
    /// is the earlier one.
    pub fn days_since(self, earlier: Date) -> (days: i64)
        requires
            self.wf(),
            earlier.wf(),
        ensures
            days == self@ - earlier@,
    {
        self.days as i64 - earlier.days as i64
    }

    /// The span from `earlier` to this date.
    pub fn duration_since(self, earlier: Date) -> (span: Duration)
        requires
            self.wf(),
            earlier.wf(),
        ensures
            span.wf(),
            span@ == (self@ - earlier@) * 86_400_000_000_000,
    {
        Duration::days(self.days_since(earlier))
    }

    /// Whether this date comes before the other.
    pub fn is_before(self, other: Date) -> (before: bool)
        ensures
            before == (self@ < other@),
    {
        self.days < other.days
    }
}

/// The supported days by their numbers, and the years they lie in.
pub proof fn lemma_supported_days(number: int)
    requires
        spec_min_day() <= number <= spec_max_day(),
    ensures
        spec_min_day() == MIN_DAY,
        spec_max_day() == MAX_DAY,
        MIN_YEAR <= spec_year_of_day(number) <= MAX_YEAR,
        spec_days_before_year(spec_year_of_day(number)) < number <= spec_days_before_year(
            spec_year_of_day(number) + 1,
        ),
{
    lemma_year_exists(number);
    let year = spec_year_of_day(number);
    if year < MIN_YEAR {
        lemma_years_increase(year + 1, MIN_YEAR as int);
    } else if year > MAX_YEAR {
        lemma_years_increase(MAX_YEAR as int + 1, year);
    }
}

/// A day is a date exactly where it lies in a supported year: moving a date
/// to a day of any other year fails.
pub proof fn lemma_dates_are_the_days_of_supported_years(number: int)
    ensures
        spec_checked_date(number) is Ok <==> MIN_YEAR <= spec_year_of_day(number) <= MAX_YEAR,
        spec_checked_date(number) is Err ==> spec_checked_date(number)->Err_0 == spec_year_error(
            spec_year_of_day(number),
        ),
{
    lemma_year_exists(number);
    let year = spec_year_of_day(number);
    if MIN_YEAR <= year <= MAX_YEAR {
        lemma_years_increase(MIN_YEAR as int, year);
        lemma_years_increase(year + 1, MAX_YEAR as int + 1);
    } else if spec_min_day() <= number <= spec_max_day() {
        lemma_supported_days(number);
    }
}

/// Every day lies in some year.
pub proof fn lemma_year_exists(number: int)
    ensures
        spec_days_before_year(spec_year_of_day(number)) < number <= spec_days_before_year(
            spec_year_of_day(number) + 1,
        ),
{
    let z = number - 1;
    let cycles = z / 146_097;
    let in_cycle = z % 146_097;
    vstd::arithmetic::div_mod::lemma_fundamental_div_mod(z, 146_097);
    let centuries = if in_cycle / 36_524 > 3 {
        3
    } else {
        in_cycle / 36_524
    };
    let in_century = in_cycle - centuries * 36_524;
    let quads = in_century / 1_461;
    let in_quad = in_century - quads * 1_461;
    let years = if in_quad / 365 > 3 {
        3
    } else {
        in_quad / 365
    };
    let year = 400 * cycles + 100 * centuries + 4 * quads + years + 1;
    lemma_year_from_parts(cycles, centuries, quads, years);
    lemma_year_length(year);
    assert(spec_days_before_year(year) < number <= spec_days_before_year(year + 1));
}

/// Every position in a year lies in one of its months.
pub proof fn lemma_ordinal_has_month(year: int, ordinal: int)
    requires
        1 <= ordinal <= spec_days_in_year(year),
    ensures
        1 <= spec_month_of_ordinal(year, ordinal) <= 12,
        spec_days_before_month(year, spec_month_of_ordinal(year, ordinal)) < ordinal
            <= spec_days_before_month(year, spec_month_of_ordinal(year, ordinal))
            + spec_days_in_year_month(year, spec_month_of_ordinal(year, ordinal)),
{
    reveal_with_fuel(spec_days_before_month, 14);
    let leap: int = if spec_is_leap_year(year) {
        1
    } else {
        0
    };
    let month: int = if ordinal <= 31 {
        1
    } else if ordinal <= 59 + leap {
        2
    } else if ordinal <= 90 + leap {
        3
    } else if ordinal <= 120 + leap {
        4
    } else if ordinal <= 151 + leap {
        5
    } else if ordinal <= 181 + leap {
        6
    } else if ordinal <= 212 + leap {
        7
    } else if ordinal <= 243 + leap {
        8
    } else if ordinal <= 273 + leap {
        9
    } else if ordinal <= 304 + leap {
        10
    } else if ordinal <= 334 + leap {
        11
    } else {
        12
    };
    lemma_month_of_ordinal(year, ordinal, month);
}

/// A date built from a year, a month and a day of the month gives back that
/// year, month and day.
pub proof fn lemma_calendar_round_trip(year: int, month: int, day: int)
    requires
        MIN_YEAR <= year <= MAX_YEAR,
        spec_is_month_day(year, month, day),
    ensures
        spec_from_calendar_date(year, month, day) is Ok,
        spec_from_calendar_date(year, month, day)->Ok_0.wf(),
        spec_from_calendar_date(year, month, day)->Ok_0@ == spec_day_number(year, month, day),
        spec_from_calendar_date(year, month, day)->Ok_0.spec_year() == year,
        spec_from_calendar_date(year, month, day)->Ok_0.spec_month() == month,
        spec_from_calendar_date(year, month, day)->Ok_0.spec_day() == day,
{
    lemma_years_increase(MIN_YEAR as int, year);
    lemma_years_increase(year + 1, MAX_YEAR as int + 1);
    lemma_day_number_inverse(year, month, day);
    lemma_year_length(year);
    Date::lemma_from_day_number(spec_day_number(year, month, day));
}

/// A date is built again from its own year, month and day of the month.
pub proof fn lemma_date_from_own_fields(date: Date)
    requires
        date.wf(),
    ensures
        spec_from_calendar_date(date.spec_year(), date.spec_month(), date.spec_day()) == Ok::<
            Date,
            ComponentRange,
        >(date),
{
    date.lemma_calendar_fields();
    date.lemma_equal_by_day_number(date);
}

/// The day after a date, and then the day before that, is the date again;
/// and a week later the weekday is the same.
pub proof fn lemma_day_steps(date: Date)
    requires
        date.wf(),
    ensures
        date@ < spec_max_day() ==> spec_checked_date(date@ + 1) is Ok && spec_checked_date(
            spec_checked_date(date@ + 1)->Ok_0@ - 1,
        ) == Ok::<Date, ComponentRange>(date),
        date@ + 7 <= spec_max_day() ==> spec_checked_date(date@ + 7) is Ok && spec_checked_date(
            date@ + 7,
        )->Ok_0.spec_weekday() == date.spec_weekday(),
{
    date.lemma_equal_by_day_number(date);
    if date@ < spec_max_day() {
        Date::lemma_from_day_number(date@ + 1);
    }
    if date@ + 7 <= spec_max_day() {
        Date::lemma_from_day_number(date@ + 7);
    }
}

} // verus!
