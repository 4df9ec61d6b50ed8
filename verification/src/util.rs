//! Calendar rules that depend only on a year or a month.

use vstd::prelude::*;

verus! {

/// The Gregorian leap-year rule: every fourth year, except centuries that are
/// not a multiple of 400.
pub open spec fn spec_is_leap_year(year: int) -> bool {
    year % 4 == 0 && (year % 100 != 0 || year % 400 == 0)
}

/// Number of days in a year.
pub open spec fn spec_days_in_year(year: int) -> int {
    if spec_is_leap_year(year) {
        366
    } else {
        365
    }
}

/// Number of days in a month of a year; zero for a month outside 1..=12.
pub open spec fn spec_days_in_year_month(year: int, month: int) -> int {
    if month == 1 || month == 3 || month == 5 || month == 7 || month == 8 || month == 10 || month
        == 12 {
        31
    } else if month == 4 || month == 6 || month == 9 || month == 11 {
        30
    } else if month == 2 {
        if spec_is_leap_year(year) {
            29
        } else {
            28
        }
    } else {
        0
    }
}

/// Days from the first day of year 1 up to, and not including, the first
/// day of `year`; negative for years before year 1.
pub open spec fn spec_days_before_year(year: int) -> int {
    365 * (year - 1) + (year - 1) / 4 - (year - 1) / 100 + (year - 1) / 400
}

/// Days of `year` that lie before the first day of `month`.
pub open spec fn spec_days_before_month(year: int, month: int) -> int
    decreases month,
{
    if month <= 1 {
        0
    } else {
        spec_days_before_month(year, month - 1) + spec_days_in_year_month(year, month - 1)
    }
}

/// Whether `month` and `day` name a day of `year`.
pub open spec fn spec_is_month_day(year: int, month: int, day: int) -> bool {
    1 <= month <= 12 && 1 <= day <= spec_days_in_year_month(year, month)
}

/// Position of a day within its year, counted from 1.
pub open spec fn spec_ordinal(year: int, month: int, day: int) -> int {
    spec_days_before_month(year, month) + day
}

/// The number of a day on the proleptic Gregorian calendar: 1 for the first
/// of January of year 1, and one more for each day after it.
pub open spec fn spec_day_number(year: int, month: int, day: int) -> int {
    spec_days_before_year(year) + spec_ordinal(year, month, day)
}

/// The year in which the day with the given number lies.
pub open spec fn spec_year_of_day(number: int) -> int {
    choose|year: int|
        #[trigger] spec_days_before_year(year) < number <= spec_days_before_year(year + 1)
}

/// The month in which the day at position `ordinal` of `year` lies.
pub open spec fn spec_month_of_ordinal(year: int, ordinal: int) -> int {
    choose|month: int|
        1 <= month <= 12 && #[trigger] spec_days_before_month(year, month) < ordinal
            <= spec_days_before_month(year, month) + spec_days_in_year_month(year, month)
}

/// Quotient of `a` by a positive `b`, rounded towards zero.
pub open spec fn spec_div_trunc(a: int, b: int) -> int {
    if a >= 0 {
        a / b
    } else {
        -((-a) / b)
    }
}

/// Remainder of `a` by a positive `b` that goes with [`spec_div_trunc`]: it
/// has the sign of `a`.
pub open spec fn spec_rem_trunc(a: int, b: int) -> int {
    a - b * spec_div_trunc(a, b)
}

/// Whether the year is a leap year of the proleptic Gregorian calendar.
pub fn is_leap_year(year: i32) -> (leap: bool)
    ensures
        leap == spec_is_leap_year(year as int),
{
    let r4: i32 = year % 4;
    let r100: i32 = year % 100;
    let r400: i32 = year % 400;
    proof {
        lemma_floor_from_trunc(year as int, 4);
        lemma_floor_from_trunc(year as int, 100);
        lemma_floor_from_trunc(year as int, 400);
    }
    r4 == 0 && (r100 != 0 || r400 == 0)
}

/// The number of days in the year: 366 in a leap year, else 365.
pub fn days_in_year(year: i32) -> (days: u16)
    ensures
        days as int == spec_days_in_year(year as int),
{
    if is_leap_year(year) {
        366
    } else {
        365
    }
}

/// The number of days in the month of the year.
pub fn days_in_year_month(year: i32, month: u8) -> (days: u8)
    requires
        1 <= month <= 12,
    ensures
        days as int == spec_days_in_year_month(year as int, month as int),
        28 <= days <= 31,
{
    if month == 2 {
        if is_leap_year(year) {
            29
        } else {
            28
        }
    } else if month == 4 || month == 6 || month == 9 || month == 11 {
        30
    } else {
        31
    }
}

/// Quotient of `a` by a positive `b`, rounded towards negative infinity.
pub fn div_floor(a: i64, b: i64) -> (quotient: i64)
    requires
        b > 0,
    ensures
        quotient as int == a as int / b as int,
{
    let q: i64 = a / b;
    let r: i64 = a % b;
    proof {
        lemma_floor_from_trunc(a as int, b as int);
    }
    if r < 0 {
        q - 1
    } else {
        q
    }
}

/// Remainder of `a` by a positive `b` that goes with [`div_floor`]: it is
/// never negative.
pub fn rem_floor(a: i64, b: i64) -> (remainder: i64)
    requires
        b > 0,
    ensures
        remainder as int == a as int % b as int,
        0 <= remainder < b,
{
    let r: i64 = a % b;
    proof {
        lemma_floor_from_trunc(a as int, b as int);
    }
    if r < 0 {
        r + b
    } else {
        r
    }
}

/// How the quotient rounded down and its remainder follow from the quotient
/// and remainder of the magnitudes, for a negative dividend.
pub proof fn lemma_floor_from_trunc(a: int, b: int)
    requires
        b > 0,
    ensures
        a < 0 && (-a) % b == 0 ==> a / b == -((-a) / b) && a % b == 0,
        a < 0 && (-a) % b != 0 ==> a / b == -((-a) / b) - 1 && a % b == b - (-a) % b,
        a < 0 ==> a / b >= a,
        a >= 0 ==> 0 <= a / b <= a,
        0 <= a % b < b,
{
    vstd::arithmetic::div_mod::lemma_mod_bound(a, b);
    if a < 0 {
        let m = -a;
        let q = m / b;
        let r = m % b;
        vstd::arithmetic::div_mod::lemma_fundamental_div_mod(m, b);
        vstd::arithmetic::div_mod::lemma_mod_bound(m, b);
        assert(0 <= q <= m) by (nonlinear_arith)
            requires
                m == b * q + r,
                0 <= r < b,
                m > 0,
        ;
        if r == 0 {
            assert(a == (-q) * b + 0) by (nonlinear_arith)
                requires
                    m == b * q + r,
                    r == 0,
                    m == -a,
            ;
            vstd::arithmetic::div_mod::lemma_fundamental_div_mod_converse(a, b, -q, 0);
        } else {
            assert(a == (-q - 1) * b + (b - r)) by (nonlinear_arith)
                requires
                    m == b * q + r,
                    m == -a,
            ;
            vstd::arithmetic::div_mod::lemma_fundamental_div_mod_converse(a, b, -q - 1, b - r);
            assert(q < m) by (nonlinear_arith)
                requires
                    m == b * q + r,
                    0 < r < b,
                    q >= 0,
            ;
        }
    } else {
        vstd::arithmetic::div_mod::lemma_fundamental_div_mod(a, b);
        assert(0 <= a / b <= a) by (nonlinear_arith)
            requires
                a == b * (a / b) + a % b,
                0 <= a % b < b,
                a >= 0,
        ;
    }
}

/// A year is as long as the distance between its first day and the first
/// day of the next year, and one day longer than 365 exactly in a leap year.
pub proof fn lemma_year_length(year: int)
    ensures
        spec_days_before_year(year + 1) - spec_days_before_year(year) == spec_days_in_year(year),
        spec_days_in_year(year) == 366 <==> spec_is_leap_year(year),
        spec_days_in_year_month(year, 2) == 29 <==> spec_is_leap_year(year),
        spec_days_before_month(year, 13) == spec_days_in_year(year),
{
    reveal_with_fuel(spec_days_before_month, 14);
}

/// Later years begin later: each year in between adds at least 365 days.
pub proof fn lemma_years_increase(first: int, second: int)
    requires
        first <= second,
    ensures
        spec_days_before_year(first) + 365 * (second - first) <= spec_days_before_year(second),
        spec_days_before_year(second) <= spec_days_before_year(first) + 366 * (second - first),
    decreases second - first,
{
    if first < second {
        lemma_years_increase(first, second - 1);
        lemma_year_length(second - 1);
    }
}

/// Only one year holds a given day.
pub proof fn lemma_year_of_day(number: int, year: int)
    requires
        spec_days_before_year(year) < number <= spec_days_before_year(year + 1),
    ensures
        spec_year_of_day(number) == year,
{
    let other = spec_year_of_day(number);
    if other < year {
        lemma_years_increase(other + 1, year);
    } else if other > year {
        lemma_years_increase(year + 1, other);
    }
}

/// Later months begin later, and every month begins within the year.
pub proof fn lemma_months_increase(year: int, first: int, second: int)
    requires
        1 <= first <= second <= 12,
    ensures
        spec_days_before_month(year, first) + 28 * (second - first) <= spec_days_before_month(
            year,
            second,
        ),
        spec_days_before_month(year, second) + spec_days_in_year_month(year, second)
            <= spec_days_in_year(year),
        first < second ==> spec_days_before_month(year, first) + spec_days_in_year_month(
            year,
            first,
        ) <= spec_days_before_month(year, second),
    decreases second - first,
{
    reveal_with_fuel(spec_days_before_month, 14);
    if first < second {
        lemma_months_increase(year, first, second - 1);
    }
}

/// Only one month of a year holds a given position in the year.
pub proof fn lemma_month_of_ordinal(year: int, ordinal: int, month: int)
    requires
        1 <= month <= 12,
        spec_days_before_month(year, month) < ordinal <= spec_days_before_month(year, month)
            + spec_days_in_year_month(year, month),
    ensures
        spec_month_of_ordinal(year, ordinal) == month,
{
    let other = spec_month_of_ordinal(year, ordinal);
    if other < month {
        lemma_months_increase(year, other, month);
    } else if other > month {
        lemma_months_increase(year, month, other);
    }
}

/// A calendar date is found again from its day number: the number lies in
/// the date's year, at the date's position in it, and that position lies in
/// the date's month.
pub proof fn lemma_day_number_inverse(year: int, month: int, day: int)
    requires
        spec_is_month_day(year, month, day),
    ensures
        spec_year_of_day(spec_day_number(year, month, day)) == year,
        1 <= spec_ordinal(year, month, day) <= spec_days_in_year(year),
        spec_month_of_ordinal(year, spec_ordinal(year, month, day)) == month,
{
    lemma_months_increase(year, 1, month);
    lemma_year_length(year);
    lemma_year_of_day(spec_day_number(year, month, day), year);
    lemma_month_of_ordinal(year, spec_ordinal(year, month, day), month);
}

/// Two calendar dates with the same day number are the same date.
pub proof fn lemma_day_number_injective(
    year: int,
    month: int,
    day: int,
    other_year: int,
    other_month: int,
    other_day: int,
)
    requires
        spec_is_month_day(year, month, day),
        spec_is_month_day(other_year, other_month, other_day),
        spec_day_number(year, month, day) == spec_day_number(other_year, other_month, other_day),
    ensures
        year == other_year,
        month == other_month,
        day == other_day,
{
    lemma_day_number_inverse(year, month, day);
    lemma_day_number_inverse(other_year, other_month, other_day);
}

/// The year that a count of whole 400-year cycles, centuries, four-year
/// spans and years after year 1 leads to, the day on which it begins, and
/// whether it is a leap year.
pub proof fn lemma_year_from_parts(cycles: int, centuries: int, quads: int, years: int)
    requires
        0 <= centuries <= 3,
        0 <= quads <= 24,
        0 <= years <= 3,
    ensures
        spec_days_before_year(400 * cycles + 100 * centuries + 4 * quads + years + 1) == 146_097
            * cycles + 36_524 * centuries + 1_461 * quads + 365 * years,
        spec_is_leap_year(400 * cycles + 100 * centuries + 4 * quads + years + 1) <==> years == 3
            && (quads != 24 || centuries == 3),
{
    let before = 400 * cycles + 100 * centuries + 4 * quads + years;
    vstd::arithmetic::div_mod::lemma_fundamental_div_mod_converse(
        before,
        400,
        cycles,
        100 * centuries + 4 * quads + years,
    );
    vstd::arithmetic::div_mod::lemma_fundamental_div_mod_converse(
        before,
        100,
        4 * cycles + centuries,
        4 * quads + years,
    );
    vstd::arithmetic::div_mod::lemma_fundamental_div_mod_converse(
        before,
        4,
        100 * cycles + 25 * centuries + quads,
        years,
    );
    let year = before + 1;
    if years == 3 {
        vstd::arithmetic::div_mod::lemma_fundamental_div_mod_converse(
            year,
            4,
            100 * cycles + 25 * centuries + quads + 1,
            0,
        );
        if quads == 24 {
            vstd::arithmetic::div_mod::lemma_fundamental_div_mod_converse(
                year,
                100,
                4 * cycles + centuries + 1,
                0,
            );
            if centuries == 3 {
                vstd::arithmetic::div_mod::lemma_fundamental_div_mod_converse(
                    year,
                    400,
                    cycles + 1,
                    0,
                );
            } else {
                vstd::arithmetic::div_mod::lemma_fundamental_div_mod_converse(
                    year,
                    400,
                    cycles,
                    100 * centuries + 100,
                );
            }
        } else {
            vstd::arithmetic::div_mod::lemma_fundamental_div_mod_converse(
                year,
                100,
                4 * cycles + centuries,
                4 * quads + 4,
            );
        }
    } else {
        vstd::arithmetic::div_mod::lemma_fundamental_div_mod_converse(
            year,
            4,
            100 * cycles + 25 * centuries + quads,
            years + 1,
        );
    }
}

} // verus!
