//! Times of day with nanosecond resolution.

use vstd::prelude::*;
use crate::duration::Duration;
use crate::error::component_range::{ensure_value_in_range, ComponentRange};

verus! {

/// Nanoseconds in a day.
pub const NANOS_PER_DAY: i64 = 86_400_000_000_000;

/// Nanoseconds in an hour.
pub const NANOS_PER_HOUR: i64 = 3_600_000_000_000;

/// Nanoseconds in a minute.
pub const NANOS_PER_MINUTE: i64 = 60_000_000_000;

/// The clock time within a day, to the nanosecond.
#[derive(Debug, Clone, Copy, PartialEq, Eq, Hash, PartialOrd, Ord)]
pub struct Time {
    hour: u8,
    minute: u8,
    second: u8,
    nanosecond: u32,
}

/// The error for a field of a time that lies above its largest value; the
/// smallest value of each field is zero.
pub open spec fn spec_clock_error(name: &'static str, maximum: int, value: int) -> ComponentRange {
    ComponentRange {
        name,
        minimum: 0,
        maximum: maximum as i64,
        value: value as i64,
        conditional_range: false,
    }
}

/// What building a time from an hour, a minute, a second and a fraction of
/// a second gives. The fraction counts units of `unit` nanoseconds and has
/// to stay below one second; `name` is what it is called in the error. The
/// fields are checked in the order hour, minute, second, fraction.
pub open spec fn spec_from_hms_fraction(
    hour: int,
    minute: int,
    second: int,
    fraction: int,
    name: &'static str,
    unit: int,
) -> Result<Time, ComponentRange> {
    if hour > 23 {
        Err(spec_clock_error("hour", 23, hour))
    } else if minute > 59 {
        Err(spec_clock_error("minute", 59, minute))
    } else if second > 59 {
        Err(spec_clock_error("second", 59, second))
    } else if fraction * unit > 999_999_999 {
        Err(spec_clock_error(name, 1_000_000_000int / unit - 1, fraction))
    } else {
        Ok(
            Time::spec_from_nanoseconds(
                hour * 3_600_000_000_000 + minute * 60_000_000_000 + second * 1_000_000_000
                    + fraction * unit,
            ),
        )
    }
}

impl Time {
    /// Nanoseconds since midnight.
    pub closed spec fn view(&self) -> int {
        self.hour * 3_600_000_000_000 + self.minute * 60_000_000_000 + self.second * 1_000_000_000
            + self.nanosecond
    }

    /// Every field lies within its bounds.
    pub closed spec fn wf(&self) -> bool {
        &&& self.hour <= 23
        &&& self.minute <= 59
        &&& self.second <= 59
        &&& self.nanosecond <= 999_999_999
    }

    /// The time that lies the given count of nanoseconds after midnight.
    pub closed spec fn spec_from_nanoseconds(nanoseconds: int) -> Time {
        Time {
            hour: (nanoseconds / 3_600_000_000_000) as u8,
            minute: (nanoseconds / 60_000_000_000 % 60) as u8,
            second: (nanoseconds / 1_000_000_000 % 60) as u8,
            nanosecond: (nanoseconds % 1_000_000_000) as u32,
        }
    }

    /// The hour of the day.
    pub open spec fn spec_hour(&self) -> int {
        self@ / 3_600_000_000_000
    }

    /// The minute of the hour.
    pub open spec fn spec_minute(&self) -> int {
        self@ / 60_000_000_000 % 60
    }

    /// The second of the minute.
    pub open spec fn spec_second(&self) -> int {
        self@ / 1_000_000_000 % 60
    }

    /// The nanosecond of the second.
    pub open spec fn spec_nanosecond(&self) -> int {
        self@ % 1_000_000_000
    }

    /// A time lies within one day, its fields within their bounds, and it
    /// is the time of its own count of nanoseconds.
    pub proof fn lemma_fields(self)
        requires
            self.wf(),
        ensures
            0 <= self@ < 86_400_000_000_000,
            0 <= self.spec_hour() <= 23,
            0 <= self.spec_minute() <= 59,
            0 <= self.spec_second() <= 59,
            0 <= self.spec_nanosecond() <= 999_999_999,
            self@ == self.spec_hour() * 3_600_000_000_000 + self.spec_minute() * 60_000_000_000
                + self.spec_second() * 1_000_000_000 + self.spec_nanosecond(),
            Time::spec_from_nanoseconds(self@) == self,
    {
        self.lemma_stored_fields();
    }

    /// Each stored field is the field that the count of nanoseconds since
    /// midnight gives.
    proof fn lemma_stored_fields(self)
        requires
            self.wf(),
        ensures
            0 <= self@ < 86_400_000_000_000,
            self.hour == self.spec_hour(),
            self.minute == self.spec_minute(),
            self.second == self.spec_second(),
            self.nanosecond == self.spec_nanosecond(),
            Time::spec_from_nanoseconds(self@) == self,
    {
        let n = self@;
        let h = self.hour as int;
        let m = self.minute as int;
        let s = self.second as int;
        let f = self.nanosecond as int;
        vstd::arithmetic::div_mod::lemma_fundamental_div_mod_converse(
            n,
            3_600_000_000_000,
            h,
            m * 60_000_000_000 + s * 1_000_000_000 + f,
        );
        vstd::arithmetic::div_mod::lemma_fundamental_div_mod_converse(
            n,
            60_000_000_000,
            h * 60 + m,
            s * 1_000_000_000 + f,
        );
        vstd::arithmetic::div_mod::lemma_fundamental_div_mod_converse(
            n,
            1_000_000_000,
            h * 3_600 + m * 60 + s,
            f,
        );
        vstd::arithmetic::div_mod::lemma_fundamental_div_mod_converse(h * 60 + m, 60, h, m);
        vstd::arithmetic::div_mod::lemma_fundamental_div_mod_converse(
            h * 3_600 + m * 60 + s,
            60,
            h * 60 + m,
            s,
        );
    }

    /// The time of a count of nanoseconds within one day lies that count
    /// after midnight.
    pub proof fn lemma_from_nanoseconds(nanoseconds: int)
        requires
            0 <= nanoseconds < 86_400_000_000_000,
        ensures
            Time::spec_from_nanoseconds(nanoseconds).wf(),
            Time::spec_from_nanoseconds(nanoseconds)@ == nanoseconds,
    {
        let n = nanoseconds;
        let seconds = n / 1_000_000_000;
        let minutes = n / 60_000_000_000;
        let hours = n / 3_600_000_000_000;
        vstd::arithmetic::div_mod::lemma_fundamental_div_mod(n, 1_000_000_000);
        vstd::arithmetic::div_mod::lemma_fundamental_div_mod(seconds, 60);
        vstd::arithmetic::div_mod::lemma_fundamental_div_mod(seconds / 60, 60);
        vstd::arithmetic::div_mod::lemma_fundamental_div_mod_converse(
            n,
            60_000_000_000,
            seconds / 60,
            (seconds % 60) * 1_000_000_000 + n % 1_000_000_000,
        );
        vstd::arithmetic::div_mod::lemma_fundamental_div_mod_converse(
            n,
            3_600_000_000_000,
            seconds / 60 / 60,
            (seconds / 60 % 60) * 60_000_000_000 + (seconds % 60) * 1_000_000_000 + n
                % 1_000_000_000,
        );
    }

    /// Two well-formed times the same count of nanoseconds after midnight
    /// are the same time.
    pub proof fn lemma_equal_by_nanoseconds(self, other: Time)
        requires
            self.wf(),
            other.wf(),
            self@ == other@,
        ensures
            self == other,
    {
        self.lemma_stored_fields();
        other.lemma_stored_fields();
    }

    /// The time a count of nanoseconds after midnight.
    fn from_nanoseconds_of_day(nanoseconds: u64) -> (time: Time)
        requires
            nanoseconds < 86_400_000_000_000,
        ensures
            time.wf(),
            time@ == nanoseconds,
            time == Time::spec_from_nanoseconds(nanoseconds as int),
    {
        proof {
            Time::lemma_from_nanoseconds(nanoseconds as int);
        }
        let seconds: u64 = nanoseconds / 1_000_000_000;
        let minutes: u64 = nanoseconds / 60_000_000_000;
        Time {
            hour: (nanoseconds / 3_600_000_000_000) as u8,
            minute: (minutes % 60) as u8,
            second: (seconds % 60) as u8,
            nanosecond: (nanoseconds % 1_000_000_000) as u32,
        }
    }

    /// Nanoseconds since midnight.
    pub fn nanoseconds_since_midnight(self) -> (nanoseconds: u64)
        requires
            self.wf(),
        ensures
            nanoseconds == self@,
            nanoseconds < 86_400_000_000_000,
    {
        self.hour as u64 * 3_600_000_000_000 + self.minute as u64 * 60_000_000_000
            + self.second as u64 * 1_000_000_000 + self.nanosecond as u64
    }

    /// The start of the day.
    pub fn midnight() -> (time: Time)
        ensures
            time.wf(),
            time@ == 0,
    {
        Time { hour: 0, minute: 0, second: 0, nanosecond: 0 }
    }

    /// The time from its four fields, each checked against its bounds.
    pub fn from_hms_nano(hour: u8, minute: u8, second: u8, nanosecond: u32) -> (time: Result<
        Time,
        ComponentRange,
    >)
        ensures
            time == spec_from_hms_fraction(
                hour as int,
                minute as int,
                second as int,
                nanosecond as int,
                "nanosecond",
                1,
            ),
            time is Ok ==> time->Ok_0.wf() && time->Ok_0@ == hour * 3_600_000_000_000 + minute
                * 60_000_000_000 + second * 1_000_000_000 + nanosecond,
    {
        match ensure_value_in_range("hour", hour as i64, 0, 23, false) {
            Err(error) => {
                return Err(error);
            },
            Ok(_) => {},
        }
        match ensure_value_in_range("minute", minute as i64, 0, 59, false) {
            Err(error) => {
                return Err(error);
            },
            Ok(_) => {},
        }
        match ensure_value_in_range("second", second as i64, 0, 59, false) {
            Err(error) => {
                return Err(error);
            },
            Ok(_) => {},
        }
        match ensure_value_in_range("nanosecond", nanosecond as i64, 0, 999_999_999, false) {
            Err(error) => {
                return Err(error);
            },
            Ok(_) => {},
        }
        let time = Time { hour, minute, second, nanosecond };
        proof {
            time.lemma_stored_fields();
        }
        Ok(time)
    }

    /// The time from an hour, a minute, a second and a microsecond of the
    /// second.
    pub fn from_hms_micro(hour: u8, minute: u8, second: u8, microsecond: u32) -> (time: Result<
        Time,
        ComponentRange,
    >)
        ensures
            time == spec_from_hms_fraction(
                hour as int,
                minute as int,
                second as int,
                microsecond as int,
                "microsecond",
                1_000,
            ),
            time is Ok ==> time->Ok_0.wf() && time->Ok_0@ == hour * 3_600_000_000_000 + minute
                * 60_000_000_000 + second * 1_000_000_000 + microsecond * 1_000,
    {
        match ensure_value_in_range("hour", hour as i64, 0, 23, false) {
            Err(error) => {
                return Err(error);
            },
            Ok(_) => {},
        }
        match ensure_value_in_range("minute", minute as i64, 0, 59, false) {
            Err(error) => {
                return Err(error);
            },
            Ok(_) => {},
        }
        match ensure_value_in_range("second", second as i64, 0, 59, false) {
            Err(error) => {
                return Err(error);
            },
            Ok(_) => {},
        }
        match ensure_value_in_range("microsecond", microsecond as i64, 0, 999_999, false) {
            Err(error) => {
                return Err(error);
            },
            Ok(_) => {},
        }
        let time = Time { hour, minute, second, nanosecond: microsecond * 1_000 };
        proof {
            time.lemma_stored_fields();
        }
        Ok(time)
    }

    /// The time from an hour, a minute, a second and a millisecond of the
    /// second.
    pub fn from_hms_milli(hour: u8, minute: u8, second: u8, millisecond: u16) -> (time: Result<
        Time,
        ComponentRange,
    >)
        ensures
            time == spec_from_hms_fraction(
                hour as int,
                minute as int,
                second as int,
                millisecond as int,
                "millisecond",
                1_000_000,
            ),
            time is Ok ==> time->Ok_0.wf() && time->Ok_0@ == hour * 3_600_000_000_000 + minute
                * 60_000_000_000 + second * 1_000_000_000 + millisecond * 1_000_000,
    {
        match ensure_value_in_range("hour", hour as i64, 0, 23, false) {
            Err(error) => {
                return Err(error);
            },
            Ok(_) => {},
        }
        match ensure_value_in_range("minute", minute as i64, 0, 59, false) {
            Err(error) => {
                return Err(error);
            },
            Ok(_) => {},
        }
        match ensure_value_in_range("second", second as i64, 0, 59, false) {
            Err(error) => {
                return Err(error);
            },
            Ok(_) => {},
        }
        match ensure_value_in_range("millisecond", millisecond as i64, 0, 999, false) {
            Err(error) => {
                return Err(error);
            },
            Ok(_) => {},
        }
        let time = Time { hour, minute, second, nanosecond: millisecond as u32 * 1_000_000 };
        proof {
            time.lemma_stored_fields();
        }
        Ok(time)
    }

    /// The time from an hour, a minute and a second.
    pub fn from_hms(hour: u8, minute: u8, second: u8) -> (time: Result<Time, ComponentRange>)
        ensures
            time == spec_from_hms_fraction(
                hour as int,
                minute as int,
                second as int,
                0,
                "nanosecond",
                1,
            ),
            time is Ok ==> time->Ok_0.wf() && time->Ok_0@ == hour * 3_600_000_000_000 + minute
                * 60_000_000_000 + second * 1_000_000_000,
    {
        Time::from_hms_nano(hour, minute, second, 0)
    }

    /// The hour of the day, in 0..=23.
    pub fn hour(self) -> (hour: u8)
        requires
            self.wf(),
        ensures
            hour == self.spec_hour(),
            hour <= 23,
    {
        proof {
            self.lemma_stored_fields();
        }
        self.hour
    }

    /// The minute of the hour, in 0..=59.
    pub fn minute(self) -> (minute: u8)
        requires
            self.wf(),
        ensures
            minute == self.spec_minute(),
            minute <= 59,
    {
        proof {
            self.lemma_stored_fields();
        }
        self.minute
    }

    /// The second of the minute, in 0..=59.
    pub fn second(self) -> (second: u8)
        requires
            self.wf(),
        ensures
            second == self.spec_second(),
            second <= 59,
    {
        proof {
            self.lemma_stored_fields();
        }
        self.second
    }

    /// The millisecond of the second, in 0..=999.
    pub fn millisecond(self) -> (millisecond: u16)
        requires
            self.wf(),
        ensures
            millisecond == self.spec_nanosecond() / 1_000_000,
            millisecond <= 999,
    {
        proof {
            self.lemma_stored_fields();
        }
        (self.nanosecond / 1_000_000) as u16
    }

    /// The microsecond of the second, in 0..=999_999.
    pub fn microsecond(self) -> (microsecond: u32)
        requires
            self.wf(),
        ensures
            microsecond == self.spec_nanosecond() / 1_000,
            microsecond <= 999_999,
    {
        proof {
            self.lemma_stored_fields();
        }
        self.nanosecond / 1_000
    }

    /// The nanosecond of the second, in 0..=999_999_999.
    pub fn nanosecond(self) -> (nanosecond: u32)
        requires
            self.wf(),
        ensures
            nanosecond == self.spec_nanosecond(),
            nanosecond <= 999_999_999,
    {
        proof {
            self.lemma_stored_fields();
        }
        self.nanosecond
    }

    /// The hour, the minute and the second.
    pub fn as_hms(self) -> (fields: (u8, u8, u8))
        requires
            self.wf(),
        ensures
            fields.0 == self.spec_hour(),
            fields.1 == self.spec_minute(),
            fields.2 == self.spec_second(),
    {
        proof {
            self.lemma_stored_fields();
        }
        (self.hour, self.minute, self.second)
    }

    /// The hour, the minute, the second and the nanosecond.
    pub fn as_hms_nano(self) -> (fields: (u8, u8, u8, u32))
        requires
            self.wf(),
        ensures
            fields.0 == self.spec_hour(),
            fields.1 == self.spec_minute(),
            fields.2 == self.spec_second(),
            fields.3 == self.spec_nanosecond(),
    {
        proof {
            self.lemma_stored_fields();
        }
        (self.hour, self.minute, self.second, self.nanosecond)
    }

    /// The time a count of nanoseconds away from midnight, together with
    /// the number of whole days that lie between: the count is split into
    /// days, rounded down, and a time of day.
    fn split_days(total: i128) -> (moved: (i64, Time))
        requires
            -9_300_000_000_000_000_000_000_000_000 <= total,
            total <= 9_300_000_000_000_000_000_000_000_000,
        ensures
            moved.0 == total as int / 86_400_000_000_000,
            moved.1.wf(),
            moved.1@ == total as int % 86_400_000_000_000,
            moved.1 == Time::spec_from_nanoseconds(total as int % 86_400_000_000_000),
    {
        let mut days: i128 = total / 86_400_000_000_000;
        let mut rest: i128 = total - days * 86_400_000_000_000;
        if rest < 0 {
            days = days - 1;
            rest = rest + 86_400_000_000_000;
        }
        proof {
            vstd::arithmetic::div_mod::lemma_fundamental_div_mod_converse(
                total as int,
                86_400_000_000_000,
                days as int,
                rest as int,
            );
        }
        (days as i64, Time::from_nanoseconds_of_day(rest as u64))
    }

    /// The time after the span has passed, counted around the clock, with
    /// the number of midnights passed on the way: negative where the span
    /// leads back into earlier days.
    pub fn adjusting_add(self, duration: Duration) -> (moved: (i64, Time))
        requires
            self.wf(),
            duration.wf(),
        ensures
            moved.0 == (self@ + duration@) / 86_400_000_000_000,
            moved.1.wf(),
            moved.1@ == (self@ + duration@) % 86_400_000_000_000,
            moved.1 == Time::spec_from_nanoseconds((self@ + duration@) % 86_400_000_000_000),
    {
        proof {
            duration.lemma_canonical();
        }
        let total: i128 = self.nanoseconds_since_midnight() as i128
            + duration.whole_nanoseconds();
        Time::split_days(total)
    }

    /// The time before the span has passed, counted around the clock, with
    /// the number of midnights passed on the way: negative where the time
    /// lies in an earlier day.
    pub fn adjusting_sub(self, duration: Duration) -> (moved: (i64, Time))
        requires
            self.wf(),
            duration.wf(),
        ensures
            moved.0 == (self@ - duration@) / 86_400_000_000_000,
            moved.1.wf(),
            moved.1@ == (self@ - duration@) % 86_400_000_000_000,
            moved.1 == Time::spec_from_nanoseconds((self@ - duration@) % 86_400_000_000_000),
    {
        proof {
            duration.lemma_canonical();
        }
        let total: i128 = self.nanoseconds_since_midnight() as i128
            - duration.whole_nanoseconds();
        Time::split_days(total)
    }

    /// The time after the span has passed, counted around the clock.
    pub fn wrapping_add(self, duration: Duration) -> (time: Time)
        requires
            self.wf(),
            duration.wf(),
        ensures
            time.wf(),
            time@ == (self@ + duration@) % 86_400_000_000_000,
    {
        self.adjusting_add(duration).1
    }

    /// The time before the span has passed, counted around the clock.
    pub fn wrapping_sub(self, duration: Duration) -> (time: Time)
        requires
            self.wf(),
            duration.wf(),
        ensures
            time.wf(),
            time@ == (self@ - duration@) % 86_400_000_000_000,
    {
        self.adjusting_sub(duration).1
    }

    /// The span from `earlier` to this time within one day; negative where
    /// this time is the earlier one.
    pub fn duration_since(self, earlier: Time) -> (span: Duration)
        requires
            self.wf(),
            earlier.wf(),
        ensures
            span.wf(),
            span@ == self@ - earlier@,
    {
        Duration::nanoseconds(
            self.nanoseconds_since_midnight() as i64 - earlier.nanoseconds_since_midnight() as i64,
        )
    }

    /// Whether this time comes before the other.
    pub fn is_before(self, other: Time) -> (before: bool)
        requires
            self.wf(),
            other.wf(),
        ensures
            before == (self@ < other@),
    {
        self.nanoseconds_since_midnight() < other.nanoseconds_since_midnight()
    }
}

} // verus!
