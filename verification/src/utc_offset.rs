//! Fixed offsets from UTC.

use vstd::prelude::*;
use crate::error::component_range::{ensure_value_in_range, ComponentRange};
use crate::util::{spec_div_trunc, spec_rem_trunc};

verus! {

/// A fixed distance from UTC of less than a day, in hours, minutes and
/// seconds that never differ in sign. Places east of Greenwich have a
/// positive offset.
#[derive(Debug, Clone, Copy, PartialEq, Eq, Hash)]
pub struct UtcOffset {
    hours: i8,
    minutes: i8,
    seconds: i8,
}

/// The error for a field of an offset that lies outside `minimum..=maximum`.
/// It is conditional where the bounds are those that the sign of a larger
/// field leaves.
pub open spec fn spec_offset_error(
    name: &'static str,
    minimum: int,
    maximum: int,
    value: int,
    conditional: bool,
) -> ComponentRange {
    ComponentRange {
        name,
        minimum: minimum as i64,
        maximum: maximum as i64,
        value: value as i64,
        conditional_range: conditional,
    }
}

/// What building an offset from hours, minutes and seconds gives. Each field
/// is first held against its own bounds, in that order. Then the minutes
/// must not differ in sign from the hours, nor the seconds from the hours
/// and the minutes.
pub open spec fn spec_from_hms(hours: int, minutes: int, seconds: int) -> Result<
    UtcOffset,
    ComponentRange,
> {
    if !(-23 <= hours <= 23) {
        Err(spec_offset_error("hours", -23, 23, hours, false))
    } else if !(-59 <= minutes <= 59) {
        Err(spec_offset_error("minutes", -59, 59, minutes, false))
    } else if !(-59 <= seconds <= 59) {
        Err(spec_offset_error("seconds", -59, 59, seconds, false))
    } else if hours > 0 && minutes < 0 {
        Err(spec_offset_error("minutes", 0, 59, minutes, true))
    } else if hours < 0 && minutes > 0 {
        Err(spec_offset_error("minutes", -59, 0, minutes, true))
    } else if (hours > 0 || minutes > 0) && seconds < 0 {
        Err(spec_offset_error("seconds", 0, 59, seconds, true))
    } else if (hours < 0 || minutes < 0) && seconds > 0 {
        Err(spec_offset_error("seconds", -59, 0, seconds, true))
    } else {
        Ok(UtcOffset::spec_from_seconds(hours * 3_600 + minutes * 60 + seconds))
    }
}

/// What building an offset from a count of seconds gives.
pub open spec fn spec_from_whole_seconds(seconds: int) -> Result<UtcOffset, ComponentRange> {
    if -86_399 <= seconds <= 86_399 {
        Ok(UtcOffset::spec_from_seconds(seconds))
    } else {
        Err(spec_offset_error("seconds", -86_399, 86_399, seconds, false))
    }
}

impl UtcOffset {
    /// The offset in seconds.
    pub closed spec fn view(&self) -> int {
        self.hours * 3_600 + self.minutes * 60 + self.seconds
    }

    /// Every field lies within its bounds and no two fields differ in sign.
    pub closed spec fn wf(&self) -> bool {
        &&& -23 <= self.hours <= 23
        &&& -59 <= self.minutes <= 59
        &&& -59 <= self.seconds <= 59
        &&& (self.hours > 0 ==> self.minutes >= 0 && self.seconds >= 0)
        &&& (self.hours < 0 ==> self.minutes <= 0 && self.seconds <= 0)
        &&& (self.minutes > 0 ==> self.seconds >= 0)
        &&& (self.minutes < 0 ==> self.seconds <= 0)
    }

    /// The offset of the given count of seconds.
    pub closed spec fn spec_from_seconds(seconds: int) -> UtcOffset {
        UtcOffset {
            hours: spec_div_trunc(seconds, 3_600) as i8,
            minutes: spec_div_trunc(spec_rem_trunc(seconds, 3_600), 60) as i8,
            seconds: spec_rem_trunc(seconds, 60) as i8,
        }
    }

    /// Whole hours of the offset, rounded towards zero.
    pub open spec fn spec_whole_hours(&self) -> int {
        spec_div_trunc(self@, 3_600)
    }

    /// Minutes of the offset beyond its whole hours.
    pub open spec fn spec_minutes_past_hour(&self) -> int {
        spec_div_trunc(spec_rem_trunc(self@, 3_600), 60)
    }

    /// Seconds of the offset beyond its whole minutes.
    pub open spec fn spec_seconds_past_minute(&self) -> int {
        spec_rem_trunc(self@, 60)
    }

    /// Each stored field is the field that the count of seconds gives.
    proof fn lemma_stored_fields(self)
        requires
            self.wf(),
        ensures
            -86_399 <= self@ <= 86_399,
            self.hours == self.spec_whole_hours(),
            self.minutes == self.spec_minutes_past_hour(),
            self.seconds == self.spec_seconds_past_minute(),
            UtcOffset::spec_from_seconds(self@) == self,
    {
        let total = self@;
        let h = self.hours as int;
        let m = self.minutes as int;
        let s = self.seconds as int;
        if total >= 0 {
            vstd::arithmetic::div_mod::lemma_fundamental_div_mod_converse(
                total,
                3_600,
                h,
                m * 60 + s,
            );
            vstd::arithmetic::div_mod::lemma_fundamental_div_mod_converse(m * 60 + s, 60, m, s);
            vstd::arithmetic::div_mod::lemma_fundamental_div_mod_converse(total, 60, h * 60 + m, s);
        } else {
            vstd::arithmetic::div_mod::lemma_fundamental_div_mod_converse(
                -total,
                3_600,
                -h,
                -m * 60 - s,
            );
            vstd::arithmetic::div_mod::lemma_fundamental_div_mod_converse(
                -m * 60 - s,
                60,
                -m,
                -s,
            );
            vstd::arithmetic::div_mod::lemma_fundamental_div_mod_converse(
                -total,
                60,
                -h * 60 - m,
                -s,
            );
        }
    }

    /// An offset stays below a day in either direction, its fields stay
    /// within their bounds and agree in sign with the whole, and the offset
    /// is the offset of its own count of seconds.
    pub proof fn lemma_fields(self)
        requires
            self.wf(),
        ensures
            -86_399 <= self@ <= 86_399,
            -23 <= self.spec_whole_hours() <= 23,
            -59 <= self.spec_minutes_past_hour() <= 59,
            -59 <= self.spec_seconds_past_minute() <= 59,
            self@ == self.spec_whole_hours() * 3_600 + self.spec_minutes_past_hour() * 60
                + self.spec_seconds_past_minute(),
            self@ >= 0 ==> self.spec_whole_hours() >= 0 && self.spec_minutes_past_hour() >= 0
                && self.spec_seconds_past_minute() >= 0,
            self@ <= 0 ==> self.spec_whole_hours() <= 0 && self.spec_minutes_past_hour() <= 0
                && self.spec_seconds_past_minute() <= 0,
            UtcOffset::spec_from_seconds(self@) == self,
    {
        self.lemma_stored_fields();
    }

    /// The offset of a count of seconds below a day is well formed and has
    /// that count of seconds.
    pub proof fn lemma_from_seconds(seconds: int)
        requires
            -86_399 <= seconds <= 86_399,
        ensures
            UtcOffset::spec_from_seconds(seconds).wf(),
            UtcOffset::spec_from_seconds(seconds)@ == seconds,
    {
        let a = if seconds >= 0 {
            seconds
        } else {
            -seconds
        };
        vstd::arithmetic::div_mod::lemma_fundamental_div_mod(a, 3_600);
        vstd::arithmetic::div_mod::lemma_fundamental_div_mod(a % 3_600, 60);
        vstd::arithmetic::div_mod::lemma_fundamental_div_mod_converse(
            a,
            60,
            (a / 3_600) * 60 + (a % 3_600) / 60,
            (a % 3_600) % 60,
        );
    }

    /// Two well-formed offsets of the same count of seconds are the same
    /// offset.
    pub proof fn lemma_equal_by_seconds(self, other: UtcOffset)
        requires
            self.wf(),
            other.wf(),
            self@ == other@,
        ensures
            self == other,
    {
        self.lemma_stored_fields();
        other.lemma_stored_fields();
    }

    /// The offset of UTC itself.
    pub fn utc() -> (offset: UtcOffset)
        ensures
            offset.wf(),
            offset@ == 0,
    {
        UtcOffset { hours: 0, minutes: 0, seconds: 0 }
    }

    /// The offset of the given hours, minutes and seconds, which must each
    /// lie within their bounds and must not differ in sign.
    pub fn from_hms(hours: i8, minutes: i8, seconds: i8) -> (offset: Result<
        UtcOffset,
        ComponentRange,
    >)
        ensures
            offset == spec_from_hms(hours as int, minutes as int, seconds as int),
            offset is Ok ==> offset->Ok_0.wf() && offset->Ok_0@ == hours * 3_600 + minutes * 60
                + seconds,
    {
        match ensure_value_in_range("hours", hours as i64, -23, 23, false) {
            Err(error) => {
                return Err(error);
            },
            Ok(_) => {},
        }
        match ensure_value_in_range("minutes", minutes as i64, -59, 59, false) {
            Err(error) => {
                return Err(error);
            },
            Ok(_) => {},
        }
        match ensure_value_in_range("seconds", seconds as i64, -59, 59, false) {
            Err(error) => {
                return Err(error);
            },
            Ok(_) => {},
        }
        let minutes_checked = if hours > 0 {
            ensure_value_in_range("minutes", minutes as i64, 0, 59, true)
        } else if hours < 0 {
            ensure_value_in_range("minutes", minutes as i64, -59, 0, true)
        } else {
            Ok(minutes as i64)
        };
        match minutes_checked {
            Err(error) => {
                return Err(error);
            },
            Ok(_) => {},
        }
        let seconds_checked = if hours > 0 || minutes > 0 {
            ensure_value_in_range("seconds", seconds as i64, 0, 59, true)
        } else if hours < 0 || minutes < 0 {
            ensure_value_in_range("seconds", seconds as i64, -59, 0, true)
        } else {
            Ok(seconds as i64)
        };
        match seconds_checked {
            Err(error) => {
                return Err(error);
            },
            Ok(_) => {},
        }
        let offset = UtcOffset { hours, minutes, seconds };
        proof {
            offset.lemma_stored_fields();
        }
        Ok(offset)
    }

    /// As [`UtcOffset::from_hms`], for fields that need not fit in eight
    /// bits.
    pub fn from_hms_wide(hours: i16, minutes: i16, seconds: i16) -> (offset: Result<
        UtcOffset,
        ComponentRange,
    >)
        ensures
            offset == spec_from_hms(hours as int, minutes as int, seconds as int),
            offset is Ok ==> offset->Ok_0.wf() && offset->Ok_0@ == hours * 3_600 + minutes * 60
                + seconds,
    {
        match ensure_value_in_range("hours", hours as i64, -23, 23, false) {
            Err(error) => {
                return Err(error);
            },
            Ok(_) => {},
        }
        match ensure_value_in_range("minutes", minutes as i64, -59, 59, false) {
            Err(error) => {
                return Err(error);
            },
            Ok(_) => {},
        }
        match ensure_value_in_range("seconds", seconds as i64, -59, 59, false) {
            Err(error) => {
                return Err(error);
            },
            Ok(_) => {},
        }
        UtcOffset::from_hms(hours as i8, minutes as i8, seconds as i8)
    }

    /// The offset of the given count of seconds, which must stay below a
    /// day in either direction.
    pub fn from_whole_seconds(seconds: i32) -> (offset: Result<UtcOffset, ComponentRange>)
        ensures
            offset == spec_from_whole_seconds(seconds as int),
            offset is Ok ==> offset->Ok_0.wf() && offset->Ok_0@ == seconds,
    {
        match ensure_value_in_range("seconds", seconds as i64, -86_399, 86_399, false) {
            Err(error) => {
                return Err(error);
            },
            Ok(_) => {},
        }
        proof {
            UtcOffset::lemma_from_seconds(seconds as int);
        }
        let rest: i32 = seconds % 3_600;
        Ok(
            UtcOffset {
                hours: (seconds / 3_600) as i8,
                minutes: (rest / 60) as i8,
                seconds: (seconds % 60) as i8,
            },
        )
    }

    /// Whole hours of the offset, rounded towards zero.
    pub fn whole_hours(self) -> (hours: i8)
        requires
            self.wf(),
        ensures
            hours == self.spec_whole_hours(),
            -23 <= hours <= 23,
    {
        proof {
            self.lemma_stored_fields();
        }
        self.hours
    }

    /// Whole minutes of the offset, rounded towards zero.
    pub fn whole_minutes(self) -> (minutes: i16)
        requires
            self.wf(),
        ensures
            minutes == spec_div_trunc(self@, 60),
    {
        proof {
            self.lemma_stored_fields();
            let a = if self@ >= 0 {
                self@
            } else {
                -self@
            };
            let h = if self@ >= 0 {
                self.hours as int
            } else {
                -self.hours
            };
            let m = if self@ >= 0 {
                self.minutes as int
            } else {
                -self.minutes
            };
            let s = if self@ >= 0 {
                self.seconds as int
            } else {
                -self.seconds
            };
            vstd::arithmetic::div_mod::lemma_fundamental_div_mod_converse(a, 60, h * 60 + m, s);
        }
        self.hours as i16 * 60 + self.minutes as i16
    }

    /// The offset in seconds.
    pub fn whole_seconds(self) -> (seconds: i32)
        requires
            self.wf(),
        ensures
            seconds == self@,
            -86_399 <= seconds <= 86_399,
    {
        self.hours as i32 * 3_600 + self.minutes as i32 * 60 + self.seconds as i32
    }

    /// Minutes of the offset beyond its whole hours; negative for an offset
    /// west of Greenwich.
    pub fn minutes_past_hour(self) -> (minutes: i8)
        requires
            self.wf(),
        ensures
            minutes == self.spec_minutes_past_hour(),
            -59 <= minutes <= 59,
    {
        proof {
            self.lemma_stored_fields();
        }
        self.minutes
    }

    /// Seconds of the offset beyond its whole minutes; negative for an
    /// offset west of Greenwich.
    pub fn seconds_past_minute(self) -> (seconds: i8)
        requires
            self.wf(),
        ensures
            seconds == self.spec_seconds_past_minute(),
            -59 <= seconds <= 59,
    {
        proof {
            self.lemma_stored_fields();
        }
        self.seconds
    }

    /// The hours, minutes and seconds of the offset.
    pub fn as_hms(self) -> (fields: (i8, i8, i8))
        requires
            self.wf(),
        ensures
            fields.0 == self.spec_whole_hours(),
            fields.1 == self.spec_minutes_past_hour(),
            fields.2 == self.spec_seconds_past_minute(),
    {
        proof {
            self.lemma_stored_fields();
        }
        (self.hours, self.minutes, self.seconds)
    }

    /// Whether the offset is that of UTC.
    pub fn is_utc(self) -> (utc: bool)
        requires
            self.wf(),
        ensures
            utc == (self@ == 0),
    {
        self.hours == 0 && self.minutes == 0 && self.seconds == 0
    }

    /// Whether the offset lies east of UTC.
    pub fn is_positive(self) -> (positive: bool)
        requires
            self.wf(),
        ensures
            positive == (self@ > 0),
    {
        self.hours > 0 || self.minutes > 0 || self.seconds > 0
    }

    /// Whether the offset lies west of UTC.
    pub fn is_negative(self) -> (negative: bool)
        requires
            self.wf(),
        ensures
            negative == (self@ < 0),
    {
        self.hours < 0 || self.minutes < 0 || self.seconds < 0
    }
}

/// Hours and minutes of opposite sign are never accepted.
pub proof fn lemma_sign_mismatch_rejected(hours: int, minutes: int, seconds: int)
    requires
        (hours > 0 && minutes < 0) || (hours < 0 && minutes > 0),
    ensures
        spec_from_hms(hours, minutes, seconds) is Err,
{
}

} // verus!
