//! Dates and times with a fixed offset from UTC.

use vstd::prelude::*;
use crate::date::{Date, JULIAN_DAY_OFFSET};
use crate::duration::Duration;
use crate::error::component_range::{ensure_value_in_range, ComponentRange};
use crate::primitive_date_time::{spec_checked_date_time, PrimitiveDateTime};
use crate::time::Time;
use crate::utc_offset::UtcOffset;

verus! {

/// Day number of the first of January 1970, the day on which Unix time
/// begins.
pub const UNIX_EPOCH_DAY: i64 = 719_163;

/// The first Unix timestamp that falls in a supported year.
pub const MIN_TIMESTAMP: i64 = -377_705_116_800;

/// The last Unix timestamp that falls in a supported year.
pub const MAX_TIMESTAMP: i64 = 253_402_300_799;

/// A date and time as a clock shows it at a fixed offset from UTC. It names
/// one moment: the one at which a clock set to UTC shows the date and time
/// that lie the offset earlier.
#[derive(Debug, Clone, Copy, PartialEq, Eq, Hash)]
pub struct OffsetDateTime {
    local: PrimitiveDateTime,
    offset: UtcOffset,
}

/// What a clock at the given offset shows at the moment that lies the given
/// count of nanoseconds after the UTC midnight that begins day 0: the date
/// and time that lie the offset later, or the error for the year in which
/// they lie where it is not a supported year.
pub open spec fn spec_at_offset(instant: int, offset: UtcOffset) -> Result<
    OffsetDateTime,
    ComponentRange,
> {
    match spec_checked_date_time(instant + offset@ * 1_000_000_000) {
        Ok(local) => Ok(OffsetDateTime::spec_new(local, offset)),
        Err(error) => Err(error),
    }
}

/// The moment of a Unix timestamp, as a count of nanoseconds since the UTC
/// midnight that begins day 0.
pub open spec fn spec_instant_of_timestamp(nanoseconds: int) -> int {
    (UNIX_EPOCH_DAY as int) * 86_400_000_000_000 + nanoseconds
}

/// What building a date and time in UTC from a Unix timestamp in seconds
/// gives.
pub open spec fn spec_from_unix_timestamp(timestamp: int) -> Result<
    OffsetDateTime,
    ComponentRange,
> {
    if MIN_TIMESTAMP <= timestamp <= MAX_TIMESTAMP {
        spec_at_offset(
            spec_instant_of_timestamp(timestamp * 1_000_000_000),
            UtcOffset::spec_from_seconds(0),
        )
    } else {
        Err(
            ComponentRange {
                name: "timestamp",
                minimum: MIN_TIMESTAMP,
                maximum: MAX_TIMESTAMP,
                value: timestamp as i64,
                conditional_range: false,
            },
        )
    }
}

/// The nearest integer of 64 bits.
pub open spec fn spec_clamp_to_i64(value: int) -> i64 {
    if value > i64::MAX {
        i64::MAX
    } else if value < i64::MIN {
        i64::MIN
    } else {
        value as i64
    }
}

impl OffsetDateTime {
    /// The date and time that the clock shows.
    pub closed spec fn spec_local(&self) -> PrimitiveDateTime {
        self.local
    }

    /// The offset of the clock from UTC.
    pub closed spec fn spec_offset(&self) -> UtcOffset {
        self.offset
    }

    /// The value made of what a clock shows and the clock's offset.
    pub closed spec fn spec_new(local: PrimitiveDateTime, offset: UtcOffset) -> OffsetDateTime {
        OffsetDateTime { local, offset }
    }

    /// The moment: nanoseconds since the UTC midnight that begins day 0.
    pub open spec fn view(&self) -> int {
        self.spec_local()@ - self.spec_offset()@ * 1_000_000_000
    }

    /// What the clock shows and its offset are both well formed.
    pub open spec fn wf(&self) -> bool {
        self.spec_local().wf() && self.spec_offset().wf()
    }

    /// A value is made of what its clock shows and its offset, and the parts
    /// of a value so made are those two.
    pub proof fn lemma_parts(self, local: PrimitiveDateTime, offset: UtcOffset)
        ensures
            OffsetDateTime::spec_new(self.spec_local(), self.spec_offset()) == self,
            OffsetDateTime::spec_new(local, offset).spec_local() == local,
            OffsetDateTime::spec_new(local, offset).spec_offset() == offset,
    {
    }

    /// What a clock at the given offset shows, taken at its word.
    pub fn new(local: PrimitiveDateTime, offset: UtcOffset) -> (date_time: OffsetDateTime)
        ensures
            date_time == OffsetDateTime::spec_new(local, offset),
            date_time.spec_local() == local,
            date_time.spec_offset() == offset,
    {
        OffsetDateTime { local, offset }
    }

    /// The moment at which Unix time begins, in UTC.
    pub fn unix_epoch() -> (date_time: OffsetDateTime)
        ensures
            date_time.wf(),
            date_time@ == spec_instant_of_timestamp(0),
            date_time.spec_offset()@ == 0,
    {
        proof {
            crate::date::lemma_supported_days(UNIX_EPOCH_DAY as int);
        }
        OffsetDateTime {
            local: PrimitiveDateTime::new(Date::at_day(UNIX_EPOCH_DAY as i32), Time::midnight()),
            offset: UtcOffset::utc(),
        }
    }

    /// The moment a count of seconds after the start of Unix time, in UTC.
    pub fn from_unix_timestamp(timestamp: i64) -> (date_time: Result<
        OffsetDateTime,
        ComponentRange,
    >)
        ensures
            date_time == spec_from_unix_timestamp(timestamp as int),
            date_time is Ok <==> MIN_TIMESTAMP <= timestamp <= MAX_TIMESTAMP,
            date_time is Ok ==> date_time->Ok_0.wf() && date_time->Ok_0@
                == spec_instant_of_timestamp(timestamp * 1_000_000_000)
                && date_time->Ok_0.spec_offset()@ == 0,
    {
        match ensure_value_in_range("timestamp", timestamp, MIN_TIMESTAMP, MAX_TIMESTAMP, false) {
            Err(error) => {
                return Err(error);
            },
            Ok(_) => {},
        }
        let epoch = OffsetDateTime::unix_epoch();
        let utc = UtcOffset::utc();
        proof {
            utc.lemma_fields();
            epoch.offset.lemma_equal_by_seconds(utc);
            crate::date::lemma_supported_days(epoch.local.spec_date()@);
            let instant = spec_instant_of_timestamp(timestamp * 1_000_000_000);
            vstd::arithmetic::div_mod::lemma_fundamental_div_mod(instant, 86_400_000_000_000);
        }
        match epoch.local.checked_add(Duration::seconds(timestamp)) {
            Ok(local) => Ok(OffsetDateTime { local, offset: utc }),
            Err(error) => Err(error),
        }
    }

    /// The moment a count of nanoseconds after the start of Unix time, in
    /// UTC. Fails where the moment lies outside the supported years, with
    /// the count of whole seconds.
    pub fn from_unix_timestamp_nanos(timestamp: i128) -> (date_time: Result<
        OffsetDateTime,
        ComponentRange,
    >)
        ensures
            date_time is Ok <==> MIN_TIMESTAMP <= timestamp as int / 1_000_000_000
                <= MAX_TIMESTAMP,
            date_time is Ok ==> date_time->Ok_0.wf() && date_time->Ok_0@
                == spec_instant_of_timestamp(timestamp as int) && date_time->Ok_0.spec_offset()@
                == 0,
            date_time is Err ==> date_time->Err_0 == (ComponentRange {
                name: "timestamp",
                minimum: MIN_TIMESTAMP,
                maximum: MAX_TIMESTAMP,
                value: spec_clamp_to_i64(timestamp as int / 1_000_000_000),
                conditional_range: false,
            }),
    {
        let mut seconds: i128 = timestamp / 1_000_000_000;
        let mut rest: i128 = timestamp - seconds * 1_000_000_000;
        if rest < 0 {
            seconds = seconds - 1;
            rest = rest + 1_000_000_000;
        }
        proof {
            vstd::arithmetic::div_mod::lemma_fundamental_div_mod_converse(
                timestamp as int,
                1_000_000_000,
                seconds as int,
                rest as int,
            );
        }
        let clamped: i64 = if seconds > 9_223_372_036_854_775_807 {
            9_223_372_036_854_775_807
        } else if seconds < -9_223_372_036_854_775_808 {
            -9_223_372_036_854_775_808
        } else {
            seconds as i64
        };
        let whole = match OffsetDateTime::from_unix_timestamp(clamped) {
            Ok(whole) => whole,
            Err(error) => {
                return Err(error);
            },
        };
        proof {
            crate::date::lemma_supported_days(whole.local.spec_date()@);
            whole.local.lemma_split();
            whole.local.spec_time().lemma_fields();
            let instant = spec_instant_of_timestamp(timestamp as int);
            let start = spec_instant_of_timestamp(seconds * 1_000_000_000);
            vstd::arithmetic::div_mod::lemma_fundamental_div_mod(start, 1_000_000_000);
            vstd::arithmetic::div_mod::lemma_fundamental_div_mod(start, 86_400_000_000_000);
            vstd::arithmetic::div_mod::lemma_fundamental_div_mod_converse(
                start % 86_400_000_000_000,
                1_000_000_000,
                (start % 86_400_000_000_000) / 1_000_000_000,
                0,
            );
            vstd::arithmetic::div_mod::lemma_fundamental_div_mod_converse(
                instant,
                86_400_000_000_000,
                start / 86_400_000_000_000,
                start % 86_400_000_000_000 + rest,
            );
        }
        match whole.local.checked_add(Duration::nanoseconds(rest as i64)) {
            Ok(local) => Ok(OffsetDateTime { local, offset: whole.offset }),
            Err(error) => Err(error),
        }
    }

    /// Seconds from the start of Unix time to the moment, rounded down.
    pub fn unix_timestamp(self) -> (timestamp: i64)
        requires
            self.wf(),
        ensures
            timestamp == (self@ - spec_instant_of_timestamp(0)) / 1_000_000_000,
    {
        let nanoseconds: i128 = self.unix_timestamp_nanos();
        let mut seconds: i128 = nanoseconds / 1_000_000_000;
        if nanoseconds - seconds * 1_000_000_000 < 0 {
            seconds = seconds - 1;
        }
        proof {
            vstd::arithmetic::div_mod::lemma_fundamental_div_mod_converse(
                nanoseconds as int,
                1_000_000_000,
                seconds as int,
                nanoseconds - seconds * 1_000_000_000,
            );
        }
        seconds as i64
    }

    /// Nanoseconds from the start of Unix time to the moment.
    pub fn unix_timestamp_nanos(self) -> (timestamp: i128)
        requires
            self.wf(),
        ensures
            timestamp == self@ - spec_instant_of_timestamp(0),
            -400_000_000_000_000_000_000 <= timestamp <= 400_000_000_000_000_000_000,
    {
        proof {
            crate::date::lemma_supported_days(self.local.spec_date()@);
            self.local.spec_time().lemma_fields();
            self.offset.lemma_fields();
        }
        let days: i128 = (self.local.date().to_julian_day() - JULIAN_DAY_OFFSET
            - UNIX_EPOCH_DAY) as i128;
        let in_day: i128 = self.local.time().nanoseconds_since_midnight() as i128;
        let offset: i128 = self.offset.whole_seconds() as i128;
        days * 86_400_000_000_000 + in_day - offset * 1_000_000_000
    }

    /// The offset of the clock from UTC.
    pub fn offset(self) -> (offset: UtcOffset)
        ensures
            offset == self.spec_offset(),
    {
        self.offset
    }

    /// The date and time that the clock shows.
    pub fn local_date_time(self) -> (local: PrimitiveDateTime)
        ensures
            local == self.spec_local(),
    {
        self.local
    }

    /// The date that the clock shows.
    pub fn date(self) -> (date: Date)
        ensures
            date == self.spec_local().spec_date(),
    {
        self.local.date()
    }

    /// The time of day that the clock shows.
    pub fn time(self) -> (time: Time)
        ensures
            time == self.spec_local().spec_time(),
    {
        self.local.time()
    }

    /// The same moment as a clock at another offset shows it. Fails where
    /// that clock shows a date outside the supported years.
    pub fn to_offset(self, offset: UtcOffset) -> (date_time: Result<
        OffsetDateTime,
        ComponentRange,
    >)
        requires
            self.wf(),
            offset.wf(),
        ensures
            date_time == spec_at_offset(self@, offset),
            date_time is Ok ==> date_time->Ok_0.wf() && date_time->Ok_0@ == self@
                && date_time->Ok_0.spec_offset() == offset,
    {
        proof {
            self.offset.lemma_fields();
            offset.lemma_fields();
        }
        let shift: i32 = offset.whole_seconds() - self.offset.whole_seconds();
        match self.local.shifted_by_seconds(shift) {
            Ok(local) => Ok(OffsetDateTime { local, offset }),
            Err(error) => Err(error),
        }
    }

    /// The moment after the span has passed, at the same offset. Fails where
    /// the clock would show a date outside the supported years.
    pub fn checked_add(self, duration: Duration) -> (date_time: Result<
        OffsetDateTime,
        ComponentRange,
    >)
        requires
            self.wf(),
            duration.wf(),
        ensures
            date_time == spec_at_offset(self@ + duration@, self.spec_offset()),
            date_time is Ok ==> date_time->Ok_0.wf() && date_time->Ok_0@ == self@ + duration@
                && date_time->Ok_0.spec_offset() == self.spec_offset(),
    {
        match self.local.checked_add(duration) {
            Ok(local) => Ok(OffsetDateTime { local, offset: self.offset }),
            Err(error) => Err(error),
        }
    }

    /// The moment before the span has passed, at the same offset. Fails
    /// where the clock would show a date outside the supported years.
    pub fn checked_sub(self, duration: Duration) -> (date_time: Result<
        OffsetDateTime,
        ComponentRange,
    >)
        requires
            self.wf(),
            duration.wf(),
        ensures
            date_time == spec_at_offset(self@ - duration@, self.spec_offset()),
            date_time is Ok ==> date_time->Ok_0.wf() && date_time->Ok_0@ == self@ - duration@
                && date_time->Ok_0.spec_offset() == self.spec_offset(),
    {
        match self.local.checked_sub(duration) {
            Ok(local) => Ok(OffsetDateTime { local, offset: self.offset }),
            Err(error) => Err(error),
        }
    }

    /// The span from the `earlier` moment to this one, whatever the two
    /// offsets; negative where this is the earlier one.
    pub fn duration_since(self, earlier: OffsetDateTime) -> (span: Duration)
        requires
            self.wf(),
            earlier.wf(),
        ensures
            span.wf(),
            span@ == self@ - earlier@,
    {
        let first: i128 = self.unix_timestamp_nanos();
        let second: i128 = earlier.unix_timestamp_nanos();
        let difference: i128 = first - second;
        let seconds: i128 = difference / 1_000_000_000;
        let rest: i128 = difference % 1_000_000_000;
        Duration::new(seconds as i64, rest as i32)
    }

    /// Whether this moment comes before the other, whatever the two
    /// offsets.
    pub fn is_before(self, other: OffsetDateTime) -> (before: bool)
        requires
            self.wf(),
            other.wf(),
        ensures
            before == (self@ < other@),
    {
        self.unix_timestamp_nanos() < other.unix_timestamp_nanos()
    }

    /// Whether the two name the same moment, whatever the two offsets.
    pub fn is_same_instant(self, other: OffsetDateTime) -> (same: bool)
        requires
            self.wf(),
            other.wf(),
        ensures
            same == (self@ == other@),
    {
        self.unix_timestamp_nanos() == other.unix_timestamp_nanos()
    }
}

/// Changing the offset changes what the clock shows and not the moment:
/// going to another offset and back gives the value that was there.
pub proof fn lemma_offset_round_trip(date_time: OffsetDateTime, offset: UtcOffset)
    requires
        date_time.wf(),
        offset.wf(),
        spec_at_offset(date_time@, offset) is Ok,
    ensures
        spec_at_offset(date_time@, offset)->Ok_0@ == date_time@,
        spec_at_offset(spec_at_offset(date_time@, offset)->Ok_0@, date_time.spec_offset()) == Ok::<
            OffsetDateTime,
            ComponentRange,
        >(date_time),
{
    let shown = date_time@ + offset@ * 1_000_000_000;
    lemma_checked_date_time(shown);
    let local = spec_checked_date_time(shown)->Ok_0;
    date_time.lemma_parts(local, offset);
    date_time.spec_local().lemma_split();
}

/// The date and time a count of nanoseconds after day 0, where it lies in a
/// supported year, is well formed and lies that count after day 0.
pub proof fn lemma_checked_date_time(nanoseconds: int)
    requires
        spec_checked_date_time(nanoseconds) is Ok,
    ensures
        spec_checked_date_time(nanoseconds)->Ok_0.wf(),
        spec_checked_date_time(nanoseconds)->Ok_0@ == nanoseconds,
{
    let day = nanoseconds / 86_400_000_000_000;
    let rest = nanoseconds % 86_400_000_000_000;
    vstd::arithmetic::div_mod::lemma_fundamental_div_mod(nanoseconds, 86_400_000_000_000);
    Date::lemma_from_day_number(day);
    Time::lemma_from_nanoseconds(rest);
    let date = Date::spec_from_day_number(day);
    let time = Time::spec_from_nanoseconds(rest);
    PrimitiveDateTime::spec_new(date, time).lemma_parts(date, time);
}

} // verus!
