//! Dates with a time of day, without an offset.

use vstd::prelude::*;
use crate::date::{spec_max_day, spec_min_day, spec_year_error, Date};
use crate::duration::Duration;
use crate::error::component_range::ComponentRange;
use crate::offset_date_time::OffsetDateTime;
use crate::time::Time;
use crate::utc_offset::UtcOffset;
use crate::util::spec_year_of_day;

verus! {

/// A date together with a time of day. It says nothing of where on earth
/// the clock stands.
#[derive(Debug, Clone, Copy, PartialEq, Eq, Hash, PartialOrd, Ord)]
pub struct PrimitiveDateTime {
    date: Date,
    time: Time,
}

/// The date and time that lie the given count of nanoseconds after the
/// midnight that begins day 0, or the error for the year in which that
/// moment lies where it is not a supported year.
pub open spec fn spec_checked_date_time(nanoseconds: int) -> Result<
    PrimitiveDateTime,
    ComponentRange,
> {
    let day = nanoseconds / 86_400_000_000_000;
    if spec_min_day() <= day <= spec_max_day() {
        Ok(
            PrimitiveDateTime::spec_new(
                Date::spec_from_day_number(day),
                Time::spec_from_nanoseconds(nanoseconds % 86_400_000_000_000),
            ),
        )
    } else {
        Err(spec_year_error(spec_year_of_day(day)))
    }
}

impl PrimitiveDateTime {
    /// The date.
    pub closed spec fn spec_date(&self) -> Date {
        self.date
    }

    /// The time of day.
    pub closed spec fn spec_time(&self) -> Time {
        self.time
    }

    /// The value made of a date and a time of day.
    pub closed spec fn spec_new(date: Date, time: Time) -> PrimitiveDateTime {
        PrimitiveDateTime { date, time }
    }

    /// Nanoseconds since the midnight that begins day 0.
    pub open spec fn view(&self) -> int {
        self.spec_date()@ * 86_400_000_000_000 + self.spec_time()@
    }

    /// The date and the time of day are both well formed.
    pub open spec fn wf(&self) -> bool {
        self.spec_date().wf() && self.spec_time().wf()
    }

    /// A value is made of its date and its time, and the parts of a value
    /// made of a date and a time are that date and that time.
    pub proof fn lemma_parts(self, date: Date, time: Time)
        ensures
            PrimitiveDateTime::spec_new(self.spec_date(), self.spec_time()) == self,
            PrimitiveDateTime::spec_new(date, time).spec_date() == date,
            PrimitiveDateTime::spec_new(date, time).spec_time() == time,
    {
    }

    /// The day and the time of day are found again from the count of
    /// nanoseconds.
    pub proof fn lemma_split(self)
        requires
            self.wf(),
        ensures
            self@ / 86_400_000_000_000 == self.spec_date()@,
            self@ % 86_400_000_000_000 == self.spec_time()@,
            spec_checked_date_time(self@) == Ok::<PrimitiveDateTime, ComponentRange>(self),
    {
        self.spec_time().lemma_fields();
        vstd::arithmetic::div_mod::lemma_fundamental_div_mod_converse(
            self@,
            86_400_000_000_000,
            self.spec_date()@,
            self.spec_time()@,
        );
        self.spec_date().lemma_equal_by_day_number(self.spec_date());
    }

    /// Two well-formed values the same count of nanoseconds after day 0 are
    /// the same value.
    pub proof fn lemma_equal_by_nanoseconds(self, other: PrimitiveDateTime)
        requires
            self.wf(),
            other.wf(),
            self@ == other@,
        ensures
            self == other,
    {
        self.lemma_split();
        other.lemma_split();
    }

    /// The given time of day on the given date.
    pub fn new(date: Date, time: Time) -> (date_time: PrimitiveDateTime)
        ensures
            date_time == PrimitiveDateTime::spec_new(date, time),
            date_time.spec_date() == date,
            date_time.spec_time() == time,
    {
        PrimitiveDateTime { date, time }
    }

    /// The date.
    pub fn date(self) -> (date: Date)
        ensures
            date == self.spec_date(),
    {
        self.date
    }

    /// The time of day.
    pub fn time(self) -> (time: Time)
        ensures
            time == self.spec_time(),
    {
        self.time
    }

    /// The date and time as a clock at the given offset shows it.
    pub fn assume_offset(self, offset: UtcOffset) -> (date_time: OffsetDateTime)
        ensures
            date_time == OffsetDateTime::spec_new(self, offset),
            date_time.spec_local() == self,
            date_time.spec_offset() == offset,
    {
        OffsetDateTime::new(self, offset)
    }

    /// The date and time as a clock set to UTC shows it.
    pub fn assume_utc(self) -> (date_time: OffsetDateTime)
        ensures
            date_time.spec_local() == self,
            date_time.spec_offset().wf(),
            date_time.spec_offset()@ == 0,
            date_time@ == self@,
    {
        OffsetDateTime::new(self, UtcOffset::utc())
    }

    /// The same date with another time of day.
    pub fn replace_time(self, time: Time) -> (date_time: PrimitiveDateTime)
        ensures
            date_time == PrimitiveDateTime::spec_new(self.spec_date(), time),
            date_time.spec_date() == self.spec_date(),
            date_time.spec_time() == time,
    {
        PrimitiveDateTime { date: self.date, time }
    }

    /// The same time of day on another date.
    pub fn replace_date(self, date: Date) -> (date_time: PrimitiveDateTime)
        ensures
            date_time == PrimitiveDateTime::spec_new(date, self.spec_time()),
            date_time.spec_date() == date,
            date_time.spec_time() == self.spec_time(),
    {
        PrimitiveDateTime { date, time: self.time }
    }

    /// The given time of day, as many days away from this date as given.
    fn moved_to(self, days: i64, time: Time, Ghost(nanoseconds): Ghost<int>) -> (moved: Result<
        PrimitiveDateTime,
        ComponentRange,
    >)
        requires
            self.wf(),
            -200_000_000_000_000 <= days <= 200_000_000_000_000,
            self.spec_date()@ + days == nanoseconds / 86_400_000_000_000,
            time.wf(),
            time == Time::spec_from_nanoseconds(nanoseconds % 86_400_000_000_000),
            time@ == nanoseconds % 86_400_000_000_000,
        ensures
            moved == spec_checked_date_time(nanoseconds),
            moved is Ok ==> moved->Ok_0.wf() && moved->Ok_0@ == nanoseconds,
    {
        proof {
            vstd::arithmetic::div_mod::lemma_fundamental_div_mod(nanoseconds, 86_400_000_000_000);
            crate::date::lemma_supported_days(self.date@);
        }
        match self.date.checked_add_days(days) {
            Ok(date) => Ok(PrimitiveDateTime { date, time }),
            Err(error) => Err(error),
        }
    }

    /// The date and time after the span has passed. The span moves the time
    /// of day around the clock, and the date by the whole days of the span
    /// and the midnights that the time passes. Fails where the date would
    /// leave the supported years.
    pub fn checked_add(self, duration: Duration) -> (moved: Result<
        PrimitiveDateTime,
        ComponentRange,
    >)
        requires
            self.wf(),
            duration.wf(),
        ensures
            moved == spec_checked_date_time(self@ + duration@),
            moved is Ok ==> moved->Ok_0.wf() && moved->Ok_0@ == self@ + duration@,
    {
        let (days, time) = self.time.adjusting_add(duration);
        let ghost nanoseconds = self@ + duration@;
        proof {
            self.time.lemma_fields();
            duration.lemma_canonical();
            lemma_shift_by_days(self.time@ + duration@, self.date@);
        }
        self.moved_to(days, time, Ghost(nanoseconds))
    }

    /// The date and time before the span has passed. Fails where the date
    /// would leave the supported years.
    pub fn checked_sub(self, duration: Duration) -> (moved: Result<
        PrimitiveDateTime,
        ComponentRange,
    >)
        requires
            self.wf(),
            duration.wf(),
        ensures
            moved == spec_checked_date_time(self@ - duration@),
            moved is Ok ==> moved->Ok_0.wf() && moved->Ok_0@ == self@ - duration@,
    {
        let (days, time) = self.time.adjusting_sub(duration);
        let ghost nanoseconds = self@ - duration@;
        proof {
            self.time.lemma_fields();
            duration.lemma_canonical();
            lemma_shift_by_days(self.time@ - duration@, self.date@);
        }
        self.moved_to(days, time, Ghost(nanoseconds))
    }

    /// The date and time that lie a count of seconds away, for a count of
    /// less than two days.
    pub(crate) fn shifted_by_seconds(self, seconds: i32) -> (moved: Result<
        PrimitiveDateTime,
        ComponentRange,
    >)
        requires
            self.wf(),
            -172_800 <= seconds <= 172_800,
        ensures
            moved == spec_checked_date_time(self@ + seconds * 1_000_000_000),
            moved is Ok ==> moved->Ok_0.wf() && moved->Ok_0@ == self@ + seconds * 1_000_000_000,
    {
        self.checked_add(Duration::seconds(seconds as i64))
    }

    /// The span from `earlier` to this date and time; negative where this
    /// is the earlier one.
    pub fn duration_since(self, earlier: PrimitiveDateTime) -> (span: Duration)
        requires
            self.wf(),
            earlier.wf(),
        ensures
            span.wf(),
            span@ == self@ - earlier@,
    {
        proof {
            crate::date::lemma_supported_days(self.date@);
            crate::date::lemma_supported_days(earlier.date@);
            self.time.lemma_fields();
            earlier.time.lemma_fields();
        }
        let days: i64 = self.date.days_since(earlier.date);
        let nanoseconds: i64 = self.time.nanoseconds_since_midnight() as i64
            - earlier.time.nanoseconds_since_midnight() as i64;
        let whole = Duration::days(days);
        let rest = Duration::nanoseconds(nanoseconds);
        proof {
            whole.lemma_canonical();
            rest.lemma_canonical();
        }
        whole.saturating_add(rest)
    }

    /// Whether this date and time comes before the other.
    pub fn is_before(self, other: PrimitiveDateTime) -> (before: bool)
        requires
            self.wf(),
            other.wf(),
        ensures
            before == (self@ < other@),
    {
        proof {
            self.time.lemma_fields();
            other.time.lemma_fields();
        }
        let days: i64 = self.date.days_since(other.date);
        days < 0 || (days == 0 && self.time.is_before(other.time))
    }
}

/// Moving a moment by whole days moves its day by as many and leaves its
/// time of day.
pub proof fn lemma_shift_by_days(nanoseconds: int, days: int)
    ensures
        (days * 86_400_000_000_000 + nanoseconds) / 86_400_000_000_000 == days + nanoseconds
            / 86_400_000_000_000,
        (days * 86_400_000_000_000 + nanoseconds) % 86_400_000_000_000 == nanoseconds
            % 86_400_000_000_000,
{
    vstd::arithmetic::div_mod::lemma_fundamental_div_mod(nanoseconds, 86_400_000_000_000);
    vstd::arithmetic::div_mod::lemma_fundamental_div_mod_converse(
        days * 86_400_000_000_000 + nanoseconds,
        86_400_000_000_000,
        days + nanoseconds / 86_400_000_000_000,
        nanoseconds % 86_400_000_000_000,
    );
}

} // verus!
