//! Days of the week.

use vstd::prelude::*;

verus! {

/// A day of the week. The week is counted from Monday.
#[derive(Debug, Clone, Copy, PartialEq, Eq, Structural, Hash)]
pub enum Weekday {
    Monday,
    Tuesday,
    Wednesday,
    Thursday,
    Friday,
    Saturday,
    Sunday,
}

/// The weekday that lies `index` days after a Monday, for any integer
/// `index`: the week wraps around in both directions.
pub open spec fn spec_weekday_from_index(index: int) -> Weekday {
    let r = index % 7;
    if r == 0 {
        Weekday::Monday
    } else if r == 1 {
        Weekday::Tuesday
    } else if r == 2 {
        Weekday::Wednesday
    } else if r == 3 {
        Weekday::Thursday
    } else if r == 4 {
        Weekday::Friday
    } else if r == 5 {
        Weekday::Saturday
    } else {
        Weekday::Sunday
    }
}

impl Weekday {
    /// Days since Monday, in 0..=6.
    pub open spec fn spec_index(self) -> int {
        match self {
            Weekday::Monday => 0,
            Weekday::Tuesday => 1,
            Weekday::Wednesday => 2,
            Weekday::Thursday => 3,
            Weekday::Friday => 4,
            Weekday::Saturday => 5,
            Weekday::Sunday => 6,
        }
    }

    /// The weekday `days` days after a Monday; any count is accepted and
    /// taken modulo 7.
    pub fn from_number_days_from_monday(days: u8) -> (day: Weekday)
        ensures
            day == spec_weekday_from_index(days as int),
    {
        let r: u8 = days % 7;
        if r == 0 {
            Weekday::Monday
        } else if r == 1 {
            Weekday::Tuesday
        } else if r == 2 {
            Weekday::Wednesday
        } else if r == 3 {
            Weekday::Thursday
        } else if r == 4 {
            Weekday::Friday
        } else if r == 5 {
            Weekday::Saturday
        } else {
            Weekday::Sunday
        }
    }

    /// The weekday `days` days after a Sunday; any count is accepted and
    /// taken modulo 7.
    pub fn from_number_days_from_sunday(days: u8) -> (day: Weekday)
        ensures
            day == spec_weekday_from_index(days as int + 6),
    {
        let r: u8 = days % 7;
        Weekday::from_number_days_from_monday(r + 6)
    }

    /// Days since Monday: Monday is 0, Sunday is 6.
    pub fn number_days_from_monday(self) -> (n: u8)
        ensures
            n as int == self.spec_index(),
    {
        match self {
            Weekday::Monday => 0,
            Weekday::Tuesday => 1,
            Weekday::Wednesday => 2,
            Weekday::Thursday => 3,
            Weekday::Friday => 4,
            Weekday::Saturday => 5,
            Weekday::Sunday => 6,
        }
    }

    /// Position in a week that starts on Monday: Monday is 1, Sunday is 7.
    pub fn number_from_monday(self) -> (n: u8)
        ensures
            n as int == self.spec_index() + 1,
    {
        self.number_days_from_monday() + 1
    }

    /// Days since Sunday: Sunday is 0, Saturday is 6.
    pub fn number_days_from_sunday(self) -> (n: u8)
        ensures
            n as int == (self.spec_index() + 1) % 7,
    {
        (self.number_days_from_monday() + 1) % 7
    }

    /// Position in a week that starts on Sunday: Sunday is 1, Saturday is 7.
    pub fn number_from_sunday(self) -> (n: u8)
        ensures
            n as int == (self.spec_index() + 1) % 7 + 1,
    {
        self.number_days_from_sunday() + 1
    }

    /// The day after this one.
    pub fn next(self) -> (day: Weekday)
        ensures
            day == spec_weekday_from_index(self.spec_index() + 1),
    {
        Weekday::from_number_days_from_monday(self.number_days_from_monday() + 1)
    }

    /// The day before this one.
    pub fn previous(self) -> (day: Weekday)
        ensures
            day == spec_weekday_from_index(self.spec_index() - 1),
    {
        Weekday::from_number_days_from_monday(self.number_days_from_monday() + 6)
    }

    /// The day `n` days after this one.
    pub fn succeeding(self, n: u8) -> (day: Weekday)
        ensures
            day == spec_weekday_from_index(self.spec_index() + n as int),
    {
        let step: u8 = n % 7;
        Weekday::from_number_days_from_monday(self.number_days_from_monday() + step)
    }

    /// The day `n` days before this one.
    pub fn preceding(self, n: u8) -> (day: Weekday)
        ensures
            day == spec_weekday_from_index(self.spec_index() - n as int),
    {
        let step: u8 = n % 7;
        Weekday::from_number_days_from_monday(self.number_days_from_monday() + 7 - step)
    }
}

/// Every weekday is found again from its index, and the index of the weekday
/// at any position is that position modulo 7.
pub proof fn lemma_weekday_index_inverse(day: Weekday, index: int)
    ensures
        spec_weekday_from_index(day.spec_index()) == day,
        spec_weekday_from_index(index).spec_index() == index % 7,
{
}

/// Going `n` days forward and then `n` days back returns to the same day.
pub proof fn lemma_weekday_forward_back(day: Weekday, n: int)
    ensures
        spec_weekday_from_index(spec_weekday_from_index(day.spec_index() + n).spec_index() - n)
            == day,
{
}

} // verus!
