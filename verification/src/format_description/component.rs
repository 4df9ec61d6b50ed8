//! The fields of a date, a time and an offset that a format description can
//! name, with what can be said of how each is written.

use vstd::prelude::*;

verus! {

/// How a number that has fewer digits than its field is wide is filled up.
#[derive(Debug, Clone, Copy, PartialEq, Eq, Structural, Hash)]
pub enum Padding {
    /// With leading zeros.
    Zero,
    /// With leading spaces.
    Space,
    /// Not at all: the number is written with the digits it has.
    Unpadded,
}

/// From which day the weeks of a year are counted.
#[derive(Debug, Clone, Copy, PartialEq, Eq, Structural, Hash)]
pub enum WeekNumberRepr {
    /// ISO weeks: week 1 is the week of the year's first Thursday.
    Iso,
    /// Weeks begin on Sunday; week 1 begins with the year's first Sunday.
    Sunday,
    /// Weeks begin on Monday; week 1 begins with the year's first Monday.
    Monday,
}

/// How many digits of the fraction of a second are written.
#[derive(Debug, Clone, Copy, PartialEq, Eq, Structural, Hash)]
pub enum SubsecondDigits {
    /// Exactly this many, from 1 to 9.
    Exactly(u8),
    /// As many as the value needs, and at least one.
    OneOrMore,
}

/// One field and how it is written.
#[derive(Debug, Clone, Copy, PartialEq, Eq, Structural, Hash)]
pub enum Component {
    /// Day of the month, two digits wide.
    Day { padding: Padding },
    /// Month of the year as a number, two digits wide.
    Month { padding: Padding },
    /// Day of the year, three digits wide.
    Ordinal { padding: Padding },
    /// Day of the week as one digit, counted from Monday or from Sunday, and
    /// from 1 or from 0.
    Weekday { from_sunday: bool, one_indexed: bool },
    /// Week of the year, two digits wide.
    WeekNumber { padding: Padding, repr: WeekNumberRepr },
    /// The calendar year or the ISO week-numbering year, four digits wide,
    /// with a sign always or only where it is negative.
    Year { padding: Padding, iso_week_based: bool, sign_is_mandatory: bool },
    /// Hour of the day, on a clock of 24 or of 12 hours, two digits wide.
    Hour { padding: Padding, is_12_hour_clock: bool },
    /// Minute of the hour, two digits wide.
    Minute { padding: Padding },
    /// Which half of the day: AM or PM, in upper or lower case.
    Period { is_uppercase: bool },
    /// Second of the minute, two digits wide.
    Second { padding: Padding },
    /// Fraction of the second.
    Subsecond { digits: SubsecondDigits },
    /// Hours of the offset from UTC, two digits wide, with a sign always or
    /// only where it is negative.
    OffsetHour { padding: Padding, sign_is_mandatory: bool },
    /// Minutes of the offset beyond its hours, two digits wide, unsigned.
    OffsetMinute { padding: Padding },
    /// Seconds of the offset beyond its minutes, two digits wide, unsigned.
    OffsetSecond { padding: Padding },
}

impl Component {
    /// The count of fraction digits, where one is fixed, lies in 1..=9.
    pub open spec fn wf(&self) -> bool {
        match *self {
            Component::Subsecond { digits: SubsecondDigits::Exactly(count) } => 1 <= count <= 9,
            _ => true,
        }
    }

    /// The name by which a format description calls the component.
    pub open spec fn spec_name(&self) -> &'static str {
        match *self {
            Component::Day { .. } => "day",
            Component::Month { .. } => "month",
            Component::Ordinal { .. } => "ordinal",
            Component::Weekday { .. } => "weekday",
            Component::WeekNumber { .. } => "week_number",
            Component::Year { .. } => "year",
            Component::Hour { .. } => "hour",
            Component::Minute { .. } => "minute",
            Component::Period { .. } => "period",
            Component::Second { .. } => "second",
            Component::Subsecond { .. } => "subsecond",
            Component::OffsetHour { .. } => "offset_hour",
            Component::OffsetMinute { .. } => "offset_minute",
            Component::OffsetSecond { .. } => "offset_second",
        }
    }

    /// The same component with another padding, for the components that
    /// have one.
    pub open spec fn spec_with_padding(&self, padding: Padding) -> Option<Component> {
        match *self {
            Component::Day { .. } => Some(Component::Day { padding }),
            Component::Month { .. } => Some(Component::Month { padding }),
            Component::Ordinal { .. } => Some(Component::Ordinal { padding }),
            Component::WeekNumber { repr, .. } => Some(Component::WeekNumber { padding, repr }),
            Component::Year { iso_week_based, sign_is_mandatory, .. } => Some(
                Component::Year { padding, iso_week_based, sign_is_mandatory },
            ),
            Component::Hour { is_12_hour_clock, .. } => Some(
                Component::Hour { padding, is_12_hour_clock },
            ),
            Component::Minute { .. } => Some(Component::Minute { padding }),
            Component::Second { .. } => Some(Component::Second { padding }),
            Component::OffsetHour { sign_is_mandatory, .. } => Some(
                Component::OffsetHour { padding, sign_is_mandatory },
            ),
            Component::OffsetMinute { .. } => Some(Component::OffsetMinute { padding }),
            Component::OffsetSecond { .. } => Some(Component::OffsetSecond { padding }),
            _ => None,
        }
    }

    /// The same component with the sign written always or only where it is
    /// negative, for the components that have a sign.
    pub open spec fn spec_with_sign(&self, mandatory: bool) -> Option<Component> {
        match *self {
            Component::Year { padding, iso_week_based, .. } => Some(
                Component::Year { padding, iso_week_based, sign_is_mandatory: mandatory },
            ),
            Component::OffsetHour { padding, .. } => Some(
                Component::OffsetHour { padding, sign_is_mandatory: mandatory },
            ),
            _ => None,
        }
    }

    /// Whether the component is well formed.
    pub fn is_wf(&self) -> (well_formed: bool)
        ensures
            well_formed == self.wf(),
    {
        match self {
            Component::Subsecond { digits: SubsecondDigits::Exactly(count) } => 1 <= *count
                && *count <= 9,
            _ => true,
        }
    }

    /// The name by which a format description calls the component.
    pub fn name(self) -> (name: &'static str)
        ensures
            name == self.spec_name(),
    {
        match self {
            Component::Day { .. } => "day",
            Component::Month { .. } => "month",
            Component::Ordinal { .. } => "ordinal",
            Component::Weekday { .. } => "weekday",
            Component::WeekNumber { .. } => "week_number",
            Component::Year { .. } => "year",
            Component::Hour { .. } => "hour",
            Component::Minute { .. } => "minute",
            Component::Period { .. } => "period",
            Component::Second { .. } => "second",
            Component::Subsecond { .. } => "subsecond",
            Component::OffsetHour { .. } => "offset_hour",
            Component::OffsetMinute { .. } => "offset_minute",
            Component::OffsetSecond { .. } => "offset_second",
        }
    }

    /// The same component with another padding, or `None` for a component
    /// that has none.
    pub fn with_padding(self, padding: Padding) -> (changed: Option<Component>)
        ensures
            changed == self.spec_with_padding(padding),
            self.wf() && changed is Some ==> changed->0.wf(),
    {
        match self {
            Component::Day { .. } => Some(Component::Day { padding }),
            Component::Month { .. } => Some(Component::Month { padding }),
            Component::Ordinal { .. } => Some(Component::Ordinal { padding }),
            Component::WeekNumber { repr, .. } => Some(Component::WeekNumber { padding, repr }),
            Component::Year { iso_week_based, sign_is_mandatory, .. } => Some(
                Component::Year { padding, iso_week_based, sign_is_mandatory },
            ),
            Component::Hour { is_12_hour_clock, .. } => Some(
                Component::Hour { padding, is_12_hour_clock },
            ),
            Component::Minute { .. } => Some(Component::Minute { padding }),
            Component::Second { .. } => Some(Component::Second { padding }),
            Component::OffsetHour { sign_is_mandatory, .. } => Some(
                Component::OffsetHour { padding, sign_is_mandatory },
            ),
            Component::OffsetMinute { .. } => Some(Component::OffsetMinute { padding }),
            Component::OffsetSecond { .. } => Some(Component::OffsetSecond { padding }),
            _ => None,
        }
    }

    /// The same component with the sign written always or only where it is
    /// negative, or `None` for a component that has no sign.
    pub fn with_sign(self, mandatory: bool) -> (changed: Option<Component>)
        ensures
            changed == self.spec_with_sign(mandatory),
            self.wf() && changed is Some ==> changed->0.wf(),
    {
        match self {
            Component::Year { padding, iso_week_based, .. } => Some(
                Component::Year { padding, iso_week_based, sign_is_mandatory: mandatory },
            ),
            Component::OffsetHour { padding, .. } => Some(
                Component::OffsetHour { padding, sign_is_mandatory: mandatory },
            ),
            _ => None,
        }
    }
}

} // verus!
