//! Reading a date, a time and an offset from text, as a format description
//! says.

use vstd::prelude::*;
use crate::bytes::{is_digit, spec_is_digit, BLANK, MINUS_SIGN, PLUS_SIGN};
use crate::date::{
    spec_from_calendar_date, spec_from_iso_week_date, spec_from_ordinal_date,
    spec_from_week_date, Date,
};
use crate::error::component_range::ComponentRange;
use crate::error::intermediate_parse::IntermediateParse;
use crate::error::{Error, ErrorView};
use crate::format_description::component::{Component, Padding, SubsecondDigits, WeekNumberRepr};
use crate::format_description::{FormatDescription, FormatItem, ItemView};
use crate::formatting::{
    padding, pow10, sign_is_mandatory, spec_padding, spec_period, spec_pow10,
    spec_sign_is_mandatory, spec_width, width,
};
use crate::offset_date_time::OffsetDateTime;
use crate::primitive_date_time::PrimitiveDateTime;
use crate::time::{spec_from_hms_fraction, Time};
use crate::utc_offset::{spec_from_hms, UtcOffset};
use crate::weekday::{spec_weekday_from_index, Weekday};

verus! {

/// The fields that were read from a text. A field that the description did
/// not name is `None`.
#[derive(Debug, Clone, Copy, PartialEq, Eq)]
pub struct Parsed {
    /// The calendar year.
    pub year: Option<i32>,
    /// The ISO week-numbering year.
    pub iso_year: Option<i32>,
    /// The month, counted from 1.
    pub month: Option<u8>,
    /// The day of the month, counted from 1.
    pub day: Option<u8>,
    /// The day of the year, counted from 1.
    pub ordinal: Option<u16>,
    /// The day of the week.
    pub weekday: Option<Weekday>,
    /// The ISO week.
    pub iso_week: Option<u8>,
    /// The week of the year where weeks begin on Sunday.
    pub sunday_week: Option<u8>,
    /// The week of the year where weeks begin on Monday.
    pub monday_week: Option<u8>,
    /// The hour on a clock of 24 hours.
    pub hour_24: Option<u8>,
    /// The hour on a clock of 12 hours, from 1 to 12.
    pub hour_12: Option<u8>,
    /// Whether the time lies in the second half of the day.
    pub is_afternoon: Option<bool>,
    /// The minute of the hour.
    pub minute: Option<u8>,
    /// The second of the minute.
    pub second: Option<u8>,
    /// The nanosecond of the second.
    pub nanosecond: Option<u32>,
    /// Whether the offset was written with a minus.
    pub offset_is_negative: Option<bool>,
    /// Hours of the offset, without the sign.
    pub offset_hour: Option<u8>,
    /// Minutes of the offset beyond its hours, without the sign.
    pub offset_minute: Option<u8>,
    /// Seconds of the offset beyond its minutes, without the sign.
    pub offset_second: Option<u8>,
}

/// The number that a run of decimal digits stands for.
pub open spec fn spec_digits_value(digits: Seq<u8>) -> nat
    decreases digits.len(),
{
    if digits.len() == 0 {
        0
    } else {
        spec_digits_value(digits.drop_last()) * 10 + (digits.last() - 48) as nat
    }
}

/// How many digits follow one another from `at` on, counted up to `limit`.
pub open spec fn spec_count_digits(input: Seq<u8>, at: int, limit: nat) -> nat
    decreases limit,
{
    if limit == 0 || at < 0 || at >= input.len() || !spec_is_digit(input[at]) {
        0
    } else {
        1 + spec_count_digits(input, at + 1, (limit - 1) as nat)
    }
}

/// How many blanks follow one another from `at` on, counted up to `limit`.
pub open spec fn spec_count_blanks(input: Seq<u8>, at: int, limit: nat) -> nat
    decreases limit,
{
    if limit == 0 || at < 0 || at >= input.len() || input[at] != 32 {
        0
    } else {
        1 + spec_count_blanks(input, at + 1, (limit - 1) as nat)
    }
}

/// The number that stands at `at` in a field `width` wide, and where the
/// text goes on after it. Padded with zeros, the field holds exactly `width`
/// digits. Padded with blanks, it holds blanks and then digits, `width` in
/// all and at least one digit. Unpadded, it holds as many digits as follow
/// one another, at least one and at most `width`.
pub open spec fn spec_parse_number(input: Seq<u8>, at: int, width: nat, padding: Padding)
    -> Option<(nat, int)> {
    match padding {
        Padding::Zero => {
            if width >= 1 && spec_count_digits(input, at, width) == width {
                Some((spec_digits_value(input.subrange(at, at + width)), at + width))
            } else {
                None
            }
        },
        Padding::Space => {
            let blanks = if width >= 1 {
                spec_count_blanks(input, at, (width - 1) as nat)
            } else {
                0
            };
            if width >= 1 && spec_count_digits(input, at + blanks, (width - blanks) as nat)
                == width - blanks {
                Some((spec_digits_value(input.subrange(at + blanks, at + width)), at + width))
            } else {
                None
            }
        },
        Padding::Unpadded => {
            let count = spec_count_digits(input, at, width);
            if count >= 1 {
                Some((spec_digits_value(input.subrange(at, at + count)), at + count))
            } else {
                None
            }
        },
    }
}

/// The sign that stands at `at`, as whether it is a minus, and where the
/// text goes on after it. A plus or a minus is read where there is one;
/// where there is none, the value is not negative, unless the sign has to
/// be written.
pub open spec fn spec_parse_sign(input: Seq<u8>, at: int, mandatory: bool) -> Option<(bool, int)> {
    if 0 <= at < input.len() && input[at] == 45 {
        Some((true, at + 1))
    } else if 0 <= at < input.len() && input[at] == 43 {
        Some((false, at + 1))
    } else if mandatory {
        None
    } else {
        Some((false, at))
    }
}

/// Whether a component can be written with a sign.
pub open spec fn spec_has_sign(component: Component) -> bool {
    component is Year || component is OffsetHour
}

/// The number that a component reads at `at`: whether it carries a minus,
/// its magnitude, and where the text goes on after it. The fraction of a
/// second is read as nanoseconds. The marker of the half of the day is no
/// number.
pub open spec fn spec_read_field(component: Component, input: Seq<u8>, at: int) -> Option<
    (bool, nat, int),
> {
    match component {
        Component::Period { .. } => None,
        Component::Subsecond { digits } => {
            let count = match digits {
                SubsecondDigits::Exactly(count) => count as nat,
                SubsecondDigits::OneOrMore => spec_count_digits(input, at, 9),
            };
            match spec_parse_number(input, at, count, Padding::Zero) {
                Some((value, next)) => Some(
                    (false, value * spec_pow10((9 - count) as nat), next),
                ),
                None => None,
            }
        },
        _ => {
            let sign = if spec_has_sign(component) {
                spec_parse_sign(input, at, spec_sign_is_mandatory(component))
            } else {
                Some((false, at))
            };
            match sign {
                Some((negative, after)) => match spec_parse_number(
                    input,
                    after,
                    spec_width(component),
                    spec_padding(component),
                ) {
                    Some((value, next)) => Some((negative, value, next)),
                    None => None,
                },
                None => None,
            }
        },
    }
}

/// The fields with the number of one component put in its place, or `None`
/// where the component cannot stand for that number: an hour of a clock of
/// 12 hours outside 1..=12, or a weekday beyond the seventh.
pub open spec fn spec_store(parsed: Parsed, component: Component, negative: bool, magnitude: nat)
    -> Option<Parsed> {
    match component {
        Component::Day { .. } => Some(Parsed { day: Some(magnitude as u8), ..parsed }),
        Component::Month { .. } => Some(Parsed { month: Some(magnitude as u8), ..parsed }),
        Component::Ordinal { .. } => Some(Parsed { ordinal: Some(magnitude as u16), ..parsed }),
        Component::Weekday { from_sunday, one_indexed } => {
            let number = magnitude - (if one_indexed {
                1int
            } else {
                0int
            });
            if 0 <= number <= 6 {
                Some(
                    Parsed {
                        weekday: Some(
                            spec_weekday_from_index(
                                if from_sunday {
                                    number + 6
                                } else {
                                    number
                                },
                            ),
                        ),
                        ..parsed
                    },
                )
            } else {
                None
            }
        },
        Component::WeekNumber { repr, .. } => match repr {
            WeekNumberRepr::Iso => Some(Parsed { iso_week: Some(magnitude as u8), ..parsed }),
            WeekNumberRepr::Sunday => Some(
                Parsed { sunday_week: Some(magnitude as u8), ..parsed },
            ),
            WeekNumberRepr::Monday => Some(
                Parsed { monday_week: Some(magnitude as u8), ..parsed },
            ),
        },
        Component::Year { iso_week_based, .. } => {
            let year = if negative {
                -(magnitude as int)
            } else {
                magnitude as int
            };
            if iso_week_based {
                Some(Parsed { iso_year: Some(year as i32), ..parsed })
            } else {
                Some(Parsed { year: Some(year as i32), ..parsed })
            }
        },
        Component::Hour { is_12_hour_clock, .. } => {
            if !is_12_hour_clock {
                Some(Parsed { hour_24: Some(magnitude as u8), ..parsed })
            } else if 1 <= magnitude <= 12 {
                Some(Parsed { hour_12: Some(magnitude as u8), ..parsed })
            } else {
                None
            }
        },
        Component::Minute { .. } => Some(Parsed { minute: Some(magnitude as u8), ..parsed }),
        Component::Second { .. } => Some(Parsed { second: Some(magnitude as u8), ..parsed }),
        Component::Subsecond { .. } => Some(
            Parsed { nanosecond: Some(magnitude as u32), ..parsed },
        ),
        Component::OffsetHour { .. } => Some(
            Parsed {
                offset_is_negative: Some(negative),
                offset_hour: Some(magnitude as u8),
                ..parsed
            },
        ),
        Component::OffsetMinute { .. } => Some(
            Parsed { offset_minute: Some(magnitude as u8), ..parsed },
        ),
        Component::OffsetSecond { .. } => Some(
            Parsed { offset_second: Some(magnitude as u8), ..parsed },
        ),
        Component::Period { .. } => None,
    }
}

/// The fields after one component has been read at `at`, and where the text
/// goes on; or the error that names the component.
pub open spec fn spec_parse_component(
    parsed: Parsed,
    component: Component,
    input: Seq<u8>,
    at: int,
) -> Result<(Parsed, int), IntermediateParse> {
    match component {
        Component::Period { is_uppercase } => {
            if 0 <= at && at + 2 <= input.len() && input.subrange(at, at + 2) == spec_period(
                false,
                is_uppercase,
            ) {
                Ok((Parsed { is_afternoon: Some(false), ..parsed }, at + 2))
            } else if 0 <= at && at + 2 <= input.len() && input.subrange(at, at + 2)
                == spec_period(true, is_uppercase) {
                Ok((Parsed { is_afternoon: Some(true), ..parsed }, at + 2))
            } else {
                Err(IntermediateParse::InvalidComponent("period"))
            }
        },
        _ => match spec_read_field(component, input, at) {
            Some((negative, magnitude, next)) => match spec_store(
                parsed,
                component,
                negative,
                magnitude,
            ) {
                Some(stored) => Ok((stored, next)),
                None => Err(IntermediateParse::InvalidComponent(component.spec_name())),
            },
            None => Err(IntermediateParse::InvalidComponent(component.spec_name())),
        },
    }
}

/// The fields after one instruction has been carried out at `at`, and where
/// the text goes on. Text of the description has to stand in the input as
/// it is.
pub open spec fn spec_parse_item(parsed: Parsed, item: ItemView, input: Seq<u8>, at: int)
    -> Result<(Parsed, int), IntermediateParse> {
    match item {
        ItemView::Literal(text) => {
            if 0 <= at && at + text.len() <= input.len() && input.subrange(at, at + text.len())
                == text {
                Ok((parsed, at + text.len()))
            } else {
                Err(IntermediateParse::InvalidLiteral)
            }
        },
        ItemView::Component(component) => spec_parse_component(parsed, component, input, at),
    }
}

/// The fields after the instructions from `from` on have been carried out
/// one after the other, beginning at `at`, and where the text goes on after
/// the last; or the error of the first instruction that fails.
pub open spec fn spec_parse_from(
    items: Seq<ItemView>,
    from: int,
    input: Seq<u8>,
    at: int,
    parsed: Parsed,
) -> Result<(Parsed, int), IntermediateParse>
    decreases items.len() - from,
{
    if from < 0 || from >= items.len() {
        Ok((parsed, at))
    } else {
        match spec_parse_item(parsed, items[from], input, at) {
            Ok((next_parsed, next)) => spec_parse_from(items, from + 1, input, next, next_parsed),
            Err(error) => Err(error),
        }
    }
}

/// The fields that a description reads from a text that it matches from
/// beginning to end.
pub open spec fn spec_parse(items: Seq<ItemView>, input: Seq<u8>) -> Result<Parsed, ErrorView> {
    match spec_parse_from(items, 0, input, 0, Parsed::spec_empty()) {
        Ok((parsed, end)) => {
            if end == input.len() {
                Ok(parsed)
            } else {
                Err(ErrorView::UnexpectedTrailingCharacters)
            }
        },
        Err(error) => Err(ErrorView::IntermediateParse(error)),
    }
}

/// A value or the range error that kept it from being built, as an error of
/// the library.
pub open spec fn spec_checked<T>(built: Result<T, ComponentRange>) -> Result<T, ErrorView> {
    match built {
        Ok(value) => Ok(value),
        Err(error) => Err(ErrorView::ComponentRange(error)),
    }
}

impl Parsed {
    /// No field has been read.
    pub open spec fn spec_empty() -> Parsed {
        Parsed {
            year: None,
            iso_year: None,
            month: None,
            day: None,
            ordinal: None,
            weekday: None,
            iso_week: None,
            sunday_week: None,
            monday_week: None,
            hour_24: None,
            hour_12: None,
            is_afternoon: None,
            minute: None,
            second: None,
            nanosecond: None,
            offset_is_negative: None,
            offset_hour: None,
            offset_minute: None,
            offset_second: None,
        }
    }

    /// The date that the fields name. A year and a day of the year are
    /// taken first, then a year, a month and a day of the month, then an
    /// ISO year, an ISO week and a weekday, then a year, a week that begins
    /// on Sunday and a weekday, and last a year, a week that begins on
    /// Monday and a weekday.
    pub open spec fn spec_to_date(&self) -> Result<Date, ErrorView> {
        if self.year is Some && self.ordinal is Some {
            spec_checked(spec_from_ordinal_date(self.year->0 as int, self.ordinal->0 as int))
        } else if self.year is Some && self.month is Some && self.day is Some {
            spec_checked(
                spec_from_calendar_date(
                    self.year->0 as int,
                    self.month->0 as int,
                    self.day->0 as int,
                ),
            )
        } else if self.iso_year is Some && self.iso_week is Some && self.weekday is Some {
            spec_checked(
                spec_from_iso_week_date(
                    self.iso_year->0 as int,
                    self.iso_week->0 as int,
                    self.weekday->0,
                ),
            )
        } else if self.year is Some && self.sunday_week is Some && self.weekday is Some {
            spec_checked(
                spec_from_week_date(
                    self.year->0 as int,
                    self.sunday_week->0 as int,
                    self.weekday->0,
                    true,
                ),
            )
        } else if self.year is Some && self.monday_week is Some && self.weekday is Some {
            spec_checked(
                spec_from_week_date(
                    self.year->0 as int,
                    self.monday_week->0 as int,
                    self.weekday->0,
                    false,
                ),
            )
        } else {
            Err(ErrorView::InsufficientInformation)
        }
    }

    /// The hour of the day that the fields name: the hour of a clock of 24
    /// hours, or else that of a clock of 12 hours with the half of the day.
    pub open spec fn spec_hour(&self) -> Option<int> {
        if self.hour_24 is Some {
            Some(self.hour_24->0 as int)
        } else if self.hour_12 is Some && self.is_afternoon is Some {
            Some(
                self.hour_12->0 % 12 + (if self.is_afternoon->0 {
                    12int
                } else {
                    0int
                }),
            )
        } else {
            None
        }
    }

    /// The time that the fields name. It takes an hour; a minute, a second
    /// or a fraction that was not read is zero.
    pub open spec fn spec_to_time(&self) -> Result<Time, ErrorView> {
        match self.spec_hour() {
            Some(hour) => spec_checked(
                spec_from_hms_fraction(
                    hour,
                    (match self.minute {
                        Some(minute) => minute as int,
                        None => 0,
                    }),
                    (match self.second {
                        Some(second) => second as int,
                        None => 0,
                    }),
                    (match self.nanosecond {
                        Some(nanosecond) => nanosecond as int,
                        None => 0,
                    }),
                    "nanosecond",
                    1,
                ),
            ),
            None => Err(ErrorView::InsufficientInformation),
        }
    }

    /// The offset that the fields name. It takes the hours with their sign;
    /// minutes or seconds that were not read are zero, and those that were
    /// take the sign of the hours.
    pub open spec fn spec_to_offset(&self) -> Result<UtcOffset, ErrorView> {
        if self.offset_hour is Some && self.offset_is_negative is Some {
            let hours = self.offset_hour->0 as int;
            let minutes = match self.offset_minute {
                Some(minutes) => minutes as int,
                None => 0,
            };
            let seconds = match self.offset_second {
                Some(seconds) => seconds as int,
                None => 0,
            };
            if self.offset_is_negative->0 {
                spec_checked(spec_from_hms(-hours, -minutes, -seconds))
            } else {
                spec_checked(spec_from_hms(hours, minutes, seconds))
            }
        } else {
            Err(ErrorView::InsufficientInformation)
        }
    }

    /// The date and time that the fields name.
    pub open spec fn spec_to_primitive_date_time(&self) -> Result<PrimitiveDateTime, ErrorView> {
        match self.spec_to_date() {
            Ok(date) => match self.spec_to_time() {
                Ok(time) => Ok(PrimitiveDateTime::spec_new(date, time)),
                Err(error) => Err(error),
            },
            Err(error) => Err(error),
        }
    }

    /// The date and time with an offset that the fields name.
    pub open spec fn spec_to_offset_date_time(&self) -> Result<OffsetDateTime, ErrorView> {
        match self.spec_to_primitive_date_time() {
            Ok(local) => match self.spec_to_offset() {
                Ok(offset) => Ok(OffsetDateTime::spec_new(local, offset)),
                Err(error) => Err(error),
            },
            Err(error) => Err(error),
        }
    }

    /// No field has been read.
    pub fn empty() -> (parsed: Parsed)
        ensures
            parsed == Parsed::spec_empty(),
    {
        Parsed {
            year: None,
            iso_year: None,
            month: None,
            day: None,
            ordinal: None,
            weekday: None,
            iso_week: None,
            sunday_week: None,
            monday_week: None,
            hour_24: None,
            hour_12: None,
            is_afternoon: None,
            minute: None,
            second: None,
            nanosecond: None,
            offset_is_negative: None,
            offset_hour: None,
            offset_minute: None,
            offset_second: None,
        }
    }

    /// The date that the fields name.
    pub fn to_date(&self) -> (date: Result<Date, Error>)
        ensures
            match date {
                Ok(date) => self.spec_to_date() == Ok::<Date, ErrorView>(date) && date.wf(),
                Err(error) => self.spec_to_date() == Err::<Date, ErrorView>(error@),
            },
    {
        let built = match (self.year, self.ordinal, self.month, self.day) {
            (Some(year), Some(ordinal), _, _) => Date::from_ordinal_date(year, ordinal),
            (Some(year), None, Some(month), Some(day)) => Date::from_calendar_date(
                year,
                month,
                day,
            ),
            _ => match (self.iso_year, self.iso_week, self.weekday) {
                (Some(year), Some(week), Some(weekday)) => Date::from_iso_week_date(
                    year,
                    week,
                    weekday,
                ),
                _ => match (self.year, self.weekday, self.sunday_week, self.monday_week) {
                    (Some(year), Some(weekday), Some(week), _) => Date::from_week_date(
                        year,
                        week,
                        weekday,
                        true,
                    ),
                    (Some(year), Some(weekday), None, Some(week)) => Date::from_week_date(
                        year,
                        week,
                        weekday,
                        false,
                    ),
                    _ => {
                        return Err(Error::InsufficientInformation);
                    },
                },
            },
        };
        match built {
            Ok(date) => Ok(date),
            Err(error) => Err(Error::ComponentRange(error)),
        }
    }

    /// The time that the fields name.
    pub fn to_time(&self) -> (time: Result<Time, Error>)
        ensures
            match time {
                Ok(time) => self.spec_to_time() == Ok::<Time, ErrorView>(time) && time.wf(),
                Err(error) => self.spec_to_time() == Err::<Time, ErrorView>(error@),
            },
    {
        let hour: u8 = match (self.hour_24, self.hour_12, self.is_afternoon) {
            (Some(hour), _, _) => hour,
            (None, Some(hour), Some(afternoon)) => {
                let half: u8 = hour % 12;
                if afternoon {
                    half + 12
                } else {
                    half
                }
            },
            _ => {
                return Err(Error::InsufficientInformation);
            },
        };
        let minute: u8 = match self.minute {
            Some(minute) => minute,
            None => 0,
        };
        let second: u8 = match self.second {
            Some(second) => second,
            None => 0,
        };
        let nanosecond: u32 = match self.nanosecond {
            Some(nanosecond) => nanosecond,
            None => 0,
        };
        match Time::from_hms_nano(hour, minute, second, nanosecond) {
            Ok(time) => Ok(time),
            Err(error) => Err(Error::ComponentRange(error)),
        }
    }

    /// The offset that the fields name.
    pub fn to_offset(&self) -> (offset: Result<UtcOffset, Error>)
        ensures
            match offset {
                Ok(offset) => self.spec_to_offset() == Ok::<UtcOffset, ErrorView>(offset)
                    && offset.wf(),
                Err(error) => self.spec_to_offset() == Err::<UtcOffset, ErrorView>(error@),
            },
    {
        let (negative, hours): (bool, u8) = match (self.offset_is_negative, self.offset_hour) {
            (Some(negative), Some(hours)) => (negative, hours),
            _ => {
                return Err(Error::InsufficientInformation);
            },
        };
        let minutes: u8 = match self.offset_minute {
            Some(minutes) => minutes,
            None => 0,
        };
        let seconds: u8 = match self.offset_second {
            Some(seconds) => seconds,
            None => 0,
        };
        let built = if negative {
            UtcOffset::from_hms_wide(-(hours as i16), -(minutes as i16), -(seconds as i16))
        } else {
            UtcOffset::from_hms_wide(hours as i16, minutes as i16, seconds as i16)
        };
        match built {
            Ok(offset) => Ok(offset),
            Err(error) => Err(Error::ComponentRange(error)),
        }
    }

    /// The date and time that the fields name.
    pub fn to_primitive_date_time(&self) -> (date_time: Result<PrimitiveDateTime, Error>)
        ensures
            match date_time {
                Ok(date_time) => self.spec_to_primitive_date_time() == Ok::<
                    PrimitiveDateTime,
                    ErrorView,
                >(date_time) && date_time.wf(),
                Err(error) => self.spec_to_primitive_date_time() == Err::<
                    PrimitiveDateTime,
                    ErrorView,
                >(error@),
            },
    {
        let date = match self.to_date() {
            Ok(date) => date,
            Err(error) => {
                return Err(error);
            },
        };
        match self.to_time() {
            Ok(time) => Ok(PrimitiveDateTime::new(date, time)),
            Err(error) => Err(error),
        }
    }

    /// The date and time with an offset that the fields name.
    pub fn to_offset_date_time(&self) -> (date_time: Result<OffsetDateTime, Error>)
        ensures
            match date_time {
                Ok(date_time) => self.spec_to_offset_date_time() == Ok::<
                    OffsetDateTime,
                    ErrorView,
                >(date_time) && date_time.wf(),
                Err(error) => self.spec_to_offset_date_time() == Err::<OffsetDateTime, ErrorView>(
                    error@,
                ),
            },
    {
        let local = match self.to_primitive_date_time() {
            Ok(local) => local,
            Err(error) => {
                return Err(error);
            },
        };
        match self.to_offset() {
            Ok(offset) => Ok(OffsetDateTime::new(local, offset)),
            Err(error) => Err(error),
        }
    }
}

/// The most digits that a component reads: nine for the fraction of a
/// second, and the width of the field for the others.
pub open spec fn spec_most_digits(component: Component) -> nat {
    if component is Subsecond {
        9
    } else {
        spec_width(component)
    }
}

/// The digits that were counted are digits, they lie within the input, and
/// the count stops at the limit, at the end of the input or before a byte
/// that is no digit.
pub proof fn lemma_count_digits(input: Seq<u8>, at: int, limit: nat)
    requires
        0 <= at <= input.len(),
    ensures
        spec_count_digits(input, at, limit) <= limit,
        at + spec_count_digits(input, at, limit) <= input.len(),
        forall|i: int|
            at <= i < at + spec_count_digits(input, at, limit) ==> spec_is_digit(
                #[trigger] input[i],
            ),
        spec_count_digits(input, at, limit) < limit && at + spec_count_digits(input, at, limit)
            < input.len() ==> !spec_is_digit(input[at + spec_count_digits(input, at, limit)]),
    decreases limit,
{
    if limit > 0 && at < input.len() && spec_is_digit(input[at]) {
        lemma_count_digits(input, at + 1, (limit - 1) as nat);
    }
}

/// Powers of ten multiply by adding their exponents.
pub proof fn lemma_pow10_adds(first: nat, second: nat)
    ensures
        spec_pow10(first) * spec_pow10(second) == spec_pow10(first + second),
        spec_pow10(first) >= 1,
    decreases first,
{
    if first > 0 {
        lemma_pow10_adds((first - 1) as nat, second);
        let a = spec_pow10((first - 1) as nat);
        let b = spec_pow10(second);
        assert(spec_pow10(first) == 10 * a);
        assert(spec_pow10(first + second) == 10 * spec_pow10((first - 1 + second) as nat));
        assert((10 * a) * b == 10 * (a * b)) by (nonlinear_arith);
    } else {
        assert(1 * spec_pow10(second) == spec_pow10(second)) by (nonlinear_arith);
    }
}

/// How many digits follow one another from `at` on, counted up to `limit`.
fn count_digits(input: &[u8], at: usize, limit: u8) -> (count: u8)
    requires
        at <= input@.len(),
    ensures
        count == spec_count_digits(input@, at as int, limit as nat),
        count <= limit,
        at + count <= input@.len() <= usize::MAX,
        forall|i: int| at <= i < at + count ==> spec_is_digit(#[trigger] input@[i]),
{
    let mut count: u8 = 0;
    let left: usize = input.len() - at;
    while count < limit && (count as usize) < left && is_digit(input[at + count as usize])
        invariant
            count <= limit,
            left == input@.len() - at,
            at + count <= input@.len() <= usize::MAX,
            spec_count_digits(input@, at as int, limit as nat) == count + spec_count_digits(
                input@,
                at + count,
                (limit - count) as nat,
            ),
            forall|i: int| at <= i < at + count ==> spec_is_digit(#[trigger] input@[i]),
        decreases limit - count,
    {
        count = count + 1;
    }
    count
}

/// How many blanks follow one another from `at` on, counted up to `limit`.
fn count_blanks(input: &[u8], at: usize, limit: u8) -> (count: u8)
    requires
        at <= input@.len(),
    ensures
        count == spec_count_blanks(input@, at as int, limit as nat),
        count <= limit,
        at + count <= input@.len() <= usize::MAX,
{
    let mut count: u8 = 0;
    let left: usize = input.len() - at;
    while count < limit && (count as usize) < left && input[at + count as usize] == BLANK
        invariant
            count <= limit,
            left == input@.len() - at,
            at + count <= input@.len() <= usize::MAX,
            spec_count_blanks(input@, at as int, limit as nat) == count + spec_count_blanks(
                input@,
                at + count,
                (limit - count) as nat,
            ),
        decreases limit - count,
    {
        count = count + 1;
    }
    count
}

/// The number that the digits from `from` up to `to` stand for.
fn digits_value(input: &[u8], from: usize, to: usize) -> (value: u32)
    requires
        from <= to <= input@.len(),
        to - from <= 9,
        forall|i: int| from <= i < to ==> spec_is_digit(#[trigger] input@[i]),
    ensures
        value == spec_digits_value(input@.subrange(from as int, to as int)),
        value < spec_pow10((to - from) as nat),
        value <= 999_999_999,
{
    proof {
        reveal_with_fuel(spec_pow10, 11);
    }
    let mut value: u32 = 0;
    let mut at: usize = from;
    while at < to
        invariant
            from <= at <= to <= input@.len(),
            to - from <= 9,
            forall|i: int| from <= i < to ==> spec_is_digit(#[trigger] input@[i]),
            value == spec_digits_value(input@.subrange(from as int, at as int)),
            value < spec_pow10((at - from) as nat),
        decreases to - at,
    {
        proof {
            reveal_with_fuel(spec_pow10, 11);
            assert(input@.subrange(from as int, at + 1).drop_last() =~= input@.subrange(
                from as int,
                at as int,
            ));
        }
        value = value * 10 + (input[at] - 48) as u32;
        at = at + 1;
    }
    value
}

/// The number that stands at `at` in a field `width` wide, and where the
/// text goes on after it.
pub fn parse_number(input: &[u8], at: usize, width: u8, padding: Padding) -> (found: Option<
    (u32, usize),
>)
    requires
        at <= input@.len(),
        width <= 9,
    ensures
        match found {
            Some((value, next)) => spec_parse_number(input@, at as int, width as nat, padding)
                == Some((value as nat, next as int)) && at <= next <= input@.len() && value
                < spec_pow10(width as nat),
            None => spec_parse_number(input@, at as int, width as nat, padding) is None,
        },
{
    proof {
        reveal_with_fuel(spec_pow10, 11);
    }
    if width == 0 {
        return match padding {
            Padding::Zero => None,
            Padding::Space => None,
            Padding::Unpadded => None,
        };
    }
    match padding {
        Padding::Zero => {
            if count_digits(input, at, width) == width {
                Some((digits_value(input, at, at + width as usize), at + width as usize))
            } else {
                None
            }
        },
        Padding::Space => {
            let blanks: u8 = count_blanks(input, at, width - 1);
            let start: usize = at + blanks as usize;
            let digits: u8 = width - blanks;
            if count_digits(input, start, digits) == digits {
                let value: u32 = digits_value(input, start, start + digits as usize);
                proof {
                    lemma_pow10_grows(digits as nat, width as nat);
                }
                Some((value, start + digits as usize))
            } else {
                None
            }
        },
        Padding::Unpadded => {
            let count: u8 = count_digits(input, at, width);
            if count >= 1 {
                let value: u32 = digits_value(input, at, at + count as usize);
                proof {
                    lemma_pow10_grows(count as nat, width as nat);
                }
                Some((value, at + count as usize))
            } else {
                None
            }
        },
    }
}

/// A larger exponent gives a power of ten that is no smaller.
pub proof fn lemma_pow10_grows(smaller: nat, larger: nat)
    requires
        smaller <= larger,
    ensures
        spec_pow10(smaller) <= spec_pow10(larger),
    decreases larger,
{
    if smaller < larger {
        lemma_pow10_grows(smaller, (larger - 1) as nat);
    }
}

/// The sign that stands at `at`, as whether it is a minus, and where the
/// text goes on after it.
pub fn parse_sign(input: &[u8], at: usize, mandatory: bool) -> (found: Option<(bool, usize)>)
    requires
        at <= input@.len(),
    ensures
        match found {
            Some((negative, next)) => spec_parse_sign(input@, at as int, mandatory) == Some(
                (negative, next as int),
            ) && at <= next <= input@.len(),
            None => spec_parse_sign(input@, at as int, mandatory) is None,
        },
{
    if at < input.len() && input[at] == MINUS_SIGN {
        Some((true, at + 1))
    } else if at < input.len() && input[at] == PLUS_SIGN {
        Some((false, at + 1))
    } else if mandatory {
        None
    } else {
        Some((false, at))
    }
}

/// The number that a component reads at `at`: whether it carries a minus,
/// its magnitude, and where the text goes on after it.
pub fn read_field(component: Component, input: &[u8], at: usize) -> (found: Option<
    (bool, u32, usize),
>)
    requires
        at <= input@.len(),
        component.wf(),
    ensures
        match found {
            Some((negative, magnitude, next)) => spec_read_field(component, input@, at as int)
                == Some((negative, magnitude as nat, next as int)) && at <= next <= input@.len()
                && magnitude < spec_pow10(spec_most_digits(component)),
            None => spec_read_field(component, input@, at as int) is None,
        },
{
    match component {
        Component::Period { .. } => None,
        Component::Subsecond { digits } => {
            let count: u8 = match digits {
                SubsecondDigits::Exactly(count) => count,
                SubsecondDigits::OneOrMore => count_digits(input, at, 9),
            };
            match parse_number(input, at, count, Padding::Zero) {
                Some((value, next)) => {
                    let scale: u32 = pow10(9 - count);
                    proof {
                        lemma_pow10_adds(count as nat, (9 - count) as nat);
                        assert(value * scale < spec_pow10(count as nat) * scale)
                            by (nonlinear_arith)
                            requires
                                value < spec_pow10(count as nat),
                                scale >= 1,
                        ;
                        reveal_with_fuel(spec_pow10, 11);
                    }
                    Some((false, value * scale, next))
                },
                None => None,
            }
        },
        _ => {
            let sign: Option<(bool, usize)> = match component {
                Component::Year { .. } => parse_sign(input, at, sign_is_mandatory(component)),
                Component::OffsetHour { .. } => parse_sign(
                    input,
                    at,
                    sign_is_mandatory(component),
                ),
                _ => Some((false, at)),
            };
            match sign {
                Some((negative, after)) => match parse_number(
                    input,
                    after,
                    width(component),
                    padding(component),
                ) {
                    Some((value, next)) => Some((negative, value, next)),
                    None => None,
                },
                None => None,
            }
        },
    }
}

/// The fields with the number of one component put in its place.
pub fn store(parsed: Parsed, component: Component, negative: bool, magnitude: u32) -> (stored:
    Option<Parsed>)
    requires
        magnitude < spec_pow10(spec_most_digits(component)),
    ensures
        stored == spec_store(parsed, component, negative, magnitude as nat),
{
    proof {
        reveal_with_fuel(spec_pow10, 11);
    }
    match component {
        Component::Day { .. } => Some(Parsed { day: Some(magnitude as u8), ..parsed }),
        Component::Month { .. } => Some(Parsed { month: Some(magnitude as u8), ..parsed }),
        Component::Ordinal { .. } => Some(Parsed { ordinal: Some(magnitude as u16), ..parsed }),
        Component::Weekday { from_sunday, one_indexed } => {
            let first: u32 = if one_indexed {
                1
            } else {
                0
            };
            if magnitude < first || magnitude - first > 6 {
                None
            } else {
                let number: u8 = (magnitude - first) as u8;
                let weekday = if from_sunday {
                    Weekday::from_number_days_from_sunday(number)
                } else {
                    Weekday::from_number_days_from_monday(number)
                };
                Some(Parsed { weekday: Some(weekday), ..parsed })
            }
        },
        Component::WeekNumber { repr, .. } => match repr {
            WeekNumberRepr::Iso => Some(Parsed { iso_week: Some(magnitude as u8), ..parsed }),
            WeekNumberRepr::Sunday => Some(
                Parsed { sunday_week: Some(magnitude as u8), ..parsed },
            ),
            WeekNumberRepr::Monday => Some(
                Parsed { monday_week: Some(magnitude as u8), ..parsed },
            ),
        },
        Component::Year { iso_week_based, .. } => {
            let year: i32 = if negative {
                -(magnitude as i32)
            } else {
                magnitude as i32
            };
            if iso_week_based {
                Some(Parsed { iso_year: Some(year), ..parsed })
            } else {
                Some(Parsed { year: Some(year), ..parsed })
            }
        },
        Component::Hour { is_12_hour_clock, .. } => {
            if !is_12_hour_clock {
                Some(Parsed { hour_24: Some(magnitude as u8), ..parsed })
            } else if 1 <= magnitude && magnitude <= 12 {
                Some(Parsed { hour_12: Some(magnitude as u8), ..parsed })
            } else {
                None
            }
        },
        Component::Minute { .. } => Some(Parsed { minute: Some(magnitude as u8), ..parsed }),
        Component::Second { .. } => Some(Parsed { second: Some(magnitude as u8), ..parsed }),
        Component::Subsecond { .. } => Some(Parsed { nanosecond: Some(magnitude), ..parsed }),
        Component::OffsetHour { .. } => Some(
            Parsed {
                offset_is_negative: Some(negative),
                offset_hour: Some(magnitude as u8),
                ..parsed
            },
        ),
        Component::OffsetMinute { .. } => Some(
            Parsed { offset_minute: Some(magnitude as u8), ..parsed },
        ),
        Component::OffsetSecond { .. } => Some(
            Parsed { offset_second: Some(magnitude as u8), ..parsed },
        ),
        Component::Period { .. } => None,
    }
}

/// Whether the given text stands in the input at `at`.
pub fn stands_at(input: &[u8], at: usize, text: &[u8]) -> (stands: bool)
    requires
        at <= input@.len(),
    ensures
        stands == (at + text@.len() <= input@.len() && input@.subrange(
            at as int,
            at + text@.len(),
        ) == text@),
        input@.len() <= usize::MAX,
{
    if text.len() > input.len() - at {
        return false;
    }
    let mut done: usize = 0;
    while done < text.len()
        invariant
            done <= text@.len(),
            at + text@.len() <= input@.len() <= usize::MAX,
            forall|i: int| 0 <= i < done ==> input@[at + i] == text@[i],
        decreases text@.len() - done,
    {
        if input[at + done] != text[done] {
            assert(input@.subrange(at as int, at + text@.len())[done as int] != text@[done as int]);
            return false;
        }
        done = done + 1;
    }
    assert(input@.subrange(at as int, at + text@.len()) =~= text@);
    true
}

/// Which half of the day the marker at `at` names, if one stands there.
fn parse_period(input: &[u8], at: usize, uppercase: bool) -> (afternoon: Option<bool>)
    requires
        at <= input@.len(),
    ensures
        afternoon == (if at + 2 <= input@.len() && input@.subrange(at as int, at + 2)
            == spec_period(false, uppercase) {
            Some(false)
        } else if at + 2 <= input@.len() && input@.subrange(at as int, at + 2) == spec_period(
            true,
            uppercase,
        ) {
            Some(true)
        } else {
            None
        }),
        afternoon is Some ==> at + 2 <= input@.len() <= usize::MAX,
{
    if input.len() - at < 2 {
        return None;
    }
    let first: u8 = input[at];
    let second: u8 = input[at + 1];
    let letter_m: u8 = if uppercase {
        77
    } else {
        109
    };
    let letter_a: u8 = if uppercase {
        65
    } else {
        97
    };
    let letter_p: u8 = if uppercase {
        80
    } else {
        112
    };
    proof {
        let read = input@.subrange(at as int, at + 2);
        assert(read[0] == first && read[1] == second);
        assert(read =~= seq![first, second]);
        assert(spec_period(false, uppercase) =~= seq![letter_a, letter_m]);
        assert(spec_period(true, uppercase) =~= seq![letter_p, letter_m]);
        assert(seq![first, second] == seq![letter_a, letter_m] ==> seq![first, second][0]
            == letter_a && seq![first, second][1] == letter_m);
        assert(seq![first, second] == seq![letter_p, letter_m] ==> seq![first, second][0]
            == letter_p && seq![first, second][1] == letter_m);
        if first == letter_a && second == letter_m {
            assert(seq![first, second] =~= seq![letter_a, letter_m]);
        }
        if first == letter_p && second == letter_m {
            assert(seq![first, second] =~= seq![letter_p, letter_m]);
        }
    }
    if second != letter_m {
        None
    } else if first == letter_a {
        Some(false)
    } else if first == letter_p {
        Some(true)
    } else {
        None
    }
}

/// Reads one component at `at` into the fields.
pub fn parse_component(parsed: Parsed, component: Component, input: &[u8], at: usize) -> (read:
    Result<(Parsed, usize), IntermediateParse>)
    requires
        at <= input@.len(),
        component.wf(),
    ensures
        match read {
            Ok((stored, next)) => spec_parse_component(parsed, component, input@, at as int)
                == Ok::<(Parsed, int), IntermediateParse>((stored, next as int)) && at <= next
                <= input@.len(),
            Err(error) => spec_parse_component(parsed, component, input@, at as int) == Err::<
                (Parsed, int),
                IntermediateParse,
            >(error),
        },
{
    match component {
        Component::Period { is_uppercase } => match parse_period(input, at, is_uppercase) {
            Some(afternoon) => Ok((Parsed { is_afternoon: Some(afternoon), ..parsed }, at + 2)),
            None => Err(IntermediateParse::InvalidComponent("period")),
        },
        _ => match read_field(component, input, at) {
            Some((negative, magnitude, next)) => match store(
                parsed,
                component,
                negative,
                magnitude,
            ) {
                Some(stored) => Ok((stored, next)),
                None => Err(IntermediateParse::InvalidComponent(component.name())),
            },
            None => Err(IntermediateParse::InvalidComponent(component.name())),
        },
    }
}

/// Carries out the instructions of a description on the input, from its
/// beginning, and gives the fields that were read and the place where the
/// last instruction left off.
pub fn parse_items(input: &[u8], description: &FormatDescription) -> (read: Result<
    (Parsed, usize),
    IntermediateParse,
>)
    requires
        description.wf(),
    ensures
        match read {
            Ok((parsed, end)) => spec_parse_from(description@, 0, input@, 0, Parsed::spec_empty())
                == Ok::<(Parsed, int), IntermediateParse>((parsed, end as int)) && end
                <= input@.len(),
            Err(error) => spec_parse_from(description@, 0, input@, 0, Parsed::spec_empty())
                == Err::<(Parsed, int), IntermediateParse>(error),
        },
{
    let mut parsed: Parsed = Parsed::empty();
    let mut at: usize = 0;
    let mut done: usize = 0;
    let count: usize = description.len();
    while done < count
        invariant
            done <= count,
            count == description@.len(),
            description.wf(),
            at <= input@.len(),
            spec_parse_from(description@, 0, input@, 0, Parsed::spec_empty()) == spec_parse_from(
                description@,
                done as int,
                input@,
                at as int,
                parsed,
            ),
        decreases count - done,
    {
        match description.item(done) {
            FormatItem::Literal(text) => {
                if !stands_at(input, at, text.as_slice()) {
                    return Err(IntermediateParse::InvalidLiteral);
                }
                at = at + text.len();
            },
            FormatItem::Component(component) => {
                assert(description@[done as int] is Component);
                match parse_component(parsed, *component, input, at) {
                    Ok((stored, next)) => {
                        parsed = stored;
                        at = next;
                    },
                    Err(error) => {
                        return Err(error);
                    },
                }
            },
        }
        done = done + 1;
    }
    Ok((parsed, at))
}

/// Reads the fields that the description names from a text that the
/// description matches from beginning to end.
pub fn parse(input: &[u8], description: &FormatDescription) -> (parsed: Result<Parsed, Error>)
    requires
        description.wf(),
    ensures
        match parsed {
            Ok(parsed) => spec_parse(description@, input@) == Ok::<Parsed, ErrorView>(parsed),
            Err(error) => spec_parse(description@, input@) == Err::<Parsed, ErrorView>(error@),
        },
{
    match parse_items(input, description) {
        Ok((parsed, end)) => {
            if end == input.len() {
                Ok(parsed)
            } else {
                Err(Error::UnexpectedTrailingCharacters)
            }
        },
        Err(error) => Err(Error::IntermediateParse(error)),
    }
}

/// What a description given by its source reads from a text: the source is
/// compiled first, and what keeps it from being compiled is the error.
pub open spec fn spec_parse_from_source(source: Seq<u8>, input: Seq<u8>) -> Result<
    Parsed,
    ErrorView,
> {
    match crate::format_description::parse::spec_compile(source) {
        Ok(items) => spec_parse(items, input),
        Err(error) => Err(ErrorView::InvalidFormatDescription(error)),
    }
}

/// Reads the fields that a description names from a text, for a
/// description given by its source.
pub fn parse_from_source(input: &[u8], source: &[u8]) -> (parsed: Result<Parsed, Error>)
    ensures
        match parsed {
            Ok(parsed) => spec_parse_from_source(source@, input@) == Ok::<Parsed, ErrorView>(
                parsed,
            ),
            Err(error) => spec_parse_from_source(source@, input@) == Err::<Parsed, ErrorView>(
                error@,
            ),
        },
{
    match crate::format_description::parse::parse(source) {
        Ok(description) => parse(input, &description),
        Err(error) => Err(Error::InvalidFormatDescription(error)),
    }
}

/// The date that a description reads from a text.
pub open spec fn spec_parse_date(items: Seq<ItemView>, input: Seq<u8>) -> Result<Date, ErrorView> {
    match spec_parse(items, input) {
        Ok(parsed) => parsed.spec_to_date(),
        Err(error) => Err(error),
    }
}

/// The time that a description reads from a text.
pub open spec fn spec_parse_time(items: Seq<ItemView>, input: Seq<u8>) -> Result<Time, ErrorView> {
    match spec_parse(items, input) {
        Ok(parsed) => parsed.spec_to_time(),
        Err(error) => Err(error),
    }
}

/// The offset that a description reads from a text.
pub open spec fn spec_parse_offset(items: Seq<ItemView>, input: Seq<u8>) -> Result<
    UtcOffset,
    ErrorView,
> {
    match spec_parse(items, input) {
        Ok(parsed) => parsed.spec_to_offset(),
        Err(error) => Err(error),
    }
}

/// The date and time that a description reads from a text.
pub open spec fn spec_parse_primitive_date_time(items: Seq<ItemView>, input: Seq<u8>) -> Result<
    PrimitiveDateTime,
    ErrorView,
> {
    match spec_parse(items, input) {
        Ok(parsed) => parsed.spec_to_primitive_date_time(),
        Err(error) => Err(error),
    }
}

/// The date and time with an offset that a description reads from a text.
pub open spec fn spec_parse_offset_date_time(items: Seq<ItemView>, input: Seq<u8>) -> Result<
    OffsetDateTime,
    ErrorView,
> {
    match spec_parse(items, input) {
        Ok(parsed) => parsed.spec_to_offset_date_time(),
        Err(error) => Err(error),
    }
}

impl Date {
    /// Reads a date from a text as the description says.
    pub fn parse(input: &[u8], description: &FormatDescription) -> (date: Result<Date, Error>)
        requires
            description.wf(),
        ensures
            match date {
                Ok(date) => spec_parse_date(description@, input@) == Ok::<Date, ErrorView>(date)
                    && date.wf(),
                Err(error) => spec_parse_date(description@, input@) == Err::<Date, ErrorView>(
                    error@,
                ),
            },
    {
        match parse(input, description) {
            Ok(parsed) => parsed.to_date(),
            Err(error) => Err(error),
        }
    }
}

impl Time {
    /// Reads a time from a text as the description says.
    pub fn parse(input: &[u8], description: &FormatDescription) -> (time: Result<Time, Error>)
        requires
            description.wf(),
        ensures
            match time {
                Ok(time) => spec_parse_time(description@, input@) == Ok::<Time, ErrorView>(time)
                    && time.wf(),
                Err(error) => spec_parse_time(description@, input@) == Err::<Time, ErrorView>(
                    error@,
                ),
            },
    {
        match parse(input, description) {
            Ok(parsed) => parsed.to_time(),
            Err(error) => Err(error),
        }
    }
}

impl UtcOffset {
    /// Reads an offset from a text as the description says.
    pub fn parse(input: &[u8], description: &FormatDescription) -> (offset: Result<
        UtcOffset,
        Error,
    >)
        requires
            description.wf(),
        ensures
            match offset {
                Ok(offset) => spec_parse_offset(description@, input@) == Ok::<
                    UtcOffset,
                    ErrorView,
                >(offset) && offset.wf(),
                Err(error) => spec_parse_offset(description@, input@) == Err::<
                    UtcOffset,
                    ErrorView,
                >(error@),
            },
    {
        match parse(input, description) {
            Ok(parsed) => parsed.to_offset(),
            Err(error) => Err(error),
        }
    }
}

impl PrimitiveDateTime {
    /// Reads a date and time from a text as the description says.
    pub fn parse(input: &[u8], description: &FormatDescription) -> (date_time: Result<
        PrimitiveDateTime,
        Error,
    >)
        requires
            description.wf(),
        ensures
            match date_time {
                Ok(date_time) => spec_parse_primitive_date_time(description@, input@) == Ok::<
                    PrimitiveDateTime,
                    ErrorView,
                >(date_time) && date_time.wf(),
                Err(error) => spec_parse_primitive_date_time(description@, input@) == Err::<
                    PrimitiveDateTime,
                    ErrorView,
                >(error@),
            },
    {
        match parse(input, description) {
            Ok(parsed) => parsed.to_primitive_date_time(),
            Err(error) => Err(error),
        }
    }
}

impl OffsetDateTime {
    /// Reads a date and time with an offset from a text as the description
    /// says.
    pub fn parse(input: &[u8], description: &FormatDescription) -> (date_time: Result<
        OffsetDateTime,
        Error,
    >)
        requires
            description.wf(),
        ensures
            match date_time {
                Ok(date_time) => spec_parse_offset_date_time(description@, input@) == Ok::<
                    OffsetDateTime,
                    ErrorView,
                >(date_time) && date_time.wf(),
                Err(error) => spec_parse_offset_date_time(description@, input@) == Err::<
                    OffsetDateTime,
                    ErrorView,
                >(error@),
            },
    {
        match parse(input, description) {
            Ok(parsed) => parsed.to_offset_date_time(),
            Err(error) => Err(error),
        }
    }
}

} // verus!
