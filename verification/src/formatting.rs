//! Writing a date, a time and an offset as a format description says.

use vstd::prelude::*;
use crate::bytes::{push_bytes, BLANK, DIGIT_ZERO, MINUS_SIGN, PLUS_SIGN};
use crate::date::Date;
use crate::format_description::component::{Component, Padding, SubsecondDigits, WeekNumberRepr};
use crate::format_description::{FormatDescription, FormatItem, ItemView};
use crate::offset_date_time::OffsetDateTime;
use crate::primitive_date_time::PrimitiveDateTime;
use crate::time::Time;
use crate::utc_offset::UtcOffset;

verus! {

/// The decimal digits of a number, without leading zeros.
pub open spec fn spec_digits(value: nat) -> Seq<u8>
    decreases value,
{
    if value < 10 {
        seq![(48 + value) as u8]
    } else {
        spec_digits(value / 10).push((48 + value % 10) as u8)
    }
}

/// What stands before a number of `length` digits in a field `width` wide.
pub open spec fn spec_fill(length: nat, width: nat, padding: Padding) -> Seq<u8> {
    let missing = if length < width {
        width - length
    } else {
        0
    };
    match padding {
        Padding::Zero => Seq::new(missing as nat, |i: int| 48u8),
        Padding::Space => Seq::new(missing as nat, |i: int| 32u8),
        Padding::Unpadded => Seq::empty(),
    }
}

/// A number as it is written in a field `width` wide: its digits, filled up
/// in front where they are fewer than the field is wide. A number with more
/// digits is written in full.
pub open spec fn spec_number(value: nat, width: nat, padding: Padding) -> Seq<u8> {
    spec_fill(spec_digits(value).len(), width, padding) + spec_digits(value)
}

/// The sign of a value: a minus where it is negative, and a plus otherwise
/// where the sign is written always.
pub open spec fn spec_sign(negative: bool, mandatory: bool) -> Seq<u8> {
    if negative {
        seq![45u8]
    } else if mandatory {
        seq![43u8]
    } else {
        Seq::empty()
    }
}

/// The magnitude of an integer.
pub open spec fn spec_abs(value: int) -> nat {
    if value < 0 {
        (-value) as nat
    } else {
        value as nat
    }
}

/// Ten to the given power.
pub open spec fn spec_pow10(exponent: nat) -> nat
    decreases exponent,
{
    if exponent == 0 {
        1
    } else {
        10 * spec_pow10((exponent - 1) as nat)
    }
}

/// The least count of fraction digits, from `count` on and up to nine, that
/// writes the nanoseconds in full.
pub open spec fn spec_fraction_width(nanoseconds: nat, count: nat) -> nat
    decreases 9 - count,
{
    if count >= 9 || nanoseconds % spec_pow10((9 - count) as nat) == 0 {
        count
    } else {
        spec_fraction_width(nanoseconds, count + 1)
    }
}

/// The fraction of a second: the first `count` of the nine digits of the
/// nanoseconds.
pub open spec fn spec_fraction(nanoseconds: nat, count: nat) -> Seq<u8> {
    spec_number(nanoseconds / spec_pow10((9 - count) as nat), count, Padding::Zero)
}

/// The hour as a clock of 12 hours shows it: from 1 to 12.
pub open spec fn spec_hour_12(hour: int) -> int {
    (hour + 11) % 12 + 1
}

/// The marker of the half of the day: AM before noon and PM from noon on.
pub open spec fn spec_period(afternoon: bool, uppercase: bool) -> Seq<u8> {
    if uppercase {
        if afternoon {
            seq![80u8, 77u8]
        } else {
            seq![65u8, 77u8]
        }
    } else {
        if afternoon {
            seq![112u8, 109u8]
        } else {
            seq![97u8, 109u8]
        }
    }
}

/// The number of a weekday, counted from Monday or from Sunday, and from 0
/// or from 1.
pub open spec fn spec_weekday_number(index: int, from_sunday: bool, one_indexed: bool) -> int {
    (if from_sunday {
        (index + 1) % 7
    } else {
        index
    }) + (if one_indexed {
        1int
    } else {
        0int
    })
}

/// How many digits wide the field of a component is. The fraction of a
/// second is as wide as its count of digits says, and is not listed here
/// where that count depends on the value.
pub open spec fn spec_width(component: Component) -> nat {
    match component {
        Component::Ordinal { .. } => 3,
        Component::Weekday { .. } => 1,
        Component::Year { .. } => 4,
        Component::Period { .. } => 0,
        Component::Subsecond { digits: SubsecondDigits::Exactly(count) } => count as nat,
        Component::Subsecond { digits: SubsecondDigits::OneOrMore } => 0,
        _ => 2,
    }
}

/// How the field of a component is filled up.
pub open spec fn spec_padding(component: Component) -> Padding {
    match component {
        Component::Day { padding } => padding,
        Component::Month { padding } => padding,
        Component::Ordinal { padding } => padding,
        Component::WeekNumber { padding, .. } => padding,
        Component::Year { padding, .. } => padding,
        Component::Hour { padding, .. } => padding,
        Component::Minute { padding } => padding,
        Component::Second { padding } => padding,
        Component::OffsetHour { padding, .. } => padding,
        Component::OffsetMinute { padding } => padding,
        Component::OffsetSecond { padding } => padding,
        Component::Subsecond { .. } => Padding::Zero,
        Component::Weekday { .. } => Padding::Unpadded,
        Component::Period { .. } => Padding::Unpadded,
    }
}

/// Whether a component is written with a sign also where it is not
/// negative.
pub open spec fn spec_sign_is_mandatory(component: Component) -> bool {
    match component {
        Component::Year { sign_is_mandatory, .. } => sign_is_mandatory,
        Component::OffsetHour { sign_is_mandatory, .. } => sign_is_mandatory,
        _ => false,
    }
}

/// A number as a component writes it: the sign, then the magnitude in the
/// component's field.
pub open spec fn spec_field(component: Component, negative: bool, magnitude: nat) -> Seq<u8> {
    spec_sign(negative, spec_sign_is_mandatory(component)) + spec_number(
        magnitude,
        spec_width(component),
        spec_padding(component),
    )
}

/// The number that a component of a date stands for.
pub open spec fn spec_date_value(component: Component, date: Date) -> int {
    match component {
        Component::Day { .. } => date.spec_day(),
        Component::Month { .. } => date.spec_month(),
        Component::Ordinal { .. } => date.spec_ordinal(),
        Component::Weekday { from_sunday, one_indexed } => spec_weekday_number(
            date.spec_weekday().spec_index(),
            from_sunday,
            one_indexed,
        ),
        Component::WeekNumber { repr, .. } => match repr {
            WeekNumberRepr::Iso => date.spec_iso_week(),
            WeekNumberRepr::Sunday => date.spec_sunday_based_week(),
            WeekNumberRepr::Monday => date.spec_monday_based_week(),
        },
        Component::Year { iso_week_based, .. } => if iso_week_based {
            date.spec_iso_year()
        } else {
            date.spec_year()
        },
        _ => 0,
    }
}

/// The number that a component of a time stands for, but for the fraction
/// of a second and the marker of the half of the day.
pub open spec fn spec_time_value(component: Component, time: Time) -> int {
    match component {
        Component::Hour { is_12_hour_clock, .. } => if is_12_hour_clock {
            spec_hour_12(time.spec_hour())
        } else {
            time.spec_hour()
        },
        Component::Minute { .. } => time.spec_minute(),
        Component::Second { .. } => time.spec_second(),
        _ => 0,
    }
}

/// The number that a component of an offset stands for, with the sign of
/// the offset.
pub open spec fn spec_offset_value(component: Component, offset: UtcOffset) -> int {
    match component {
        Component::OffsetHour { .. } => offset.spec_whole_hours(),
        Component::OffsetMinute { .. } => offset.spec_minutes_past_hour(),
        Component::OffsetSecond { .. } => offset.spec_seconds_past_minute(),
        _ => 0,
    }
}

/// A component of a date as it is written.
pub open spec fn spec_format_date_component(component: Component, date: Date) -> Seq<u8> {
    spec_field(
        component,
        spec_date_value(component, date) < 0,
        spec_abs(spec_date_value(component, date)),
    )
}

/// A component of a time as it is written.
pub open spec fn spec_format_time_component(component: Component, time: Time) -> Seq<u8> {
    match component {
        Component::Period { is_uppercase } => spec_period(time.spec_hour() >= 12, is_uppercase),
        Component::Subsecond { digits } => match digits {
            SubsecondDigits::Exactly(count) => spec_fraction(
                time.spec_nanosecond() as nat,
                count as nat,
            ),
            SubsecondDigits::OneOrMore => spec_fraction(
                time.spec_nanosecond() as nat,
                spec_fraction_width(time.spec_nanosecond() as nat, 1),
            ),
        },
        _ => spec_field(component, false, spec_abs(spec_time_value(component, time))),
    }
}

/// A component of an offset as it is written. The hours carry the sign of
/// the offset, also where they are zero; the minutes and the seconds are
/// written without a sign.
pub open spec fn spec_format_offset_component(component: Component, offset: UtcOffset) -> Seq<
    u8,
> {
    spec_field(
        component,
        component is OffsetHour && offset@ < 0,
        spec_abs(spec_offset_value(component, offset)),
    )
}

/// Whether the component is a field of a date.
pub open spec fn spec_is_date_component(component: Component) -> bool {
    component is Day || component is Month || component is Ordinal || component is Weekday
        || component is WeekNumber || component is Year
}

/// Whether the component is a field of a time.
pub open spec fn spec_is_time_component(component: Component) -> bool {
    component is Hour || component is Minute || component is Period || component is Second
        || component is Subsecond
}

/// A component as it is written, or `None` where the value that holds it is
/// not there.
pub open spec fn spec_format_component(
    component: Component,
    date: Option<Date>,
    time: Option<Time>,
    offset: Option<UtcOffset>,
) -> Option<Seq<u8>> {
    if spec_is_date_component(component) {
        match date {
            Some(date) => Some(spec_format_date_component(component, date)),
            None => None,
        }
    } else if spec_is_time_component(component) {
        match time {
            Some(time) => Some(spec_format_time_component(component, time)),
            None => None,
        }
    } else {
        match offset {
            Some(offset) => Some(spec_format_offset_component(component, offset)),
            None => None,
        }
    }
}

/// One instruction as it is carried out: text is written as it stands.
pub open spec fn spec_format_item(
    item: ItemView,
    date: Option<Date>,
    time: Option<Time>,
    offset: Option<UtcOffset>,
) -> Option<Seq<u8>> {
    match item {
        ItemView::Literal(text) => Some(text),
        ItemView::Component(component) => spec_format_component(component, date, time, offset),
    }
}

/// What the instructions from `from` on write, one after the other, or
/// `None` where one of them names a field of a value that is not there.
pub open spec fn spec_format_from(
    items: Seq<ItemView>,
    from: int,
    date: Option<Date>,
    time: Option<Time>,
    offset: Option<UtcOffset>,
) -> Option<Seq<u8>>
    decreases items.len() - from,
{
    if from < 0 || from >= items.len() {
        Some(Seq::empty())
    } else {
        match spec_format_item(items[from], date, time, offset) {
            Some(text) => match spec_format_from(items, from + 1, date, time, offset) {
                Some(rest) => Some(text + rest),
                None => None,
            },
            None => None,
        }
    }
}

/// What a description writes for the given values.
pub open spec fn spec_format(
    items: Seq<ItemView>,
    date: Option<Date>,
    time: Option<Time>,
    offset: Option<UtcOffset>,
) -> Option<Seq<u8>> {
    spec_format_from(items, 0, date, time, offset)
}

/// What is written in all once `written` is there and `rest` follows.
pub open spec fn spec_written_then(written: Seq<u8>, rest: Option<Seq<u8>>) -> Option<Seq<u8>> {
    match rest {
        Some(rest) => Some(written + rest),
        None => None,
    }
}

/// A description writes something exactly where none of its instructions
/// needs a value that is not there.
pub proof fn lemma_format_is_total(
    items: Seq<ItemView>,
    from: int,
    date: Option<Date>,
    time: Option<Time>,
    offset: Option<UtcOffset>,
)
    requires
        0 <= from,
    ensures
        spec_format_from(items, from, date, time, offset) is Some <==> forall|i: int|
            from <= i < items.len() ==> (#[trigger] spec_format_item(
                items[i],
                date,
                time,
                offset,
            )) is Some,
    decreases items.len() - from,
{
    if from < items.len() {
        lemma_format_is_total(items, from + 1, date, time, offset);
    }
}

/// With a date, a time and an offset at hand every description writes
/// something.
pub proof fn lemma_format_with_all_parts(
    items: Seq<ItemView>,
    date: Date,
    time: Time,
    offset: UtcOffset,
)
    ensures
        spec_format(items, Some(date), Some(time), Some(offset)) is Some,
{
    lemma_format_is_total(items, 0, Some(date), Some(time), Some(offset));
}

/// Ten to the given power, up to the ninth.
pub fn pow10(exponent: u8) -> (power: u32)
    requires
        exponent <= 9,
    ensures
        power == spec_pow10(exponent as nat),
        1 <= power <= 1_000_000_000,
{
    proof {
        reveal_with_fuel(spec_pow10, 11);
    }
    let mut power: u32 = 1;
    let mut done: u8 = 0;
    while done < exponent
        invariant
            done <= exponent <= 9,
            power == spec_pow10(done as nat),
            power <= 1_000_000_000,
            done < 9 ==> power <= 100_000_000,
        decreases exponent - done,
    {
        proof {
            reveal_with_fuel(spec_pow10, 11);
        }
        power = power * 10;
        done = done + 1;
    }
    power
}

/// Appends a number as it is written in a field `width` wide.
pub fn push_number(out: &mut Vec<u8>, value: u32, width: u8, padding: Padding)
    ensures
        final(out)@ == old(out)@ + spec_number(value as nat, width as nat, padding),
{
    let mut reversed: Vec<u8> = Vec::new();
    let mut rest: u32 = value;
    let ghost mut tail: Seq<u8> = Seq::empty();
    loop
        invariant_except_break
            spec_digits(value as nat) == spec_digits(rest as nat) + tail,
        invariant
            tail.len() == reversed@.len(),
            forall|k: int| 0 <= k < tail.len() ==> tail[k] == reversed@[tail.len() - 1 - k],
        ensures
            spec_digits(value as nat) == tail,
        decreases rest,
    {
        let digit: u8 = (rest % 10) as u8;
        let ghost before = tail;
        proof {
            tail = seq![(48 + digit) as u8] + before;
        }
        reversed.push(DIGIT_ZERO + digit);
        if rest < 10 {
            proof {
                assert(spec_digits(rest as nat) + before =~= tail);
            }
            break ;
        }
        proof {
            assert(spec_digits(rest as nat) + before =~= spec_digits((rest / 10) as nat) + tail);
        }
        rest = rest / 10;
    }
    let length: usize = reversed.len();
    let fill: u8 = match padding {
        Padding::Zero => DIGIT_ZERO,
        Padding::Space => BLANK,
        Padding::Unpadded => 0,
    };
    let missing: usize = match padding {
        Padding::Unpadded => 0,
        _ => if length < width as usize {
            width as usize - length
        } else {
            0
        },
    };
    let mut filled: usize = 0;
    while filled < missing
        invariant
            filled <= missing,
            out@ == old(out)@ + Seq::new(filled as nat, |i: int| fill),
        decreases missing - filled,
    {
        out.push(fill);
        proof {
            assert(Seq::new(filled as nat, |i: int| fill).push(fill) =~= Seq::new(
                (filled + 1) as nat,
                |i: int| fill,
            ));
        }
        filled = filled + 1;
    }
    proof {
        assert(Seq::new(missing as nat, |i: int| fill) =~= spec_fill(
            tail.len(),
            width as nat,
            padding,
        ));
    }
    let ghost padded = out@;
    let mut left: usize = length;
    while left > 0
        invariant
            left <= length,
            length == reversed@.len(),
            tail.len() == length,
            forall|k: int| 0 <= k < tail.len() ==> tail[k] == reversed@[tail.len() - 1 - k],
            out@ == padded + tail.subrange(0, length - left),
        decreases left,
    {
        left = left - 1;
        out.push(reversed[left]);
        proof {
            assert(tail.subrange(0, length - left - 1).push(reversed@[left as int])
                =~= tail.subrange(0, length - left));
        }
    }
    proof {
        assert(tail.subrange(0, length as int) =~= tail);
        assert(old(out)@ + spec_fill(tail.len(), width as nat, padding) + tail =~= old(out)@ + (
        spec_fill(tail.len(), width as nat, padding) + tail));
    }
}

/// Appends the sign of a value.
pub fn push_sign(out: &mut Vec<u8>, negative: bool, mandatory: bool)
    ensures
        final(out)@ == old(out)@ + spec_sign(negative, mandatory),
{
    if negative {
        out.push(MINUS_SIGN);
        assert(out@ =~= old(out)@ + spec_sign(negative, mandatory));
    } else if mandatory {
        out.push(PLUS_SIGN);
        assert(out@ =~= old(out)@ + spec_sign(negative, mandatory));
    } else {
        assert(out@ =~= old(out)@ + spec_sign(negative, mandatory));
    }
}

/// The magnitude of a number.
pub fn magnitude(value: i32) -> (size: u32)
    ensures
        size == spec_abs(value as int),
{
    if value < 0 {
        (-(value as i64)) as u32
    } else {
        value as u32
    }
}

/// How many digits wide the field of a component is.
pub fn width(component: Component) -> (width: u8)
    ensures
        width == spec_width(component),
{
    match component {
        Component::Ordinal { .. } => 3,
        Component::Weekday { .. } => 1,
        Component::Year { .. } => 4,
        Component::Period { .. } => 0,
        Component::Subsecond { digits: SubsecondDigits::Exactly(count) } => count,
        Component::Subsecond { digits: SubsecondDigits::OneOrMore } => 0,
        _ => 2,
    }
}

/// How the field of a component is filled up.
pub fn padding(component: Component) -> (padding: Padding)
    ensures
        padding == spec_padding(component),
{
    match component {
        Component::Day { padding } => padding,
        Component::Month { padding } => padding,
        Component::Ordinal { padding } => padding,
        Component::WeekNumber { padding, .. } => padding,
        Component::Year { padding, .. } => padding,
        Component::Hour { padding, .. } => padding,
        Component::Minute { padding } => padding,
        Component::Second { padding } => padding,
        Component::OffsetHour { padding, .. } => padding,
        Component::OffsetMinute { padding } => padding,
        Component::OffsetSecond { padding } => padding,
        Component::Subsecond { .. } => Padding::Zero,
        Component::Weekday { .. } => Padding::Unpadded,
        Component::Period { .. } => Padding::Unpadded,
    }
}

/// Whether a component is written with a sign also where it is not
/// negative.
pub fn sign_is_mandatory(component: Component) -> (mandatory: bool)
    ensures
        mandatory == spec_sign_is_mandatory(component),
{
    match component {
        Component::Year { sign_is_mandatory, .. } => sign_is_mandatory,
        Component::OffsetHour { sign_is_mandatory, .. } => sign_is_mandatory,
        _ => false,
    }
}

/// Appends a number as a component writes it.
pub fn push_field(out: &mut Vec<u8>, component: Component, negative: bool, magnitude: u32)
    ensures
        final(out)@ == old(out)@ + spec_field(component, negative, magnitude as nat),
{
    push_sign(out, negative, sign_is_mandatory(component));
    push_number(out, magnitude, width(component), padding(component));
    proof {
        let sign = spec_sign(negative, spec_sign_is_mandatory(component));
        let number = spec_number(magnitude as nat, spec_width(component), spec_padding(component));
        assert(old(out)@ + sign + number =~= old(out)@ + (sign + number));
    }
}

/// The number that a component of a date stands for.
pub fn date_value(component: Component, date: Date) -> (value: i32)
    requires
        date.wf(),
    ensures
        value == spec_date_value(component, date),
{
    match component {
        Component::Day { .. } => date.day() as i32,
        Component::Month { .. } => date.month() as i32,
        Component::Ordinal { .. } => date.ordinal() as i32,
        Component::Weekday { from_sunday, one_indexed } => {
            let weekday = date.weekday();
            let index: u8 = if from_sunday {
                weekday.number_days_from_sunday()
            } else {
                weekday.number_days_from_monday()
            };
            if one_indexed {
                index as i32 + 1
            } else {
                index as i32
            }
        },
        Component::WeekNumber { repr, .. } => match repr {
            WeekNumberRepr::Iso => date.iso_week() as i32,
            WeekNumberRepr::Sunday => date.sunday_based_week() as i32,
            WeekNumberRepr::Monday => date.monday_based_week() as i32,
        },
        Component::Year { iso_week_based, .. } => if iso_week_based {
            date.iso_year_week().0
        } else {
            date.year()
        },
        _ => 0,
    }
}

/// The number that a component of a time stands for, but for the fraction
/// of a second and the marker of the half of the day.
pub fn time_value(component: Component, time: Time) -> (value: u8)
    requires
        time.wf(),
    ensures
        value == spec_time_value(component, time),
{
    match component {
        Component::Hour { is_12_hour_clock, .. } => {
            let hour: u8 = time.hour();
            if is_12_hour_clock {
                (hour + 11) % 12 + 1
            } else {
                hour
            }
        },
        Component::Minute { .. } => time.minute(),
        Component::Second { .. } => time.second(),
        _ => 0,
    }
}

/// The number that a component of an offset stands for, with the sign of
/// the offset.
pub fn offset_value(component: Component, offset: UtcOffset) -> (value: i8)
    requires
        offset.wf(),
    ensures
        value == spec_offset_value(component, offset),
{
    match component {
        Component::OffsetHour { .. } => offset.whole_hours(),
        Component::OffsetMinute { .. } => offset.minutes_past_hour(),
        Component::OffsetSecond { .. } => offset.seconds_past_minute(),
        _ => 0,
    }
}

/// Appends a component of a date as it is written.
pub fn format_date_component(out: &mut Vec<u8>, component: Component, date: Date)
    requires
        date.wf(),
    ensures
        final(out)@ == old(out)@ + spec_format_date_component(component, date),
{
    let value: i32 = date_value(component, date);
    push_field(out, component, value < 0, magnitude(value));
}

/// Appends the fraction of a second with the given count of digits.
fn push_fraction(out: &mut Vec<u8>, nanoseconds: u32, count: u8)
    requires
        1 <= count <= 9,
    ensures
        final(out)@ == old(out)@ + spec_fraction(nanoseconds as nat, count as nat),
{
    push_number(out, nanoseconds / pow10(9 - count), count, Padding::Zero);
}

/// The least count of fraction digits that writes the nanoseconds in full.
pub fn fraction_width(nanoseconds: u32) -> (count: u8)
    ensures
        count == spec_fraction_width(nanoseconds as nat, 1),
        1 <= count <= 9,
{
    let mut count: u8 = 1;
    while count < 9 && nanoseconds % pow10(9 - count) != 0
        invariant
            1 <= count <= 9,
            spec_fraction_width(nanoseconds as nat, 1) == spec_fraction_width(
                nanoseconds as nat,
                count as nat,
            ),
        decreases 9 - count,
    {
        count = count + 1;
    }
    count
}

/// Appends the marker of the half of the day.
fn push_period(out: &mut Vec<u8>, afternoon: bool, uppercase: bool)
    ensures
        final(out)@ == old(out)@ + spec_period(afternoon, uppercase),
{
    let first: u8 = if uppercase {
        if afternoon {
            80
        } else {
            65
        }
    } else {
        if afternoon {
            112
        } else {
            97
        }
    };
    let second: u8 = if uppercase {
        77
    } else {
        109
    };
    out.push(first);
    out.push(second);
    assert(out@ =~= old(out)@ + spec_period(afternoon, uppercase));
}

/// Appends a component of a time as it is written.
pub fn format_time_component(out: &mut Vec<u8>, component: Component, time: Time)
    requires
        time.wf(),
        component.wf(),
    ensures
        final(out)@ == old(out)@ + spec_format_time_component(component, time),
{
    match component {
        Component::Period { is_uppercase } => push_period(out, time.hour() >= 12, is_uppercase),
        Component::Subsecond { digits } => {
            let nanoseconds: u32 = time.nanosecond();
            match digits {
                SubsecondDigits::Exactly(count) => push_fraction(out, nanoseconds, count),
                SubsecondDigits::OneOrMore => push_fraction(
                    out,
                    nanoseconds,
                    fraction_width(nanoseconds),
                ),
            }
        },
        _ => push_field(out, component, false, time_value(component, time) as u32),
    }
}

/// Appends a component of an offset as it is written.
pub fn format_offset_component(out: &mut Vec<u8>, component: Component, offset: UtcOffset)
    requires
        offset.wf(),
    ensures
        final(out)@ == old(out)@ + spec_format_offset_component(component, offset),
{
    let value: i8 = offset_value(component, offset);
    let negative: bool = match component {
        Component::OffsetHour { .. } => offset.is_negative(),
        _ => false,
    };
    push_field(out, component, negative, magnitude(value as i32));
}

/// Whether the component is a field of a date.
pub fn is_date_component(component: Component) -> (is_date: bool)
    ensures
        is_date == spec_is_date_component(component),
{
    match component {
        Component::Day { .. } => true,
        Component::Month { .. } => true,
        Component::Ordinal { .. } => true,
        Component::Weekday { .. } => true,
        Component::WeekNumber { .. } => true,
        Component::Year { .. } => true,
        _ => false,
    }
}

/// Whether the component is a field of a time.
pub fn is_time_component(component: Component) -> (is_time: bool)
    ensures
        is_time == spec_is_time_component(component),
{
    match component {
        Component::Hour { .. } => true,
        Component::Minute { .. } => true,
        Component::Period { .. } => true,
        Component::Second { .. } => true,
        Component::Subsecond { .. } => true,
        _ => false,
    }
}

/// Appends one component as it is written, and says whether the value that
/// holds it was there. Nothing is appended where it was not.
pub fn format_component(
    out: &mut Vec<u8>,
    component: Component,
    date: Option<Date>,
    time: Option<Time>,
    offset: Option<UtcOffset>,
) -> (written: bool)
    requires
        component.wf(),
        date is Some ==> date->0.wf(),
        time is Some ==> time->0.wf(),
        offset is Some ==> offset->0.wf(),
    ensures
        written == spec_format_component(component, date, time, offset) is Some,
        written ==> final(out)@ == old(out)@ + spec_format_component(
            component,
            date,
            time,
            offset,
        )->0,
        !written ==> final(out)@ == old(out)@,
{
    if is_date_component(component) {
        match date {
            Some(date) => {
                format_date_component(out, component, date);
                true
            },
            None => false,
        }
    } else if is_time_component(component) {
        match time {
            Some(time) => {
                format_time_component(out, component, time);
                true
            },
            None => false,
        }
    } else {
        match offset {
            Some(offset) => {
                format_offset_component(out, component, offset);
                true
            },
            None => false,
        }
    }
}

/// Writes the values as the description says. `None` where the description
/// names a field of a value that is not there.
pub fn format(
    description: &FormatDescription,
    date: Option<Date>,
    time: Option<Time>,
    offset: Option<UtcOffset>,
) -> (text: Option<Vec<u8>>)
    requires
        description.wf(),
        date is Some ==> date->0.wf(),
        time is Some ==> time->0.wf(),
        offset is Some ==> offset->0.wf(),
    ensures
        match text {
            Some(text) => spec_format(description@, date, time, offset) == Some(text@),
            None => spec_format(description@, date, time, offset) is None,
        },
{
    let mut out: Vec<u8> = Vec::new();
    let mut at: usize = 0;
    let count: usize = description.len();
    while at < count
        invariant
            at <= count,
            count == description@.len(),
            description.wf(),
            date is Some ==> date->0.wf(),
            time is Some ==> time->0.wf(),
            offset is Some ==> offset->0.wf(),
            spec_format(description@, date, time, offset) == spec_written_then(
                out@,
                spec_format_from(description@, at as int, date, time, offset),
            ),
        decreases count - at,
    {
        let ghost before = out@;
        let ghost rest = spec_format_from(description@, at + 1, date, time, offset);
        match description.item(at) {
            FormatItem::Literal(text) => {
                push_bytes(&mut out, text.as_slice());
                proof {
                    if rest is Some {
                        assert(before + (text@ + rest->0) =~= out@ + rest->0);
                    }
                }
            },
            FormatItem::Component(component) => {
                assert(description@[at as int] is Component);
                if !format_component(&mut out, *component, date, time, offset) {
                    return None;
                }
                proof {
                    let written = spec_format_component(*component, date, time, offset)->0;
                    if rest is Some {
                        assert(before + (written + rest->0) =~= out@ + rest->0);
                    }
                }
            },
        }
        at = at + 1;
    }
    proof {
        assert(out@ + Seq::<u8>::empty() =~= out@);
    }
    Some(out)
}

impl Date {
    /// The date as the description says. `None` where the description names
    /// a field of a time or of an offset.
    pub fn format(self, description: &FormatDescription) -> (text: Option<Vec<u8>>)
        requires
            self.wf(),
            description.wf(),
        ensures
            match text {
                Some(text) => spec_format(description@, Some(self), None, None) == Some(text@),
                None => spec_format(description@, Some(self), None, None) is None,
            },
    {
        format(description, Some(self), None, None)
    }
}

impl Time {
    /// The time as the description says. `None` where the description names
    /// a field of a date or of an offset.
    pub fn format(self, description: &FormatDescription) -> (text: Option<Vec<u8>>)
        requires
            self.wf(),
            description.wf(),
        ensures
            match text {
                Some(text) => spec_format(description@, None, Some(self), None) == Some(text@),
                None => spec_format(description@, None, Some(self), None) is None,
            },
    {
        format(description, None, Some(self), None)
    }
}

impl PrimitiveDateTime {
    /// The date and time as the description says. `None` where the
    /// description names a field of an offset.
    pub fn format(self, description: &FormatDescription) -> (text: Option<Vec<u8>>)
        requires
            self.wf(),
            description.wf(),
        ensures
            match text {
                Some(text) => spec_format(
                    description@,
                    Some(self.spec_date()),
                    Some(self.spec_time()),
                    None,
                ) == Some(text@),
                None => spec_format(
                    description@,
                    Some(self.spec_date()),
                    Some(self.spec_time()),
                    None,
                ) is None,
            },
    {
        format(description, Some(self.date()), Some(self.time()), None)
    }
}

impl OffsetDateTime {
    /// What the clock shows, and its offset, as the description says. Every
    /// description can be carried out.
    pub fn format(self, description: &FormatDescription) -> (text: Vec<u8>)
        requires
            self.wf(),
            description.wf(),
        ensures
            spec_format(
                description@,
                Some(self.spec_local().spec_date()),
                Some(self.spec_local().spec_time()),
                Some(self.spec_offset()),
            ) == Some(text@),
    {
        proof {
            lemma_format_with_all_parts(
                description@,
                self.spec_local().spec_date(),
                self.spec_local().spec_time(),
                self.spec_offset(),
            );
        }
        match format(description, Some(self.date()), Some(self.time()), Some(self.offset())) {
            Some(text) => text,
            None => vstd::pervasive::unreached(),
        }
    }
}

} // verus!
