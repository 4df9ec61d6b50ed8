//! What is written is read back: the proofs that reading undoes writing.

use vstd::prelude::*;
use crate::bytes::spec_is_digit;
use crate::date::Date;
use crate::error::intermediate_parse::IntermediateParse;
use crate::error::ErrorView;
use crate::format_description::component::{Component, Padding, SubsecondDigits, WeekNumberRepr};
use crate::format_description::well_known::{spec_iso_date, spec_rfc3339};
use crate::format_description::{spec_items_wf, ItemView};
use crate::formatting::{
    lemma_format_is_total, spec_abs, spec_date_value, spec_digits, spec_field, spec_fill,
    spec_format, spec_format_component, spec_format_from, spec_format_item, spec_fraction,
    spec_fraction_width, spec_hour_12, spec_is_date_component, spec_is_time_component,
    spec_number, spec_offset_value, spec_padding, spec_period, spec_pow10, spec_sign,
    spec_sign_is_mandatory, spec_time_value, spec_weekday_number, spec_width,
};
use crate::offset_date_time::OffsetDateTime;
use crate::parsing::{
    lemma_count_digits, lemma_pow10_adds, spec_count_blanks, spec_count_digits,
    spec_digits_value, spec_has_sign, spec_parse, spec_parse_component, spec_parse_date,
    spec_parse_from, spec_parse_item, spec_parse_number, spec_parse_offset,
    spec_parse_offset_date_time, spec_parse_sign, spec_parse_time, spec_read_field, spec_store,
    Parsed,
};
use crate::primitive_date_time::PrimitiveDateTime;
use crate::time::Time;
use crate::utc_offset::UtcOffset;
use crate::weekday::{spec_weekday_from_index, Weekday};

verus! {

/// The digits of a number are digits, there is at least one of them, and
/// they stand for the number.
pub proof fn lemma_digits(value: nat)
    ensures
        spec_digits(value).len() >= 1,
        forall|i: int| 0 <= i < spec_digits(value).len() ==> spec_is_digit(
            #[trigger] spec_digits(value)[i],
        ),
        spec_digits_value(spec_digits(value)) == value,
    decreases value,
{
    if value >= 10 {
        lemma_digits(value / 10);
        let front = spec_digits(value / 10);
        let all = front.push((48 + value % 10) as u8);
        assert(all.drop_last() =~= front);
    } else {
        let all = seq![(48 + value) as u8];
        assert(all.drop_last() =~= Seq::<u8>::empty());
        assert(spec_digits_value(all.drop_last()) == 0);
    }
}

/// A number below a power of ten has no more digits than the exponent says.
pub proof fn lemma_digits_fit(value: nat, width: nat)
    requires
        width >= 1,
        value < spec_pow10(width),
    ensures
        spec_digits(value).len() <= width,
    decreases width,
{
    if value >= 10 {
        if width == 1 {
            reveal_with_fuel(spec_pow10, 3);
        } else {
            lemma_digits_fit(value / 10, (width - 1) as nat);
        }
    }
}

/// A run of digits that ends at the limit, at the end of the input or
/// before a byte that is no digit is counted in full.
pub proof fn lemma_count_digits_run(input: Seq<u8>, at: int, run: nat, limit: nat)
    requires
        0 <= at,
        at + run <= input.len(),
        run <= limit,
        forall|i: int| at <= i < at + run ==> spec_is_digit(#[trigger] input[i]),
        run == limit || at + run == input.len() || !spec_is_digit(input[at + run]),
    ensures
        spec_count_digits(input, at, limit) == run,
    decreases run,
{
    if run > 0 {
        assert(spec_is_digit(input[at]));
        lemma_count_digits_run(input, at + 1, (run - 1) as nat, (limit - 1) as nat);
    }
}

/// A run of blanks that ends at the limit or before a byte that is no blank
/// is counted in full.
pub proof fn lemma_count_blanks_run(input: Seq<u8>, at: int, run: nat, limit: nat)
    requires
        0 <= at,
        at + run <= input.len(),
        run <= limit,
        forall|i: int| at <= i < at + run ==> #[trigger] input[i] == 32,
        run == limit || at + run == input.len() || input[at + run] != 32,
    ensures
        spec_count_blanks(input, at, limit) == run,
    decreases run,
{
    if run > 0 {
        assert(input[at] == 32);
        lemma_count_blanks_run(input, at + 1, (run - 1) as nat, (limit - 1) as nat);
    }
}

/// Zeros in front of a run of digits do not change the number it stands
/// for.
pub proof fn lemma_leading_zeros(zeros: nat, digits: Seq<u8>)
    ensures
        spec_digits_value(Seq::new(zeros, |i: int| 48u8) + digits) == spec_digits_value(digits),
    decreases digits.len(), zeros,
{
    let front = Seq::new(zeros, |i: int| 48u8);
    if digits.len() > 0 {
        lemma_leading_zeros(zeros, digits.drop_last());
        assert((front + digits).drop_last() =~= front + digits.drop_last());
    } else if zeros > 0 {
        let fewer = Seq::new((zeros - 1) as nat, |i: int| 48u8);
        lemma_leading_zeros((zeros - 1) as nat, digits);
        assert((front + digits).drop_last() =~= fewer + digits);
        assert((front + digits).last() == 48u8);
    } else {
        assert(front + digits =~= Seq::<u8>::empty());
    }
}

/// A number that was written in a field is read back from it, and the
/// reading stops where the writing stopped. Where the field is not padded,
/// this takes that no digit follows, unless the field is full.
pub proof fn lemma_number_is_read_back(
    input: Seq<u8>,
    at: int,
    value: nat,
    width: nat,
    padding: Padding,
)
    requires
        0 <= at,
        width >= 1,
        value < spec_pow10(width),
        at + spec_number(value, width, padding).len() <= input.len(),
        input.subrange(at, at + spec_number(value, width, padding).len()) == spec_number(
            value,
            width,
            padding,
        ),
        padding is Unpadded ==> spec_digits(value).len() == width || at + spec_digits(value).len()
            == input.len() || !spec_is_digit(input[at + spec_digits(value).len()]),
    ensures
        spec_parse_number(input, at, width, padding) == Some(
            (value, at + spec_number(value, width, padding).len()),
        ),
{
    let digits = spec_digits(value);
    let fill = spec_fill(digits.len(), width, padding);
    let text = spec_number(value, width, padding);
    let end = at + text.len();
    lemma_digits(value);
    lemma_digits_fit(value, width);
    assert(forall|i: int| 0 <= i < text.len() ==> input[at + i] == #[trigger] text[i]) by {
        assert forall|i: int| 0 <= i < text.len() implies input[at + i] == #[trigger] text[i] by {
            assert(input.subrange(at, end)[i] == input[at + i]);
        }
    }
    assert(forall|i: int| 0 <= i < digits.len() ==> text[fill.len() + i] == #[trigger] digits[i]);
    match padding {
        Padding::Zero => {
            assert(text.len() == width);
            assert forall|i: int| at <= i < at + width implies spec_is_digit(
                #[trigger] input[i],
            ) by {
                let k = i - at;
                assert(input[at + k] == text[k]);
                if k >= fill.len() {
                    assert(text[fill.len() + (k - fill.len())] == digits[k - fill.len()]);
                }
            }
            lemma_count_digits_run(input, at, width, width);
            lemma_leading_zeros(fill.len(), digits);
            assert(fill =~= Seq::new(fill.len(), |i: int| 48u8));
        },
        Padding::Space => {
            assert(text.len() == width);
            let blanks = fill.len();
            assert forall|i: int| at <= i < at + blanks implies #[trigger] input[i] == 32 by {
                let k = i - at;
                assert(input[at + k] == text[k]);
            }
            assert(input[at + blanks] == text[blanks as int]);
            assert(text[fill.len() + 0int] == digits[0]);
            assert(spec_is_digit(digits[0]));
            lemma_count_blanks_run(input, at, blanks, (width - 1) as nat);
            assert forall|i: int| at + blanks <= i < at + width implies spec_is_digit(
                #[trigger] input[i],
            ) by {
                let k = i - at;
                assert(input[at + k] == text[k]);
                assert(text[fill.len() + (k - fill.len())] == digits[k - fill.len()]);
            }
            lemma_count_digits_run(
                input,
                at + blanks,
                (width - blanks) as nat,
                (width - blanks) as nat,
            );
            assert(input.subrange(at + blanks, at + width) =~= digits);
        },
        Padding::Unpadded => {
            assert(fill.len() == 0);
            assert(text =~= digits);
            assert forall|i: int| at <= i < at + digits.len() implies spec_is_digit(
                #[trigger] input[i],
            ) by {
                let k = i - at;
                assert(input[at + k] == text[k]);
            }
            lemma_count_digits_run(input, at, digits.len(), width);
        },
    }
}

/// A sign that was written is read back, where what follows it is no sign
/// itself.
pub proof fn lemma_sign_is_read_back(input: Seq<u8>, at: int, negative: bool, mandatory: bool)
    requires
        0 <= at,
        at + spec_sign(negative, mandatory).len() <= input.len(),
        input.subrange(at, at + spec_sign(negative, mandatory).len()) == spec_sign(
            negative,
            mandatory,
        ),
        spec_sign(negative, mandatory).len() == 0 ==> at < input.len() && input[at] != 45
            && input[at] != 43,
    ensures
        spec_parse_sign(input, at, mandatory) == Some(
            (negative, at + spec_sign(negative, mandatory).len()),
        ),
{
    let sign = spec_sign(negative, mandatory);
    if sign.len() > 0 {
        assert(input.subrange(at, at + sign.len())[0] == input[at]);
    }
}

/// Whether what a component writes can have more or fewer digits from one
/// value to the next, so that only what follows shows where it ends.
pub open spec fn spec_is_open_ended(component: Component) -> bool {
    (spec_padding(component) is Unpadded && spec_width(component) > 1) || component
        == (Component::Subsecond { digits: SubsecondDigits::OneOrMore })
}

/// A signed number that a component wrote is read back by it. Where the
/// component writes as many digits as the number has, this takes that no
/// digit follows.
pub proof fn lemma_field_is_read_back(
    component: Component,
    input: Seq<u8>,
    at: int,
    negative: bool,
    magnitude: nat,
)
    requires
        !(component is Period),
        !(component is Subsecond),
        0 <= at,
        magnitude < spec_pow10(spec_width(component)),
        negative ==> spec_has_sign(component),
        at + spec_field(component, negative, magnitude).len() <= input.len(),
        input.subrange(at, at + spec_field(component, negative, magnitude).len()) == spec_field(
            component,
            negative,
            magnitude,
        ),
        spec_is_open_ended(component) ==> at + spec_field(component, negative, magnitude).len()
            == input.len() || !spec_is_digit(
            input[at + spec_field(component, negative, magnitude).len()],
        ),
    ensures
        spec_read_field(component, input, at) == Some(
            (negative, magnitude, at + spec_field(component, negative, magnitude).len()),
        ),
{
    let width = spec_width(component);
    let padding = spec_padding(component);
    let mandatory = spec_sign_is_mandatory(component);
    let sign = spec_sign(negative, mandatory);
    let number = spec_number(magnitude, width, padding);
    let text = spec_field(component, negative, magnitude);
    let after = at + sign.len();
    lemma_digits(magnitude);
    assert(text =~= sign + number);
    assert(number.len() >= 1);
    assert forall|i: int| 0 <= i < text.len() implies input[at + i] == #[trigger] text[i] by {
        assert(input.subrange(at, at + text.len())[i] == input[at + i]);
    }
    assert(input.subrange(after, after + number.len()) =~= number) by {
        assert forall|i: int| 0 <= i < number.len() implies input[after + i] == number[i] by {
            assert(input[at + (sign.len() + i)] == text[sign.len() + i]);
        }
    }
    assert(input.subrange(at, at + sign.len()) =~= sign) by {
        assert forall|i: int| 0 <= i < sign.len() implies input[at + i] == sign[i] by {
            assert(input[at + i] == text[i]);
        }
    }
    let first = number[0];
    assert(first == 48 || first == 32 || spec_is_digit(first)) by {
        let fill = spec_fill(spec_digits(magnitude).len(), width, padding);
        if fill.len() > 0 {
            assert(number[0] == fill[0]);
        } else {
            assert(number[0] == spec_digits(magnitude)[0]);
        }
    }
    assert(input[after] == first) by {
        assert(input[at + (sign.len() + 0)] == text[sign.len() + 0int]);
    }
    if spec_has_sign(component) {
        lemma_sign_is_read_back(input, at, negative, mandatory);
    } else {
        assert(sign.len() == 0);
    }
    assert(width >= 1);
    if padding is Unpadded {
        assert(number =~= spec_digits(magnitude));
        if width == 1 {
            lemma_digits_fit(magnitude, 1);
        }
    }
    lemma_number_is_read_back(input, after, magnitude, width, padding);
}

/// The least count of fraction digits that writes the nanoseconds in full
/// does so, and lies between the count it starts from and nine.
pub proof fn lemma_fraction_width(nanoseconds: nat, count: nat)
    requires
        1 <= count <= 9,
    ensures
        count <= spec_fraction_width(nanoseconds, count) <= 9,
        nanoseconds % spec_pow10((9 - spec_fraction_width(nanoseconds, count)) as nat) == 0,
    decreases 9 - count,
{
    if count >= 9 {
        reveal_with_fuel(spec_pow10, 2);
    } else if nanoseconds % spec_pow10((9 - count) as nat) != 0 {
        lemma_fraction_width(nanoseconds, count + 1);
    }
}

/// With `count` digits the fraction of a second is a number below the
/// `count`-th power of ten, and it stands for the nanoseconds where these
/// need no more digits.
pub proof fn lemma_fraction_value(nanoseconds: nat, count: nat)
    requires
        1 <= count <= 9,
        nanoseconds < 1_000_000_000,
    ensures
        nanoseconds / spec_pow10((9 - count) as nat) < spec_pow10(count),
        nanoseconds % spec_pow10((9 - count) as nat) == 0 ==> (nanoseconds / spec_pow10(
            (9 - count) as nat,
        )) * spec_pow10((9 - count) as nat) == nanoseconds,
{
    let scale = spec_pow10((9 - count) as nat);
    let top = spec_pow10(count);
    lemma_pow10_adds(count, (9 - count) as nat);
    lemma_pow10_adds((9 - count) as nat, 0);
    reveal_with_fuel(spec_pow10, 11);
    assert(spec_pow10(9) == 1_000_000_000);
    assert(top * scale == 1_000_000_000);
    vstd::arithmetic::div_mod::lemma_fundamental_div_mod(nanoseconds as int, scale as int);
    let quotient = nanoseconds / scale;
    assert(quotient < top) by (nonlinear_arith)
        requires
            nanoseconds == scale * quotient + nanoseconds % scale,
            0 <= nanoseconds % scale,
            nanoseconds < top * scale,
            scale >= 1,
    ;
    if nanoseconds % scale == 0 {
        assert(quotient * scale == nanoseconds) by (nonlinear_arith)
            requires
                nanoseconds == scale * quotient + nanoseconds % scale,
                nanoseconds % scale == 0,
        ;
    }
}

/// A fraction of a second that was written with enough digits is read back
/// as the nanoseconds. Where as many digits are written as the value needs,
/// this takes that no digit follows.
pub proof fn lemma_fraction_is_read_back(
    digits: SubsecondDigits,
    input: Seq<u8>,
    at: int,
    nanoseconds: nat,
)
    requires
        0 <= at,
        nanoseconds < 1_000_000_000,
        (Component::Subsecond { digits }).wf(),
        ({
            let count = match digits {
                SubsecondDigits::Exactly(count) => count as nat,
                SubsecondDigits::OneOrMore => spec_fraction_width(nanoseconds, 1),
            };
            &&& nanoseconds % spec_pow10((9 - count) as nat) == 0
            &&& at + spec_fraction(nanoseconds, count).len() <= input.len()
            &&& input.subrange(at, at + spec_fraction(nanoseconds, count).len()) == spec_fraction(
                nanoseconds,
                count,
            )
            &&& digits is OneOrMore ==> at + spec_fraction(nanoseconds, count).len() == input.len()
                || !spec_is_digit(input[at + spec_fraction(nanoseconds, count).len()])
        }),
    ensures
        ({
            let count = match digits {
                SubsecondDigits::Exactly(count) => count as nat,
                SubsecondDigits::OneOrMore => spec_fraction_width(nanoseconds, 1),
            };
            spec_read_field(Component::Subsecond { digits }, input, at) == Some(
                (false, nanoseconds, at + spec_fraction(nanoseconds, count).len()),
            )
        }),
{
    let count = match digits {
        SubsecondDigits::Exactly(count) => count as nat,
        SubsecondDigits::OneOrMore => spec_fraction_width(nanoseconds, 1),
    };
    lemma_fraction_width(nanoseconds, 1);
    lemma_fraction_value(nanoseconds, count);
    let value = nanoseconds / spec_pow10((9 - count) as nat);
    let text = spec_fraction(nanoseconds, count);
    lemma_digits(value);
    lemma_digits_fit(value, count);
    assert(text.len() == count);
    lemma_number_is_read_back(input, at, value, count, Padding::Zero);
    if digits is OneOrMore {
        assert forall|i: int| at <= i < at + count implies spec_is_digit(#[trigger] input[i]) by {
            lemma_count_digits(input, at, count);
        }
        lemma_count_digits_run(input, at, count, 9);
    }
}

/// The fields after a component of the given values has been put in its
/// place.
pub open spec fn spec_record(
    parsed: Parsed,
    component: Component,
    date: Date,
    time: Time,
    offset: UtcOffset,
) -> Parsed {
    match component {
        Component::Day { .. } => Parsed { day: Some(date.spec_day() as u8), ..parsed },
        Component::Month { .. } => Parsed { month: Some(date.spec_month() as u8), ..parsed },
        Component::Ordinal { .. } => Parsed { ordinal: Some(date.spec_ordinal() as u16), ..parsed },
        Component::Weekday { .. } => Parsed { weekday: Some(date.spec_weekday()), ..parsed },
        Component::WeekNumber { repr, .. } => match repr {
            WeekNumberRepr::Iso => Parsed { iso_week: Some(date.spec_iso_week() as u8), ..parsed },
            WeekNumberRepr::Sunday => Parsed {
                sunday_week: Some(date.spec_sunday_based_week() as u8),
                ..parsed
            },
            WeekNumberRepr::Monday => Parsed {
                monday_week: Some(date.spec_monday_based_week() as u8),
                ..parsed
            },
        },
        Component::Year { iso_week_based, .. } => if iso_week_based {
            Parsed { iso_year: Some(date.spec_iso_year() as i32), ..parsed }
        } else {
            Parsed { year: Some(date.spec_year() as i32), ..parsed }
        },
        Component::Hour { is_12_hour_clock, .. } => if is_12_hour_clock {
            Parsed { hour_12: Some(spec_hour_12(time.spec_hour()) as u8), ..parsed }
        } else {
            Parsed { hour_24: Some(time.spec_hour() as u8), ..parsed }
        },
        Component::Minute { .. } => Parsed { minute: Some(time.spec_minute() as u8), ..parsed },
        Component::Period { .. } => Parsed {
            is_afternoon: Some(time.spec_hour() >= 12),
            ..parsed
        },
        Component::Second { .. } => Parsed { second: Some(time.spec_second() as u8), ..parsed },
        Component::Subsecond { .. } => Parsed {
            nanosecond: Some(time.spec_nanosecond() as u32),
            ..parsed
        },
        Component::OffsetHour { .. } => Parsed {
            offset_is_negative: Some(offset@ < 0),
            offset_hour: Some(spec_abs(offset.spec_whole_hours()) as u8),
            ..parsed
        },
        Component::OffsetMinute { .. } => Parsed {
            offset_minute: Some(spec_abs(offset.spec_minutes_past_hour()) as u8),
            ..parsed
        },
        Component::OffsetSecond { .. } => Parsed {
            offset_second: Some(spec_abs(offset.spec_seconds_past_minute()) as u8),
            ..parsed
        },
    }
}

/// Whether a minus stands before what a component writes for the given
/// values.
pub open spec fn spec_is_negative(component: Component, date: Date, offset: UtcOffset) -> bool {
    match component {
        Component::Year { .. } => spec_date_value(component, date) < 0,
        Component::OffsetHour { .. } => offset@ < 0,
        _ => false,
    }
}

/// The magnitude of the number that a component writes for the given
/// values; for the fraction of a second, the nanoseconds.
pub open spec fn spec_magnitude(component: Component, date: Date, time: Time, offset: UtcOffset)
    -> nat {
    if component is Subsecond {
        time.spec_nanosecond() as nat
    } else if spec_is_date_component(component) {
        spec_abs(spec_date_value(component, date))
    } else if spec_is_time_component(component) {
        spec_abs(spec_time_value(component, time))
    } else {
        spec_abs(spec_offset_value(component, offset))
    }
}

/// The range of the number that a component of a date stands for.
pub open spec fn spec_date_value_in_range(component: Component, value: int) -> bool {
    match component {
        Component::Day { .. } => 1 <= value <= 31,
        Component::Month { .. } => 1 <= value <= 12,
        Component::Ordinal { .. } => 1 <= value <= 366,
        Component::Weekday { one_indexed, .. } => if one_indexed {
            1 <= value <= 7
        } else {
            0 <= value <= 6
        },
        Component::WeekNumber { .. } => 0 <= value <= 53,
        Component::Year { .. } => -9999 <= value <= 9999,
        _ => true,
    }
}

/// The number that a component of a date stands for lies in the
/// component's range.
pub proof fn lemma_date_value_in_range(component: Component, date: Date)
    requires
        date.wf(),
    ensures
        spec_date_value_in_range(component, spec_date_value(component, date)),
{
    match component {
        Component::Day { .. } => {
            date.lemma_calendar_fields();
        },
        Component::Month { .. } => {
            date.lemma_calendar_fields();
        },
        Component::Ordinal { .. } => {
            date.lemma_calendar_fields();
        },
        Component::Weekday { .. } => {
            date.lemma_week_fields();
        },
        Component::WeekNumber { .. } => {
            date.lemma_week_fields();
        },
        Component::Year { iso_week_based, .. } => {
            if iso_week_based {
                date.lemma_week_fields();
            } else {
                date.lemma_calendar_fields();
            }
        },
        _ => {},
    }
}

/// Whether the number that a component writes for the given values fits in
/// the component's field, and putting it in its place among the fields
/// records the value.
pub open spec fn spec_is_recorded(
    parsed: Parsed,
    component: Component,
    date: Date,
    time: Time,
    offset: UtcOffset,
) -> bool {
    &&& !(component is Subsecond) ==> spec_magnitude(component, date, time, offset) < spec_pow10(
        spec_width(component),
    )
    &&& spec_store(
        parsed,
        component,
        spec_is_negative(component, date, offset),
        spec_magnitude(component, date, time, offset),
    ) == Some(spec_record(parsed, component, date, time, offset))
}

/// The day of the month fits in its field and is recorded.
proof fn lemma_store_records_day(
    parsed: Parsed,
    padding: Padding,
    date: Date,
    time: Time,
    offset: UtcOffset,
)
    requires
        date.wf(),
    ensures
        spec_is_recorded(
            parsed,
            Component::Day { padding },
            date,
            time,
            offset,
        ),
{
    reveal_with_fuel(spec_pow10, 6);
    lemma_date_value_in_range(
        Component::Day { padding },
        date,
    );
}

/// The month fits in its field and is recorded.
proof fn lemma_store_records_month(
    parsed: Parsed,
    padding: Padding,
    date: Date,
    time: Time,
    offset: UtcOffset,
)
    requires
        date.wf(),
    ensures
        spec_is_recorded(
            parsed,
            Component::Month { padding },
            date,
            time,
            offset,
        ),
{
    reveal_with_fuel(spec_pow10, 6);
    lemma_date_value_in_range(
        Component::Month { padding },
        date,
    );
}

/// The day of the year fits in its field and is recorded.
proof fn lemma_store_records_ordinal(
    parsed: Parsed,
    padding: Padding,
    date: Date,
    time: Time,
    offset: UtcOffset,
)
    requires
        date.wf(),
    ensures
        spec_is_recorded(
            parsed,
            Component::Ordinal { padding },
            date,
            time,
            offset,
        ),
{
    reveal_with_fuel(spec_pow10, 6);
    lemma_date_value_in_range(
        Component::Ordinal { padding },
        date,
    );
}

/// The week of the year fits in its field and is recorded.
proof fn lemma_store_records_week(
    parsed: Parsed,
    padding: Padding,
    repr: WeekNumberRepr,
    date: Date,
    time: Time,
    offset: UtcOffset,
)
    requires
        date.wf(),
    ensures
        spec_is_recorded(
            parsed,
            Component::WeekNumber { padding, repr },
            date,
            time,
            offset,
        ),
{
    reveal_with_fuel(spec_pow10, 6);
    lemma_date_value_in_range(
        Component::WeekNumber { padding, repr },
        date,
    );
}

/// The year fits in its field and is recorded.
proof fn lemma_store_records_year(
    parsed: Parsed,
    padding: Padding,
    iso_week_based: bool,
    sign_is_mandatory: bool,
    date: Date,
    time: Time,
    offset: UtcOffset,
)
    requires
        date.wf(),
    ensures
        spec_is_recorded(
            parsed,
            Component::Year { padding, iso_week_based, sign_is_mandatory },
            date,
            time,
            offset,
        ),
{
    reveal_with_fuel(spec_pow10, 6);
    lemma_date_value_in_range(
        Component::Year { padding, iso_week_based, sign_is_mandatory },
        date,
    );
}

/// A weekday is found again from its number, whichever way the days are
/// counted.
pub proof fn lemma_weekday_number(day: Weekday, from_sunday: bool, one_indexed: bool)
    ensures
        ({
            let number = spec_weekday_number(day.spec_index(), from_sunday, one_indexed) - (
            if one_indexed {
                1int
            } else {
                0int
            });
            &&& 0 <= number <= 6
            &&& spec_weekday_from_index(
                if from_sunday {
                    number + 6
                } else {
                    number
                },
            ) == day
        }),
{
    match day {
        Weekday::Monday => {},
        Weekday::Tuesday => {},
        Weekday::Wednesday => {},
        Weekday::Thursday => {},
        Weekday::Friday => {},
        Weekday::Saturday => {},
        Weekday::Sunday => {},
    }
}

/// The number of the weekday fits in its field and is recorded.
proof fn lemma_store_records_weekday(
    parsed: Parsed,
    from_sunday: bool,
    one_indexed: bool,
    date: Date,
    time: Time,
    offset: UtcOffset,
)
    requires
        date.wf(),
    ensures
        spec_is_recorded(
            parsed,
            Component::Weekday { from_sunday, one_indexed },
            date,
            time,
            offset,
        ),
{
    reveal_with_fuel(spec_pow10, 3);
    lemma_weekday_number(date.spec_weekday(), from_sunday, one_indexed);
}

/// The number that a component of a date writes fits in its field, and
/// putting it in its place among the fields records the value.
pub proof fn lemma_store_records_date(
    parsed: Parsed,
    component: Component,
    date: Date,
    time: Time,
    offset: UtcOffset,
)
    requires
        date.wf(),
        spec_is_date_component(component),
    ensures
        spec_is_recorded(parsed, component, date, time, offset),
{
    match component {
        Component::Day { padding } => {
            lemma_store_records_day(parsed, padding, date, time, offset);
        },
        Component::Month { padding } => {
            lemma_store_records_month(parsed, padding, date, time, offset);
        },
        Component::Ordinal { padding } => {
            lemma_store_records_ordinal(parsed, padding, date, time, offset);
        },
        Component::Weekday { from_sunday, one_indexed } => {
            lemma_store_records_weekday(parsed, from_sunday, one_indexed, date, time, offset);
        },
        Component::WeekNumber { padding, repr } => {
            lemma_store_records_week(parsed, padding, repr, date, time, offset);
        },
        Component::Year { padding, iso_week_based, sign_is_mandatory } => {
            lemma_store_records_year(
                parsed,
                padding,
                iso_week_based,
                sign_is_mandatory,
                date,
                time,
                offset,
            );
        },
        _ => {},
    }
}

/// The number that a component of a time writes fits in its field, and
/// putting it in its place among the fields records the value.
pub proof fn lemma_store_records_time(
    parsed: Parsed,
    component: Component,
    date: Date,
    time: Time,
    offset: UtcOffset,
)
    requires
        time.wf(),
        spec_is_time_component(component),
        !(component is Period),
    ensures
        spec_is_recorded(parsed, component, date, time, offset),
{
    reveal_with_fuel(spec_pow10, 6);
    time.lemma_fields();
    match component {
        Component::Hour { is_12_hour_clock, .. } => {
            assert(1 <= spec_hour_12(time.spec_hour()) <= 12);
        },
        _ => {},
    }
}

/// The number that a component of an offset writes fits in its field, and
/// putting it in its place among the fields records the value.
pub proof fn lemma_store_records_offset(
    parsed: Parsed,
    component: Component,
    date: Date,
    time: Time,
    offset: UtcOffset,
)
    requires
        offset.wf(),
        component is OffsetHour || component is OffsetMinute || component is OffsetSecond,
    ensures
        spec_is_recorded(parsed, component, date, time, offset),
{
    reveal_with_fuel(spec_pow10, 6);
    offset.lemma_fields();
}

/// The number that a component writes fits in its field, and putting it in
/// its place among the fields records the value.
pub proof fn lemma_store_records(
    parsed: Parsed,
    component: Component,
    date: Date,
    time: Time,
    offset: UtcOffset,
)
    requires
        date.wf(),
        time.wf(),
        offset.wf(),
        !(component is Period),
    ensures
        spec_is_recorded(parsed, component, date, time, offset),
{
    if spec_is_date_component(component) {
        lemma_store_records_date(parsed, component, date, time, offset);
    } else if spec_is_time_component(component) {
        lemma_store_records_time(parsed, component, date, time, offset);
    } else {
        lemma_store_records_offset(parsed, component, date, time, offset);
    }
}

/// What a component other than the marker of the half of the day writes:
/// its number in its field, or the fraction of a second.
pub proof fn lemma_written_number(component: Component, date: Date, time: Time, offset: UtcOffset)
    requires
        date.wf(),
        !(component is Period),
    ensures
        !(component is Subsecond) ==> spec_format_component(
            component,
            Some(date),
            Some(time),
            Some(offset),
        ) == Some(
            spec_field(
                component,
                spec_is_negative(component, date, offset),
                spec_magnitude(component, date, time, offset),
            ),
        ),
        spec_is_negative(component, date, offset) ==> spec_has_sign(component),
{
    lemma_date_value_in_range(component, date);
}

/// The marker of the half of the day that was written is read back.
pub proof fn lemma_period_is_read_back(
    parsed: Parsed,
    uppercase: bool,
    input: Seq<u8>,
    at: int,
    afternoon: bool,
)
    requires
        0 <= at,
        at + 2 <= input.len(),
        input.subrange(at, at + 2) == spec_period(afternoon, uppercase),
    ensures
        spec_parse_component(parsed, Component::Period { is_uppercase: uppercase }, input, at)
            == Ok::<(Parsed, int), IntermediateParse>(
            (Parsed { is_afternoon: Some(afternoon), ..parsed }, at + 2),
        ),
{
    assert(spec_period(false, uppercase)[0] != spec_period(true, uppercase)[0]);
}

/// A fraction of a second that was written in full is read back and
/// recorded.
proof fn lemma_subsecond_is_read_back(
    parsed: Parsed,
    component: Component,
    input: Seq<u8>,
    at: int,
    date: Date,
    time: Time,
    offset: UtcOffset,
)
    requires
        date.wf(),
        time.wf(),
        offset.wf(),
        component.wf(),
        0 <= at,
        spec_writes_in_full(component, time),
        ({
            let written = spec_format_component(component, Some(date), Some(time), Some(offset))->0;
            &&& at + written.len() <= input.len()
            &&& input.subrange(at, at + written.len()) == written
            &&& spec_is_open_ended(component) ==> at + written.len() == input.len()
                || !spec_is_digit(input[at + written.len()])
        }),
        component is Subsecond,
    ensures
        spec_parse_component(parsed, component, input, at) == Ok::<
            (Parsed, int),
            IntermediateParse,
        >(
            (
                spec_record(parsed, component, date, time, offset),
                at + spec_format_component(
                    component,
                    Some(date),
                    Some(time),
                    Some(offset),
                )->0.len(),
            ),
        ),
{
    let written = spec_format_component(component, Some(date), Some(time), Some(offset))->0;
    let digits = component->Subsecond_digits;
    time.lemma_fields();
    let nanoseconds = time.spec_nanosecond() as nat;
    lemma_store_records_time(parsed, component, date, time, offset);
    lemma_fraction_width(nanoseconds, 1);
    let count = match digits {
        SubsecondDigits::Exactly(count) => count as nat,
        SubsecondDigits::OneOrMore => spec_fraction_width(nanoseconds, 1),
    };
    assert(written == spec_fraction(nanoseconds, count));
    lemma_fraction_is_read_back(digits, input, at, nanoseconds);
    assert(spec_read_field(component, input, at) == Some(
        (false, nanoseconds, at + written.len()),
    ));
}

/// A number that a component wrote is read back and recorded.
proof fn lemma_numeric_is_read_back(
    parsed: Parsed,
    component: Component,
    input: Seq<u8>,
    at: int,
    date: Date,
    time: Time,
    offset: UtcOffset,
)
    requires
        date.wf(),
        time.wf(),
        offset.wf(),
        component.wf(),
        0 <= at,
        spec_writes_in_full(component, time),
        ({
            let written = spec_format_component(component, Some(date), Some(time), Some(offset))->0;
            &&& at + written.len() <= input.len()
            &&& input.subrange(at, at + written.len()) == written
            &&& spec_is_open_ended(component) ==> at + written.len() == input.len()
                || !spec_is_digit(input[at + written.len()])
        }),
        !(component is Subsecond),
        !(component is Period),
    ensures
        spec_parse_component(parsed, component, input, at) == Ok::<
            (Parsed, int),
            IntermediateParse,
        >(
            (
                spec_record(parsed, component, date, time, offset),
                at + spec_format_component(
                    component,
                    Some(date),
                    Some(time),
                    Some(offset),
                )->0.len(),
            ),
        ),
{
    let written = spec_format_component(component, Some(date), Some(time), Some(offset))->0;
    lemma_store_records(parsed, component, date, time, offset);
    lemma_written_number(component, date, time, offset);
    let negative = spec_is_negative(component, date, offset);
    let magnitude = spec_magnitude(component, date, time, offset);
    assert(written == spec_field(component, negative, magnitude));
    lemma_field_is_read_back(component, input, at, negative, magnitude);
    assert(spec_read_field(component, input, at) == Some(
        (negative, magnitude, at + written.len()),
    ));
}

/// The marker of the half of the day that a component wrote is read back
/// and recorded.
proof fn lemma_marker_is_read_back(
    parsed: Parsed,
    component: Component,
    input: Seq<u8>,
    at: int,
    date: Date,
    time: Time,
    offset: UtcOffset,
)
    requires
        date.wf(),
        time.wf(),
        offset.wf(),
        component.wf(),
        0 <= at,
        spec_writes_in_full(component, time),
        ({
            let written = spec_format_component(component, Some(date), Some(time), Some(offset))->0;
            &&& at + written.len() <= input.len()
            &&& input.subrange(at, at + written.len()) == written
            &&& spec_is_open_ended(component) ==> at + written.len() == input.len()
                || !spec_is_digit(input[at + written.len()])
        }),
        component is Period,
    ensures
        spec_parse_component(parsed, component, input, at) == Ok::<
            (Parsed, int),
            IntermediateParse,
        >(
            (
                spec_record(parsed, component, date, time, offset),
                at + spec_format_component(
                    component,
                    Some(date),
                    Some(time),
                    Some(offset),
                )->0.len(),
            ),
        ),
{
    let uppercase = component->Period_is_uppercase;
    let afternoon = time.spec_hour() >= 12;
    let marker = Component::Period { is_uppercase: uppercase };
    assert(component == marker);
    let written = spec_period(afternoon, uppercase);
    assert(spec_format_component(marker, Some(date), Some(time), Some(offset)) == Some(written));
    assert(written.len() == 2);
    assert(input.subrange(at, at + 2) == written);
    lemma_period_is_read_back(parsed, uppercase, input, at, afternoon);
    assert(spec_record(parsed, marker, date, time, offset) == Parsed {
        is_afternoon: Some(afternoon),
        ..parsed
    });
}

/// A component that was written is read back in the place where it was
/// written, and records the value. This takes that the fraction of a second
/// was written in full, and that no digit follows a component that writes
/// as many digits as its number has.
pub proof fn lemma_component_is_read_back(
    parsed: Parsed,
    component: Component,
    input: Seq<u8>,
    at: int,
    date: Date,
    time: Time,
    offset: UtcOffset,
)
    requires
        date.wf(),
        time.wf(),
        offset.wf(),
        component.wf(),
        0 <= at,
        spec_writes_in_full(component, time),
        ({
            let written = spec_format_component(component, Some(date), Some(time), Some(offset))->0;
            &&& at + written.len() <= input.len()
            &&& input.subrange(at, at + written.len()) == written
            &&& spec_is_open_ended(component) ==> at + written.len() == input.len()
                || !spec_is_digit(input[at + written.len()])
        }),
    ensures
        spec_parse_component(parsed, component, input, at) == Ok::<
            (Parsed, int),
            IntermediateParse,
        >(
            (
                spec_record(parsed, component, date, time, offset),
                at + spec_format_component(
                    component,
                    Some(date),
                    Some(time),
                    Some(offset),
                )->0.len(),
            ),
        ),
{
    if component is Period {
        lemma_marker_is_read_back(parsed, component, input, at, date, time, offset);
    } else if component is Subsecond {
        lemma_subsecond_is_read_back(parsed, component, input, at, date, time, offset);
    } else {
        lemma_numeric_is_read_back(parsed, component, input, at, date, time, offset);
    }
}

/// Whether a component writes the time without loss: a fraction of a second
/// with a fixed count of digits drops what lies beyond them.
pub open spec fn spec_writes_in_full(component: Component, time: Time) -> bool {
    match component {
        Component::Subsecond { digits: SubsecondDigits::Exactly(count) } => time.spec_nanosecond()
            % (spec_pow10((9 - count) as nat) as int) == 0,
        _ => true,
    }
}

/// The fields after an instruction of the given values has been carried
/// out: text records nothing.
pub open spec fn spec_record_item(
    parsed: Parsed,
    item: ItemView,
    date: Date,
    time: Time,
    offset: UtcOffset,
) -> Parsed {
    match item {
        ItemView::Literal(_) => parsed,
        ItemView::Component(component) => spec_record(parsed, component, date, time, offset),
    }
}

/// The fields after the instructions from `from` on have recorded the given
/// values.
pub open spec fn spec_record_from(
    items: Seq<ItemView>,
    from: int,
    parsed: Parsed,
    date: Date,
    time: Time,
    offset: UtcOffset,
) -> Parsed
    decreases items.len() - from,
{
    if from < 0 || from >= items.len() {
        parsed
    } else {
        spec_record_from(
            items,
            from + 1,
            spec_record_item(parsed, items[from], date, time, offset),
            date,
            time,
            offset,
        )
    }
}

/// Whether an instruction is text that begins with a byte that is no digit.
pub open spec fn spec_begins_without_digit(item: ItemView) -> bool {
    match item {
        ItemView::Literal(text) => text.len() > 0 && !spec_is_digit(text[0]),
        ItemView::Component(_) => false,
    }
}

/// Whether a description can be read without doubt about where a number
/// ends: every component that writes as many digits as its number has is
/// the last instruction, or is followed by text that begins with a byte
/// that is no digit.
pub open spec fn spec_is_readable(items: Seq<ItemView>) -> bool {
    forall|i: int|
        0 <= i < items.len() ==> match #[trigger] items[i] {
            ItemView::Component(component) => spec_is_open_ended(component) ==> i + 1
                == items.len() || spec_begins_without_digit(items[i + 1]),
            ItemView::Literal(_) => true,
        }
}

/// Whether a description writes the time without loss.
pub open spec fn spec_is_written_in_full(items: Seq<ItemView>, time: Time) -> bool {
    forall|i: int|
        0 <= i < items.len() ==> match #[trigger] items[i] {
            ItemView::Component(component) => spec_writes_in_full(component, time),
            ItemView::Literal(_) => true,
        }
}

/// What the instructions from `from` on write is what the first of them
/// writes and then what the others write.
pub proof fn lemma_format_unfolds(
    items: Seq<ItemView>,
    from: int,
    date: Date,
    time: Time,
    offset: UtcOffset,
)
    requires
        0 <= from < items.len(),
    ensures
        spec_format_from(items, from, Some(date), Some(time), Some(offset)) is Some,
        spec_format_from(items, from + 1, Some(date), Some(time), Some(offset)) is Some,
        spec_format_item(items[from], Some(date), Some(time), Some(offset)) is Some,
        spec_format_from(items, from, Some(date), Some(time), Some(offset))->0 == spec_format_item(
            items[from],
            Some(date),
            Some(time),
            Some(offset),
        )->0 + spec_format_from(items, from + 1, Some(date), Some(time), Some(offset))->0,
{
    lemma_format_is_total(items, from, Some(date), Some(time), Some(offset));
    lemma_format_is_total(items, from + 1, Some(date), Some(time), Some(offset));
}

/// One instruction that was carried out in writing is undone in reading:
/// it is read in the place where it wrote, and records the value.
pub proof fn lemma_item_is_read_back(
    parsed: Parsed,
    item: ItemView,
    input: Seq<u8>,
    at: int,
    date: Date,
    time: Time,
    offset: UtcOffset,
)
    requires
        date.wf(),
        time.wf(),
        offset.wf(),
        0 <= at,
        item is Component ==> item->Component_0.wf() && spec_writes_in_full(
            item->Component_0,
            time,
        ),
        ({
            let written = spec_format_item(item, Some(date), Some(time), Some(offset))->0;
            &&& at + written.len() <= input.len()
            &&& input.subrange(at, at + written.len()) == written
            &&& item is Component && spec_is_open_ended(item->Component_0) ==> at + written.len()
                == input.len() || !spec_is_digit(input[at + written.len()])
        }),
    ensures
        spec_parse_item(parsed, item, input, at) == Ok::<(Parsed, int), IntermediateParse>(
            (
                spec_record_item(parsed, item, date, time, offset),
                at + spec_format_item(item, Some(date), Some(time), Some(offset))->0.len(),
            ),
        ),
{
    match item {
        ItemView::Literal(text) => {},
        ItemView::Component(component) => {
            lemma_component_is_read_back(parsed, component, input, at, date, time, offset);
        },
    }
}

/// What holds of one instruction of a description that can be read without
/// doubt and that writes the time without loss.
proof fn lemma_instruction(items: Seq<ItemView>, at: int, time: Time)
    requires
        spec_items_wf(items),
        spec_is_readable(items),
        spec_is_written_in_full(items, time),
        0 <= at < items.len(),
    ensures
        items[at] is Component ==> items[at]->Component_0.wf() && spec_writes_in_full(
            items[at]->Component_0,
            time,
        ),
        items[at] is Component && spec_is_open_ended(items[at]->Component_0) ==> at + 1
            == items.len() || spec_begins_without_digit(items[at + 1]),
{
    let item = items[at];
}

/// A text that begins at a place of the input with one part and goes on to
/// the end of the input with another has the first part at that place and
/// the second part after it.
proof fn lemma_split(input: Seq<u8>, at: int, first: Seq<u8>, second: Seq<u8>)
    requires
        0 <= at <= input.len(),
        input.subrange(at, input.len() as int) == first + second,
    ensures
        at + first.len() + second.len() == input.len(),
        input.subrange(at, at + first.len()) == first,
        input.subrange(at + first.len(), input.len() as int) == second,
        second.len() > 0 ==> input[at + first.len()] == second[0],
{
    let rest = input.subrange(at, input.len() as int);
    assert(rest.len() == first.len() + second.len());
    assert(input.subrange(at, at + first.len()) =~= first) by {
        assert forall|i: int| 0 <= i < first.len() implies input[at + i] == first[i] by {
            assert(rest[i] == input[at + i]);
        }
    }
    assert(input.subrange(at + first.len(), input.len() as int) =~= second) by {
        assert forall|i: int| 0 <= i < second.len() implies input[at + first.len() + i]
            == second[i] by {
            assert(rest[first.len() + i] == input[at + (first.len() + i)]);
        }
    }
    if second.len() > 0 {
        assert(rest[first.len() as int] == input[at + first.len()]);
    }
}

/// What the instructions from a text on write begins with that text.
proof fn lemma_begins_with_text(
    items: Seq<ItemView>,
    from: int,
    date: Date,
    time: Time,
    offset: UtcOffset,
)
    requires
        0 <= from < items.len(),
        spec_begins_without_digit(items[from]),
    ensures
        spec_format_from(items, from, Some(date), Some(time), Some(offset)) is Some,
        spec_format_from(items, from, Some(date), Some(time), Some(offset))->0.len() > 0,
        !spec_is_digit(spec_format_from(items, from, Some(date), Some(time), Some(offset))->0[0]),
{
    lemma_format_unfolds(items, from, date, time, offset);
}

/// What follows the text that an instruction wrote is no digit, where the
/// instruction is followed by text that begins with a byte that is no
/// digit, or by nothing.
proof fn lemma_no_digit_follows(
    items: Seq<ItemView>,
    from: int,
    input: Seq<u8>,
    next: int,
    date: Date,
    time: Time,
    offset: UtcOffset,
)
    requires
        0 <= from < items.len(),
        0 <= next <= input.len(),
        from + 1 == items.len() || spec_begins_without_digit(items[from + 1]),
        spec_format_from(items, from + 1, Some(date), Some(time), Some(offset)) == Some(
            input.subrange(next, input.len() as int),
        ),
    ensures
        next == input.len() || !spec_is_digit(input[next]),
{
    if from + 1 < items.len() {
        lemma_begins_with_text(items, from + 1, date, time, offset);
        let others = input.subrange(next, input.len() as int);
        assert(others[0] == input[next + 0]);
    } else {
        assert(input.subrange(next, input.len() as int).len() == 0);
    }
}

/// What a description wrote from one of its instructions on is read back by
/// the instructions from that one on, to the end of the text, and they
/// record the values.
pub proof fn lemma_items_are_read_back(
    items: Seq<ItemView>,
    from: int,
    input: Seq<u8>,
    at: int,
    parsed: Parsed,
    date: Date,
    time: Time,
    offset: UtcOffset,
)
    requires
        date.wf(),
        time.wf(),
        offset.wf(),
        spec_items_wf(items),
        spec_is_readable(items),
        spec_is_written_in_full(items, time),
        0 <= from <= items.len(),
        0 <= at <= input.len(),
        spec_format_from(items, from, Some(date), Some(time), Some(offset)) == Some(
            input.subrange(at, input.len() as int),
        ),
    ensures
        spec_parse_from(items, from, input, at, parsed) == Ok::<(Parsed, int), IntermediateParse>(
            (spec_record_from(items, from, parsed, date, time, offset), input.len() as int),
        ),
    decreases items.len() - from,
{
    if from < items.len() {
        let item = items[from];
        lemma_format_unfolds(items, from, date, time, offset);
        let written = spec_format_item(item, Some(date), Some(time), Some(offset))->0;
        let others = spec_format_from(items, from + 1, Some(date), Some(time), Some(offset))->0;
        let next = at + written.len();
        lemma_split(input, at, written, others);
        lemma_instruction(items, from, time);
        if item is Component && spec_is_open_ended(item->Component_0) {
            lemma_no_digit_follows(items, from, input, next, date, time, offset);
        }
        lemma_item_is_read_back(parsed, item, input, at, date, time, offset);
        let recorded = spec_record_item(parsed, item, date, time, offset);
        lemma_items_are_read_back(items, from + 1, input, next, recorded, date, time, offset);
        assert(spec_parse_item(parsed, item, input, at) == Ok::<(Parsed, int), IntermediateParse>(
            (recorded, next),
        ));
    } else {
        assert(input.subrange(at, input.len() as int).len() == 0);
    }
}

/// Whether every field of a date that was read is that of the given date.
pub open spec fn spec_agrees_with_date(parsed: Parsed, date: Date) -> bool {
    &&& parsed.year is Some ==> parsed.year->0 == date.spec_year()
    &&& parsed.iso_year is Some ==> parsed.iso_year->0 == date.spec_iso_year()
    &&& parsed.month is Some ==> parsed.month->0 == date.spec_month()
    &&& parsed.day is Some ==> parsed.day->0 == date.spec_day()
    &&& parsed.ordinal is Some ==> parsed.ordinal->0 == date.spec_ordinal()
    &&& parsed.weekday is Some ==> parsed.weekday->0 == date.spec_weekday()
    &&& parsed.iso_week is Some ==> parsed.iso_week->0 == date.spec_iso_week()
    &&& parsed.sunday_week is Some ==> parsed.sunday_week->0 == date.spec_sunday_based_week()
    &&& parsed.monday_week is Some ==> parsed.monday_week->0 == date.spec_monday_based_week()
}

/// Whether every field of a time that was read is that of the given time.
pub open spec fn spec_agrees_with_time(parsed: Parsed, time: Time) -> bool {
    &&& parsed.hour_24 is Some ==> parsed.hour_24->0 == time.spec_hour()
    &&& parsed.hour_12 is Some ==> parsed.hour_12->0 == spec_hour_12(time.spec_hour())
    &&& parsed.is_afternoon is Some ==> parsed.is_afternoon->0 == (time.spec_hour() >= 12)
    &&& parsed.minute is Some ==> parsed.minute->0 == time.spec_minute()
    &&& parsed.second is Some ==> parsed.second->0 == time.spec_second()
    &&& parsed.nanosecond is Some ==> parsed.nanosecond->0 == time.spec_nanosecond()
}

/// Whether every field of an offset that was read is that of the given
/// offset.
pub open spec fn spec_agrees_with_offset(parsed: Parsed, offset: UtcOffset) -> bool {
    &&& parsed.offset_is_negative is Some ==> parsed.offset_is_negative->0 == (offset@ < 0)
    &&& parsed.offset_hour is Some ==> parsed.offset_hour->0 == spec_abs(
        offset.spec_whole_hours(),
    )
    &&& parsed.offset_minute is Some ==> parsed.offset_minute->0 == spec_abs(
        offset.spec_minutes_past_hour(),
    )
    &&& parsed.offset_second is Some ==> parsed.offset_second->0 == spec_abs(
        offset.spec_seconds_past_minute(),
    )
}

/// Whether the fields that were read are those of the given values.
pub open spec fn spec_agrees(parsed: Parsed, date: Date, time: Time, offset: UtcOffset) -> bool {
    spec_agrees_with_date(parsed, date) && spec_agrees_with_time(parsed, time)
        && spec_agrees_with_offset(parsed, offset)
}

/// Whether the fields that were read name a date.
pub open spec fn spec_names_date(parsed: Parsed) -> bool {
    ||| parsed.year is Some && parsed.ordinal is Some
    ||| parsed.year is Some && parsed.month is Some && parsed.day is Some
    ||| parsed.iso_year is Some && parsed.iso_week is Some && parsed.weekday is Some
    ||| parsed.year is Some && parsed.sunday_week is Some && parsed.weekday is Some
    ||| parsed.year is Some && parsed.monday_week is Some && parsed.weekday is Some
}

/// Whether the fields that were read name the given time: the hour is
/// among them, and what is not among them is zero in the time.
pub open spec fn spec_names_time(parsed: Parsed, time: Time) -> bool {
    &&& parsed.hour_24 is Some || (parsed.hour_12 is Some && parsed.is_afternoon is Some)
    &&& parsed.minute is Some || time.spec_minute() == 0
    &&& parsed.second is Some || time.spec_second() == 0
    &&& parsed.nanosecond is Some || time.spec_nanosecond() == 0
}

/// Whether the fields that were read name the given offset: the hours are
/// among them, and what is not among them is zero in the offset.
pub open spec fn spec_names_offset(parsed: Parsed, offset: UtcOffset) -> bool {
    &&& parsed.offset_hour is Some && parsed.offset_is_negative is Some
    &&& parsed.offset_minute is Some || offset.spec_minutes_past_hour() == 0
    &&& parsed.offset_second is Some || offset.spec_seconds_past_minute() == 0
}

/// Recording a component of a date keeps the fields in agreement with the
/// values.
proof fn lemma_record_agrees_date(
    parsed: Parsed,
    component: Component,
    date: Date,
    time: Time,
    offset: UtcOffset,
)
    requires
        date.wf(),
        spec_is_date_component(component),
        spec_agrees(parsed, date, time, offset),
    ensures
        spec_agrees(spec_record(parsed, component, date, time, offset), date, time, offset),
{
    lemma_date_value_in_range(component, date);
    date.lemma_week_fields();
    let recorded = spec_record(parsed, component, date, time, offset);
    assert(spec_agrees_with_time(recorded, time));
    assert(spec_agrees_with_offset(recorded, offset));
}

/// Recording a component of a time keeps the fields in agreement with the
/// values.
proof fn lemma_record_agrees_time(
    parsed: Parsed,
    component: Component,
    date: Date,
    time: Time,
    offset: UtcOffset,
)
    requires
        time.wf(),
        spec_is_time_component(component),
        spec_agrees(parsed, date, time, offset),
    ensures
        spec_agrees(spec_record(parsed, component, date, time, offset), date, time, offset),
{
    time.lemma_fields();
    let recorded = spec_record(parsed, component, date, time, offset);
    assert(spec_agrees_with_date(recorded, date));
    assert(spec_agrees_with_offset(recorded, offset));
}

/// Recording a component of an offset keeps the fields in agreement with
/// the values.
proof fn lemma_record_agrees_offset(
    parsed: Parsed,
    component: Component,
    date: Date,
    time: Time,
    offset: UtcOffset,
)
    requires
        offset.wf(),
        component is OffsetHour || component is OffsetMinute || component is OffsetSecond,
        spec_agrees(parsed, date, time, offset),
    ensures
        spec_agrees(spec_record(parsed, component, date, time, offset), date, time, offset),
{
    offset.lemma_fields();
    let recorded = spec_record(parsed, component, date, time, offset);
    assert(spec_agrees_with_date(recorded, date));
    assert(spec_agrees_with_time(recorded, time));
}

/// The fields that a description records of given values agree with the
/// values.
pub proof fn lemma_record_agrees(
    items: Seq<ItemView>,
    from: int,
    parsed: Parsed,
    date: Date,
    time: Time,
    offset: UtcOffset,
)
    requires
        date.wf(),
        time.wf(),
        offset.wf(),
        0 <= from <= items.len(),
        spec_agrees(parsed, date, time, offset),
    ensures
        spec_agrees(spec_record_from(items, from, parsed, date, time, offset), date, time, offset),
    decreases items.len() - from,
{
    if from < items.len() {
        let recorded = spec_record_item(parsed, items[from], date, time, offset);
        match items[from] {
            ItemView::Literal(_) => {},
            ItemView::Component(component) => {
                if spec_is_date_component(component) {
                    lemma_record_agrees_date(parsed, component, date, time, offset);
                } else if spec_is_time_component(component) {
                    lemma_record_agrees_time(parsed, component, date, time, offset);
                } else {
                    lemma_record_agrees_offset(parsed, component, date, time, offset);
                }
            },
        }
        lemma_record_agrees(items, from + 1, recorded, date, time, offset);
    }
}

/// Fields that agree with a date and name a date name that date.
pub proof fn lemma_fields_name_the_date(parsed: Parsed, date: Date)
    requires
        date.wf(),
        spec_agrees_with_date(parsed, date),
        spec_names_date(parsed),
    ensures
        parsed.spec_to_date() == Ok::<Date, ErrorView>(date),
{
    date.lemma_calendar_fields();
    date.lemma_week_fields();
    date.lemma_equal_by_day_number(date);
    let number = date@;
    if parsed.year is Some && parsed.ordinal is Some {
    } else if parsed.year is Some && parsed.month is Some && parsed.day is Some {
    } else if !(parsed.iso_year is Some && parsed.iso_week is Some && parsed.weekday is Some) {
        date.lemma_week_date(true);
        date.lemma_week_date(false);
    } else {
        let year = date.spec_iso_year();
        let start = crate::date::spec_iso_year_start(year);
        crate::date::lemma_iso_year(year);
        let index = date.spec_weekday().spec_index();
        crate::weekday::lemma_weekday_index_inverse(date.spec_weekday(), number - 1);
        vstd::arithmetic::div_mod::lemma_fundamental_div_mod(number - start, 7);
        vstd::arithmetic::div_mod::lemma_fundamental_div_mod(number - 1, 7);
        vstd::arithmetic::div_mod::lemma_fundamental_div_mod(start - 1, 7);
        let a = (number - 1) / 7;
        let b = (start - 1) / 7;
        vstd::arithmetic::div_mod::lemma_fundamental_div_mod_converse(
            number - start,
            7,
            a - b,
            index,
        );
        assert(start + (date.spec_iso_week() - 1) * 7 + index == number);
    }
}

/// Fields that agree with a time and name it give that time.
pub proof fn lemma_fields_name_the_time(parsed: Parsed, time: Time)
    requires
        time.wf(),
        spec_agrees_with_time(parsed, time),
        spec_names_time(parsed, time),
    ensures
        parsed.spec_to_time() == Ok::<Time, ErrorView>(time),
{
    time.lemma_fields();
}

/// Fields that agree with an offset and name it give that offset.
pub proof fn lemma_fields_name_the_offset(parsed: Parsed, offset: UtcOffset)
    requires
        offset.wf(),
        spec_agrees_with_offset(parsed, offset),
        spec_names_offset(parsed, offset),
    ensures
        parsed.spec_to_offset() == Ok::<UtcOffset, ErrorView>(offset),
{
    offset.lemma_fields();
}

/// Reading undoes writing. A date and time with an offset that a
/// description wrote is read back from the text by the same description,
/// where the description can be read without doubt about where a number
/// ends, writes the time without loss, and names enough fields to determine
/// the date, the time and the offset.
pub proof fn lemma_round_trip(items: Seq<ItemView>, date: Date, time: Time, offset: UtcOffset)
    requires
        date.wf(),
        time.wf(),
        offset.wf(),
        spec_items_wf(items),
        spec_is_readable(items),
        spec_is_written_in_full(items, time),
        spec_names_date(spec_record_from(items, 0, Parsed::spec_empty(), date, time, offset)),
        spec_names_time(spec_record_from(items, 0, Parsed::spec_empty(), date, time, offset), time),
        spec_names_offset(
            spec_record_from(items, 0, Parsed::spec_empty(), date, time, offset),
            offset,
        ),
    ensures
        spec_format(items, Some(date), Some(time), Some(offset)) is Some,
        spec_parse(items, spec_format(items, Some(date), Some(time), Some(offset))->0) == Ok::<
            Parsed,
            ErrorView,
        >(spec_record_from(items, 0, Parsed::spec_empty(), date, time, offset)),
        spec_parse_offset_date_time(
            items,
            spec_format(items, Some(date), Some(time), Some(offset))->0,
        ) == Ok::<OffsetDateTime, ErrorView>(
            OffsetDateTime::spec_new(PrimitiveDateTime::spec_new(date, time), offset),
        ),
        spec_parse_date(items, spec_format(items, Some(date), Some(time), Some(offset))->0) == Ok::<
            Date,
            ErrorView,
        >(date),
        spec_parse_time(items, spec_format(items, Some(date), Some(time), Some(offset))->0) == Ok::<
            Time,
            ErrorView,
        >(time),
        spec_parse_offset(items, spec_format(items, Some(date), Some(time), Some(offset))->0)
            == Ok::<UtcOffset, ErrorView>(offset),
{
    lemma_format_is_total(items, 0, Some(date), Some(time), Some(offset));
    let text = spec_format(items, Some(date), Some(time), Some(offset))->0;
    let empty = Parsed::spec_empty();
    let recorded = spec_record_from(items, 0, empty, date, time, offset);
    assert(text.subrange(0, text.len() as int) =~= text);
    lemma_items_are_read_back(items, 0, text, 0, empty, date, time, offset);
    lemma_record_agrees(items, 0, empty, date, time, offset);
    lemma_fields_name_the_date(recorded, date);
    lemma_fields_name_the_time(recorded, time);
    lemma_fields_name_the_offset(recorded, offset);
}

/// Whether the field that a component stands for is among the fields that
/// were read.
pub open spec fn spec_has_field(parsed: Parsed, component: Component) -> bool {
    match component {
        Component::Day { .. } => parsed.day is Some,
        Component::Month { .. } => parsed.month is Some,
        Component::Ordinal { .. } => parsed.ordinal is Some,
        Component::Weekday { .. } => parsed.weekday is Some,
        Component::WeekNumber { repr, .. } => match repr {
            WeekNumberRepr::Iso => parsed.iso_week is Some,
            WeekNumberRepr::Sunday => parsed.sunday_week is Some,
            WeekNumberRepr::Monday => parsed.monday_week is Some,
        },
        Component::Year { iso_week_based, .. } => if iso_week_based {
            parsed.iso_year is Some
        } else {
            parsed.year is Some
        },
        Component::Hour { is_12_hour_clock, .. } => if is_12_hour_clock {
            parsed.hour_12 is Some
        } else {
            parsed.hour_24 is Some
        },
        Component::Minute { .. } => parsed.minute is Some,
        Component::Period { .. } => parsed.is_afternoon is Some,
        Component::Second { .. } => parsed.second is Some,
        Component::Subsecond { .. } => parsed.nanosecond is Some,
        Component::OffsetHour { .. } => parsed.offset_hour is Some && parsed.offset_is_negative
            is Some,
        Component::OffsetMinute { .. } => parsed.offset_minute is Some,
        Component::OffsetSecond { .. } => parsed.offset_second is Some,
    }
}

/// Recording a component puts its field among the fields and takes no other
/// field away.
pub proof fn lemma_record_keeps(
    parsed: Parsed,
    recorded: Component,
    component: Component,
    date: Date,
    time: Time,
    offset: UtcOffset,
)
    ensures
        spec_has_field(spec_record(parsed, recorded, date, time, offset), recorded),
        spec_has_field(parsed, component) ==> spec_has_field(
            spec_record(parsed, recorded, date, time, offset),
            component,
        ),
{
}

/// A field that is among the fields stays among them while the rest of a
/// description is recorded.
pub proof fn lemma_record_from_keeps(
    items: Seq<ItemView>,
    from: int,
    parsed: Parsed,
    component: Component,
    date: Date,
    time: Time,
    offset: UtcOffset,
)
    requires
        0 <= from <= items.len(),
        spec_has_field(parsed, component),
    ensures
        spec_has_field(spec_record_from(items, from, parsed, date, time, offset), component),
    decreases items.len() - from,
{
    if from < items.len() {
        match items[from] {
            ItemView::Literal(_) => {},
            ItemView::Component(recorded) => {
                lemma_record_keeps(parsed, recorded, component, date, time, offset);
            },
        }
        lemma_record_from_keeps(
            items,
            from + 1,
            spec_record_item(parsed, items[from], date, time, offset),
            component,
            date,
            time,
            offset,
        );
    }
}

/// The field of every component that a description holds is among the
/// fields that the description records.
pub proof fn lemma_records_its_components(
    items: Seq<ItemView>,
    from: int,
    at: int,
    parsed: Parsed,
    date: Date,
    time: Time,
    offset: UtcOffset,
)
    requires
        0 <= from <= at < items.len(),
        items[at] is Component,
    ensures
        spec_has_field(
            spec_record_from(items, from, parsed, date, time, offset),
            items[at]->Component_0,
        ),
    decreases at - from,
{
    let next = spec_record_item(parsed, items[from], date, time, offset);
    if from < at {
        lemma_records_its_components(items, from + 1, at, next, date, time, offset);
    } else {
        let component = items[at]->Component_0;
        lemma_record_keeps(parsed, component, component, date, time, offset);
        lemma_record_from_keeps(items, from + 1, next, component, date, time, offset);
    }
}

/// Whether a description holds nothing but text and components of a date.
pub open spec fn spec_is_date_only(items: Seq<ItemView>) -> bool {
    forall|i: int|
        0 <= i < items.len() ==> match #[trigger] items[i] {
            ItemView::Component(component) => spec_is_date_component(component),
            ItemView::Literal(_) => true,
        }
}

/// A description of a date alone writes the same with and without a time
/// and an offset at hand.
pub proof fn lemma_date_only(
    items: Seq<ItemView>,
    from: int,
    date: Date,
    time: Time,
    offset: UtcOffset,
)
    requires
        0 <= from <= items.len(),
        spec_is_date_only(items),
    ensures
        spec_format_from(items, from, Some(date), None, None) == spec_format_from(
            items,
            from,
            Some(date),
            Some(time),
            Some(offset),
        ),
    decreases items.len() - from,
{
    if from < items.len() {
        let item = items[from];
        lemma_date_only(items, from + 1, date, time, offset);
    }
}

/// A date that a description of a date alone wrote is read back from the
/// text by the same description, where the description can be read without
/// doubt about where a number ends and names enough fields to determine
/// the date.
pub proof fn lemma_date_round_trip(items: Seq<ItemView>, date: Date)
    requires
        date.wf(),
        spec_is_date_only(items),
        spec_is_readable(items),
        spec_names_date(
            spec_record_from(
                items,
                0,
                Parsed::spec_empty(),
                date,
                Time::spec_from_nanoseconds(0),
                UtcOffset::spec_from_seconds(0),
            ),
        ),
    ensures
        spec_format(items, Some(date), None, None) is Some,
        spec_parse_date(items, spec_format(items, Some(date), None, None)->0) == Ok::<
            Date,
            ErrorView,
        >(date),
{
    let time = Time::spec_from_nanoseconds(0);
    let offset = UtcOffset::spec_from_seconds(0);
    Time::lemma_from_nanoseconds(0);
    UtcOffset::lemma_from_seconds(0);
    lemma_date_only(items, 0, date, time, offset);
    lemma_format_is_total(items, 0, Some(date), Some(time), Some(offset));
    let text = spec_format(items, Some(date), Some(time), Some(offset))->0;
    let empty = Parsed::spec_empty();
    assert(text.subrange(0, text.len() as int) =~= text);
    assert(spec_items_wf(items)) by {
        assert forall|i: int| 0 <= i < items.len() implies match #[trigger] items[i] {
            ItemView::Component(component) => component.wf(),
            ItemView::Literal(_) => true,
        } by {}
    }
    assert(spec_is_written_in_full(items, time)) by {
        assert forall|i: int| 0 <= i < items.len() implies match #[trigger] items[i] {
            ItemView::Component(component) => spec_writes_in_full(component, time),
            ItemView::Literal(_) => true,
        } by {}
    }
    lemma_items_are_read_back(items, 0, text, 0, empty, date, time, offset);
    lemma_record_agrees(items, 0, empty, date, time, offset);
    lemma_fields_name_the_date(spec_record_from(items, 0, empty, date, time, offset), date);
}

/// The instructions of the calendar date of ISO 8601, one by one.
proof fn lemma_iso_date_items()
    ensures
        spec_iso_date().len() == 5,
        spec_iso_date()[0] == ItemView::Component(
            Component::Year {
                padding: Padding::Zero,
                iso_week_based: false,
                sign_is_mandatory: false,
            },
        ),
        spec_iso_date()[1] == ItemView::Literal(seq![45u8]),
        spec_iso_date()[2] == ItemView::Component(Component::Month { padding: Padding::Zero }),
        spec_iso_date()[3] == ItemView::Literal(seq![45u8]),
        spec_iso_date()[4] == ItemView::Component(Component::Day { padding: Padding::Zero }),
{
}

/// The calendar date of ISO 8601 is a description of a date alone that can
/// be read without doubt.
proof fn lemma_iso_date_is_readable()
    ensures
        spec_is_date_only(spec_iso_date()),
        spec_is_readable(spec_iso_date()),
{
    lemma_iso_date_items();
    let items = spec_iso_date();
    assert forall|i: int| 0 <= i < items.len() implies match #[trigger] items[i] {
        ItemView::Component(component) => spec_is_date_component(component) && !spec_is_open_ended(
            component,
        ),
        ItemView::Literal(_) => true,
    } by {
        if i == 0 {
        } else if i == 1 {
        } else if i == 2 {
        } else if i == 3 {
        } else {
        }
    }
}

/// A date that is written as the calendar date of ISO 8601 is read back
/// from the text.
pub proof fn lemma_iso_date_round_trip(date: Date)
    requires
        date.wf(),
    ensures
        spec_format(spec_iso_date(), Some(date), None, None) is Some,
        spec_parse_date(spec_iso_date(), spec_format(spec_iso_date(), Some(date), None, None)->0)
            == Ok::<Date, ErrorView>(date),
{
    let items = spec_iso_date();
    let time = Time::spec_from_nanoseconds(0);
    let offset = UtcOffset::spec_from_seconds(0);
    let empty = Parsed::spec_empty();
    lemma_iso_date_items();
    lemma_iso_date_is_readable();
    lemma_records_its_components(items, 0, 0, empty, date, time, offset);
    lemma_records_its_components(items, 0, 2, empty, date, time, offset);
    lemma_records_its_components(items, 0, 4, empty, date, time, offset);
    lemma_date_round_trip(items, date);
}

/// The instructions of a date and time of RFC 3339, one by one.
proof fn lemma_rfc3339_items()
    ensures
        spec_rfc3339() == seq![
            ItemView::Component(
                Component::Year {
                    padding: Padding::Zero,
                    iso_week_based: false,
                    sign_is_mandatory: false,
                },
            ),
            ItemView::Literal(seq![45u8]),
            ItemView::Component(Component::Month { padding: Padding::Zero }),
            ItemView::Literal(seq![45u8]),
            ItemView::Component(Component::Day { padding: Padding::Zero }),
            ItemView::Literal(seq![84u8]),
            ItemView::Component(
                Component::Hour { padding: Padding::Zero, is_12_hour_clock: false },
            ),
            ItemView::Literal(seq![58u8]),
            ItemView::Component(Component::Minute { padding: Padding::Zero }),
            ItemView::Literal(seq![58u8]),
            ItemView::Component(Component::Second { padding: Padding::Zero }),
            ItemView::Component(
                Component::OffsetHour { padding: Padding::Zero, sign_is_mandatory: true },
            ),
            ItemView::Literal(seq![58u8]),
            ItemView::Component(Component::OffsetMinute { padding: Padding::Zero }),
        ],
{
    let listed = seq![
        ItemView::Component(
            Component::Year {
                padding: Padding::Zero,
                iso_week_based: false,
                sign_is_mandatory: false,
            },
        ),
        ItemView::Literal(seq![45u8]),
        ItemView::Component(Component::Month { padding: Padding::Zero }),
        ItemView::Literal(seq![45u8]),
        ItemView::Component(Component::Day { padding: Padding::Zero }),
        ItemView::Literal(seq![84u8]),
        ItemView::Component(Component::Hour { padding: Padding::Zero, is_12_hour_clock: false }),
        ItemView::Literal(seq![58u8]),
        ItemView::Component(Component::Minute { padding: Padding::Zero }),
        ItemView::Literal(seq![58u8]),
        ItemView::Component(Component::Second { padding: Padding::Zero }),
        ItemView::Component(
            Component::OffsetHour { padding: Padding::Zero, sign_is_mandatory: true },
        ),
        ItemView::Literal(seq![58u8]),
        ItemView::Component(Component::OffsetMinute { padding: Padding::Zero }),
    ];
    assert(spec_rfc3339() =~= listed);
}

/// A date and time of RFC 3339 is a description that can be read without
/// doubt and that writes whole seconds without loss.
proof fn lemma_rfc3339_is_readable(time: Time)
    ensures
        spec_items_wf(spec_rfc3339()),
        spec_is_readable(spec_rfc3339()),
        spec_is_written_in_full(spec_rfc3339(), time),
{
    lemma_rfc3339_items();
    let items = spec_rfc3339();
    assert forall|i: int| 0 <= i < items.len() implies match #[trigger] items[i] {
        ItemView::Component(component) => component.wf() && !spec_is_open_ended(component)
            && spec_writes_in_full(component, time),
        ItemView::Literal(_) => true,
    } by {
        if i < 4 {
        } else if i < 8 {
        } else if i < 12 {
        } else {
        }
    }
}

/// A date and time of RFC 3339 names the year, the month and the day.
proof fn lemma_rfc3339_names_date(date: Date, time: Time, offset: UtcOffset)
    ensures
        spec_names_date(
            spec_record_from(spec_rfc3339(), 0, Parsed::spec_empty(), date, time, offset),
        ),
{
    let items = spec_rfc3339();
    let empty = Parsed::spec_empty();
    lemma_rfc3339_items();
    assert(items[0] is Component && items[0]->Component_0 is Year);
    assert(items[2] is Component && items[2]->Component_0 is Month);
    assert(items[4] is Component && items[4]->Component_0 is Day);
    lemma_records_its_components(items, 0, 0, empty, date, time, offset);
    lemma_records_its_components(items, 0, 2, empty, date, time, offset);
    lemma_records_its_components(items, 0, 4, empty, date, time, offset);
}

/// A date and time of RFC 3339 names the hour, the minute and the second.
proof fn lemma_rfc3339_names_time(date: Date, time: Time, offset: UtcOffset)
    requires
        time.spec_nanosecond() == 0,
    ensures
        spec_names_time(
            spec_record_from(spec_rfc3339(), 0, Parsed::spec_empty(), date, time, offset),
            time,
        ),
{
    let items = spec_rfc3339();
    let empty = Parsed::spec_empty();
    lemma_rfc3339_items();
    assert(items[6] is Component && items[6]->Component_0 is Hour);
    assert(items[8] is Component && items[8]->Component_0 is Minute);
    assert(items[10] is Component && items[10]->Component_0 is Second);
    lemma_records_its_components(items, 0, 6, empty, date, time, offset);
    lemma_records_its_components(items, 0, 8, empty, date, time, offset);
    lemma_records_its_components(items, 0, 10, empty, date, time, offset);
}

/// A date and time of RFC 3339 names the hours and the minutes of the
/// offset.
proof fn lemma_rfc3339_names_offset(date: Date, time: Time, offset: UtcOffset)
    requires
        offset.spec_seconds_past_minute() == 0,
    ensures
        spec_names_offset(
            spec_record_from(spec_rfc3339(), 0, Parsed::spec_empty(), date, time, offset),
            offset,
        ),
{
    let items = spec_rfc3339();
    let empty = Parsed::spec_empty();
    lemma_rfc3339_items();
    assert(items[11] is Component && items[11]->Component_0 is OffsetHour);
    assert(items[13] is Component && items[13]->Component_0 is OffsetMinute);
    lemma_records_its_components(items, 0, 11, empty, date, time, offset);
    lemma_records_its_components(items, 0, 13, empty, date, time, offset);
}

/// A date and time with an offset that is written as RFC 3339 says is read
/// back from the text, where it has no fraction of a second and its offset
/// is one of whole minutes.
pub proof fn lemma_rfc3339_round_trip(date: Date, time: Time, offset: UtcOffset)
    requires
        date.wf(),
        time.wf(),
        offset.wf(),
        time.spec_nanosecond() == 0,
        offset.spec_seconds_past_minute() == 0,
    ensures
        spec_format(spec_rfc3339(), Some(date), Some(time), Some(offset)) is Some,
        spec_parse_offset_date_time(
            spec_rfc3339(),
            spec_format(spec_rfc3339(), Some(date), Some(time), Some(offset))->0,
        ) == Ok::<OffsetDateTime, ErrorView>(
            OffsetDateTime::spec_new(PrimitiveDateTime::spec_new(date, time), offset),
        ),
{
    lemma_rfc3339_is_readable(time);
    lemma_rfc3339_names_date(date, time, offset);
    lemma_rfc3339_names_time(date, time, offset);
    lemma_rfc3339_names_offset(date, time, offset);
    lemma_round_trip(spec_rfc3339(), date, time, offset);
}

} // verus!
