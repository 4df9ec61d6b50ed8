//! Compiling the source of a format description.

use vstd::prelude::*;
use vstd::slice::{slice_subrange, slice_to_vec};
use crate::bytes::{
    find_byte, is_word, lemma_find_bounds, lemma_skip_spaces_bounds, lemma_word_end_bounds,
    skip_spaces, spec_ascii, spec_find, spec_skip_spaces, spec_word_end, word_end, BRACKET_CLOSE,
    BRACKET_OPEN, EQUALS_SIGN,
};
use crate::format_description::component::{Component, Padding, SubsecondDigits, WeekNumberRepr};
use crate::format_description::{
    FormatDescription, FormatItem, InvalidFormatDescription, InvalidFormatDescriptionView,
    ItemView,
};

verus! {

/// The component that a name stands for, as it is written where no modifier
/// says otherwise: padded with zeros, a sign only where the value is
/// negative, the calendar year, a clock of 24 hours, weekdays counted from
/// Monday and from 1, ISO weeks, upper case, and as many digits of the
/// fraction as it needs.
pub open spec fn spec_component_named(name: Seq<u8>) -> Option<Component> {
    if name == spec_ascii("day"@) {
        Some(Component::Day { padding: Padding::Zero })
    } else if name == spec_ascii("month"@) {
        Some(Component::Month { padding: Padding::Zero })
    } else if name == spec_ascii("ordinal"@) {
        Some(Component::Ordinal { padding: Padding::Zero })
    } else if name == spec_ascii("weekday"@) {
        Some(Component::Weekday { from_sunday: false, one_indexed: true })
    } else if name == spec_ascii("week_number"@) {
        Some(Component::WeekNumber { padding: Padding::Zero, repr: WeekNumberRepr::Iso })
    } else if name == spec_ascii("year"@) {
        Some(
            Component::Year {
                padding: Padding::Zero,
                iso_week_based: false,
                sign_is_mandatory: false,
            },
        )
    } else if name == spec_ascii("hour"@) {
        Some(Component::Hour { padding: Padding::Zero, is_12_hour_clock: false })
    } else if name == spec_ascii("minute"@) {
        Some(Component::Minute { padding: Padding::Zero })
    } else if name == spec_ascii("period"@) {
        Some(Component::Period { is_uppercase: true })
    } else if name == spec_ascii("second"@) {
        Some(Component::Second { padding: Padding::Zero })
    } else if name == spec_ascii("subsecond"@) {
        Some(Component::Subsecond { digits: SubsecondDigits::OneOrMore })
    } else if name == spec_ascii("offset_hour"@) {
        Some(Component::OffsetHour { padding: Padding::Zero, sign_is_mandatory: false })
    } else if name == spec_ascii("offset_minute"@) {
        Some(Component::OffsetMinute { padding: Padding::Zero })
    } else if name == spec_ascii("offset_second"@) {
        Some(Component::OffsetSecond { padding: Padding::Zero })
    } else {
        None
    }
}

/// The padding that a word stands for.
pub open spec fn spec_padding_named(word: Seq<u8>) -> Option<Padding> {
    if word == spec_ascii("zero"@) {
        Some(Padding::Zero)
    } else if word == spec_ascii("space"@) {
        Some(Padding::Space)
    } else if word == spec_ascii("none"@) {
        Some(Padding::Unpadded)
    } else {
        None
    }
}

/// The component with one modifier applied, or `None` where the component
/// has no modifier of that key or the key no such value.
pub open spec fn spec_set_modifier(component: Component, key: Seq<u8>, value: Seq<u8>) -> Option<
    Component,
> {
    if key == spec_ascii("padding"@) {
        match spec_padding_named(value) {
            Some(padding) => component.spec_with_padding(padding),
            None => None,
        }
    } else if key == spec_ascii("sign"@) {
        if value == spec_ascii("automatic"@) {
            component.spec_with_sign(false)
        } else if value == spec_ascii("mandatory"@) {
            component.spec_with_sign(true)
        } else {
            None
        }
    } else if key == spec_ascii("repr"@) {
        match component {
            Component::Hour { padding, .. } => {
                if value == spec_ascii("24"@) {
                    Some(Component::Hour { padding, is_12_hour_clock: false })
                } else if value == spec_ascii("12"@) {
                    Some(Component::Hour { padding, is_12_hour_clock: true })
                } else {
                    None
                }
            },
            Component::WeekNumber { padding, .. } => {
                if value == spec_ascii("iso"@) {
                    Some(Component::WeekNumber { padding, repr: WeekNumberRepr::Iso })
                } else if value == spec_ascii("sunday"@) {
                    Some(Component::WeekNumber { padding, repr: WeekNumberRepr::Sunday })
                } else if value == spec_ascii("monday"@) {
                    Some(Component::WeekNumber { padding, repr: WeekNumberRepr::Monday })
                } else {
                    None
                }
            },
            Component::Weekday { one_indexed, .. } => {
                if value == spec_ascii("sunday"@) {
                    Some(Component::Weekday { from_sunday: true, one_indexed })
                } else if value == spec_ascii("monday"@) {
                    Some(Component::Weekday { from_sunday: false, one_indexed })
                } else {
                    None
                }
            },
            _ => None,
        }
    } else if key == spec_ascii("base"@) {
        match component {
            Component::Year { padding, sign_is_mandatory, .. } => {
                if value == spec_ascii("calendar"@) {
                    Some(Component::Year { padding, iso_week_based: false, sign_is_mandatory })
                } else if value == spec_ascii("iso_week"@) {
                    Some(Component::Year { padding, iso_week_based: true, sign_is_mandatory })
                } else {
                    None
                }
            },
            _ => None,
        }
    } else if key == spec_ascii("one_indexed"@) {
        match component {
            Component::Weekday { from_sunday, .. } => {
                if value == spec_ascii("true"@) {
                    Some(Component::Weekday { from_sunday, one_indexed: true })
                } else if value == spec_ascii("false"@) {
                    Some(Component::Weekday { from_sunday, one_indexed: false })
                } else {
                    None
                }
            },
            _ => None,
        }
    } else if key == spec_ascii("case"@) {
        match component {
            Component::Period { .. } => {
                if value == spec_ascii("upper"@) {
                    Some(Component::Period { is_uppercase: true })
                } else if value == spec_ascii("lower"@) {
                    Some(Component::Period { is_uppercase: false })
                } else {
                    None
                }
            },
            _ => None,
        }
    } else if key == spec_ascii("digits"@) {
        match component {
            Component::Subsecond { .. } => {
                if value == spec_ascii("1+"@) {
                    Some(Component::Subsecond { digits: SubsecondDigits::OneOrMore })
                } else if value.len() == 1 && 49 <= value[0] <= 57 {
                    Some(
                        Component::Subsecond {
                            digits: SubsecondDigits::Exactly((value[0] - 48) as u8),
                        },
                    )
                } else {
                    None
                }
            },
            _ => None,
        }
    } else {
        None
    }
}

/// The component with the modifier of one word applied: the word is a key,
/// an equals sign and a value.
pub open spec fn spec_apply_modifier(component: Component, word: Seq<u8>) -> Option<Component> {
    let sign = spec_find(word, 0, EQUALS_SIGN);
    if sign >= word.len() {
        None
    } else {
        spec_set_modifier(
            component,
            word.subrange(0, sign),
            word.subrange(sign + 1, word.len() as int),
        )
    }
}

/// The component after the modifiers that stand in `body` from `from` on
/// have been applied in order; a later modifier of the same key replaces an
/// earlier one. `offset` is where `body` begins in the source.
pub open spec fn spec_modifiers(body: Seq<u8>, from: int, component: Component, offset: int)
    -> Result<Component, InvalidFormatDescriptionView>
    decreases body.len() - from,
    via spec_modifiers_decreases
{
    let start = spec_skip_spaces(body, from);
    if from < 0 || start >= body.len() {
        Ok(component)
    } else {
        let end = spec_word_end(body, start);
        match spec_apply_modifier(component, body.subrange(start, end)) {
            Some(changed) => spec_modifiers(body, end, changed, offset),
            None => Err(
                InvalidFormatDescriptionView::InvalidModifier {
                    component: component.spec_name(),
                    value: body.subrange(start, end),
                    index: offset + start,
                },
            ),
        }
    }
}

#[via_fn]
proof fn spec_modifiers_decreases(body: Seq<u8>, from: int, component: Component, offset: int) {
    if from >= 0 && from <= body.len() {
        lemma_skip_spaces_bounds(body, from);
        let start = spec_skip_spaces(body, from);
        if start < body.len() {
            lemma_word_end_bounds(body, start);
        }
    }
}

/// The component that the text between a pair of brackets describes: a
/// name and then modifiers, with spaces before, between and after them.
/// `offset` is where `body` begins in the source.
pub open spec fn spec_component(body: Seq<u8>, offset: int) -> Result<
    Component,
    InvalidFormatDescriptionView,
> {
    let start = spec_skip_spaces(body, 0);
    let end = spec_word_end(body, start);
    if start >= body.len() {
        Err(InvalidFormatDescriptionView::MissingComponentName { index: offset + start })
    } else {
        match spec_component_named(body.subrange(start, end)) {
            Some(component) => spec_modifiers(body, end, component, offset),
            None => Err(
                InvalidFormatDescriptionView::InvalidComponentName {
                    name: body.subrange(start, end),
                    index: offset + start,
                },
            ),
        }
    }
}

/// The instructions with one more in front.
pub open spec fn spec_extend(
    first: ItemView,
    rest: Result<Seq<ItemView>, InvalidFormatDescriptionView>,
) -> Result<Seq<ItemView>, InvalidFormatDescriptionView> {
    match rest {
        Ok(items) => Ok(seq![first] + items),
        Err(error) => Err(error),
    }
}

/// The instructions that the source describes from `from` on. A run of
/// bytes up to the next opening bracket is one instruction of text. Two
/// opening brackets are one instruction of text, an opening bracket. One
/// opening bracket begins a component that reaches to the next closing
/// bracket.
pub open spec fn spec_compile_from(source: Seq<u8>, from: int) -> Result<
    Seq<ItemView>,
    InvalidFormatDescriptionView,
>
    decreases source.len() - from,
    via spec_compile_from_decreases
{
    if from < 0 || from >= source.len() {
        Ok(Seq::empty())
    } else if source[from] != BRACKET_OPEN {
        let end = spec_find(source, from + 1, BRACKET_OPEN);
        spec_extend(
            ItemView::Literal(source.subrange(from, end)),
            spec_compile_from(source, end),
        )
    } else if from + 1 < source.len() && source[from + 1] == BRACKET_OPEN {
        spec_extend(ItemView::Literal(seq![BRACKET_OPEN]), spec_compile_from(source, from + 2))
    } else {
        let close = spec_find(source, from + 1, BRACKET_CLOSE);
        if close >= source.len() {
            Err(InvalidFormatDescriptionView::UnclosedOpeningBracket { index: from })
        } else {
            match spec_component(source.subrange(from + 1, close), from + 1) {
                Ok(component) => spec_extend(
                    ItemView::Component(component),
                    spec_compile_from(source, close + 1),
                ),
                Err(error) => Err(error),
            }
        }
    }
}

#[via_fn]
proof fn spec_compile_from_decreases(source: Seq<u8>, from: int) {
    if 0 <= from < source.len() {
        lemma_find_bounds(source, from + 1, BRACKET_OPEN);
        lemma_find_bounds(source, from + 1, BRACKET_CLOSE);
    }
}

/// The instructions that a source describes, or why it describes none.
pub open spec fn spec_compile(source: Seq<u8>) -> Result<
    Seq<ItemView>,
    InvalidFormatDescriptionView,
> {
    spec_compile_from(source, 0)
}

/// The instructions that follow instructions already read.
pub open spec fn spec_prepend(
    read: Seq<ItemView>,
    rest: Result<Seq<ItemView>, InvalidFormatDescriptionView>,
) -> Result<Seq<ItemView>, InvalidFormatDescriptionView> {
    match rest {
        Ok(items) => Ok(read + items),
        Err(error) => Err(error),
    }
}

/// Reading one more instruction moves it from the rest to what was read.
proof fn lemma_prepend_step(
    read: Seq<ItemView>,
    next: ItemView,
    rest: Result<Seq<ItemView>, InvalidFormatDescriptionView>,
)
    ensures
        spec_prepend(read, spec_extend(next, rest)) == spec_prepend(read.push(next), rest),
{
    match rest {
        Ok(items) => {
            assert(read + (seq![next] + items) =~= read.push(next) + items);
        },
        Err(_) => {},
    }
}

/// The component that a name stands for.
fn component_named(name: &[u8]) -> (component: Option<Component>)
    ensures
        component == spec_component_named(name@),
        component is Some ==> component->0.wf(),
{
    proof {
        reveal_strlit("day");
        reveal_strlit("month");
        reveal_strlit("ordinal");
        reveal_strlit("weekday");
        reveal_strlit("week_number");
        reveal_strlit("year");
        reveal_strlit("hour");
        reveal_strlit("minute");
        reveal_strlit("period");
        reveal_strlit("second");
        reveal_strlit("subsecond");
        reveal_strlit("offset_hour");
        reveal_strlit("offset_minute");
        reveal_strlit("offset_second");
    }
    if is_word(name, "day") {
        Some(Component::Day { padding: Padding::Zero })
    } else if is_word(name, "month") {
        Some(Component::Month { padding: Padding::Zero })
    } else if is_word(name, "ordinal") {
        Some(Component::Ordinal { padding: Padding::Zero })
    } else if is_word(name, "weekday") {
        Some(Component::Weekday { from_sunday: false, one_indexed: true })
    } else if is_word(name, "week_number") {
        Some(Component::WeekNumber { padding: Padding::Zero, repr: WeekNumberRepr::Iso })
    } else if is_word(name, "year") {
        Some(
            Component::Year {
                padding: Padding::Zero,
                iso_week_based: false,
                sign_is_mandatory: false,
            },
        )
    } else if is_word(name, "hour") {
        Some(Component::Hour { padding: Padding::Zero, is_12_hour_clock: false })
    } else if is_word(name, "minute") {
        Some(Component::Minute { padding: Padding::Zero })
    } else if is_word(name, "period") {
        Some(Component::Period { is_uppercase: true })
    } else if is_word(name, "second") {
        Some(Component::Second { padding: Padding::Zero })
    } else if is_word(name, "subsecond") {
        Some(Component::Subsecond { digits: SubsecondDigits::OneOrMore })
    } else if is_word(name, "offset_hour") {
        Some(Component::OffsetHour { padding: Padding::Zero, sign_is_mandatory: false })
    } else if is_word(name, "offset_minute") {
        Some(Component::OffsetMinute { padding: Padding::Zero })
    } else if is_word(name, "offset_second") {
        Some(Component::OffsetSecond { padding: Padding::Zero })
    } else {
        None
    }
}

/// The padding that a word stands for.
fn padding_named(word: &[u8]) -> (padding: Option<Padding>)
    ensures
        padding == spec_padding_named(word@),
{
    proof {
        reveal_strlit("zero");
        reveal_strlit("space");
        reveal_strlit("none");
    }
    if is_word(word, "zero") {
        Some(Padding::Zero)
    } else if is_word(word, "space") {
        Some(Padding::Space)
    } else if is_word(word, "none") {
        Some(Padding::Unpadded)
    } else {
        None
    }
}

/// The component with the modifier of the given key and value applied.
fn set_modifier(component: Component, key: &[u8], value: &[u8]) -> (changed: Option<Component>)
    requires
        component.wf(),
    ensures
        changed == spec_set_modifier(component, key@, value@),
        changed is Some ==> changed->0.wf(),
{
    proof {
        reveal_strlit("padding");
        reveal_strlit("sign");
        reveal_strlit("automatic");
        reveal_strlit("mandatory");
        reveal_strlit("repr");
        reveal_strlit("24");
        reveal_strlit("12");
        reveal_strlit("iso");
        reveal_strlit("sunday");
        reveal_strlit("monday");
        reveal_strlit("base");
        reveal_strlit("calendar");
        reveal_strlit("iso_week");
        reveal_strlit("one_indexed");
        reveal_strlit("true");
        reveal_strlit("false");
        reveal_strlit("case");
        reveal_strlit("upper");
        reveal_strlit("lower");
        reveal_strlit("digits");
        reveal_strlit("1+");
    }
    if is_word(key, "padding") {
        match padding_named(value) {
            Some(padding) => component.with_padding(padding),
            None => None,
        }
    } else if is_word(key, "sign") {
        if is_word(value, "automatic") {
            component.with_sign(false)
        } else if is_word(value, "mandatory") {
            component.with_sign(true)
        } else {
            None
        }
    } else if is_word(key, "repr") {
        match component {
            Component::Hour { padding, .. } => {
                if is_word(value, "24") {
                    Some(Component::Hour { padding, is_12_hour_clock: false })
                } else if is_word(value, "12") {
                    Some(Component::Hour { padding, is_12_hour_clock: true })
                } else {
                    None
                }
            },
            Component::WeekNumber { padding, .. } => {
                if is_word(value, "iso") {
                    Some(Component::WeekNumber { padding, repr: WeekNumberRepr::Iso })
                } else if is_word(value, "sunday") {
                    Some(Component::WeekNumber { padding, repr: WeekNumberRepr::Sunday })
                } else if is_word(value, "monday") {
                    Some(Component::WeekNumber { padding, repr: WeekNumberRepr::Monday })
                } else {
                    None
                }
            },
            Component::Weekday { one_indexed, .. } => {
                if is_word(value, "sunday") {
                    Some(Component::Weekday { from_sunday: true, one_indexed })
                } else if is_word(value, "monday") {
                    Some(Component::Weekday { from_sunday: false, one_indexed })
                } else {
                    None
                }
            },
            _ => None,
        }
    } else if is_word(key, "base") {
        match component {
            Component::Year { padding, sign_is_mandatory, .. } => {
                if is_word(value, "calendar") {
                    Some(Component::Year { padding, iso_week_based: false, sign_is_mandatory })
                } else if is_word(value, "iso_week") {
                    Some(Component::Year { padding, iso_week_based: true, sign_is_mandatory })
                } else {
                    None
                }
            },
            _ => None,
        }
    } else if is_word(key, "one_indexed") {
        match component {
            Component::Weekday { from_sunday, .. } => {
                if is_word(value, "true") {
                    Some(Component::Weekday { from_sunday, one_indexed: true })
                } else if is_word(value, "false") {
                    Some(Component::Weekday { from_sunday, one_indexed: false })
                } else {
                    None
                }
            },
            _ => None,
        }
    } else if is_word(key, "case") {
        match component {
            Component::Period { .. } => {
                if is_word(value, "upper") {
                    Some(Component::Period { is_uppercase: true })
                } else if is_word(value, "lower") {
                    Some(Component::Period { is_uppercase: false })
                } else {
                    None
                }
            },
            _ => None,
        }
    } else if is_word(key, "digits") {
        match component {
            Component::Subsecond { .. } => {
                if is_word(value, "1+") {
                    Some(Component::Subsecond { digits: SubsecondDigits::OneOrMore })
                } else if value.len() == 1 && 49 <= value[0] && value[0] <= 57 {
                    Some(Component::Subsecond { digits: SubsecondDigits::Exactly(value[0] - 48) })
                } else {
                    None
                }
            },
            _ => None,
        }
    } else {
        None
    }
}

/// The component with the modifier of one word applied.
fn apply_modifier(component: Component, word: &[u8]) -> (changed: Option<Component>)
    requires
        component.wf(),
    ensures
        changed == spec_apply_modifier(component, word@),
        changed is Some ==> changed->0.wf(),
{
    let sign: usize = find_byte(word, 0, EQUALS_SIGN);
    if sign >= word.len() {
        None
    } else {
        set_modifier(
            component,
            slice_subrange(word, 0, sign),
            slice_subrange(word, sign + 1, word.len()),
        )
    }
}

/// The component that the text between a pair of brackets describes.
fn parse_component(body: &[u8], offset: usize) -> (component: Result<
    Component,
    InvalidFormatDescription,
>)
    requires
        offset + body@.len() <= usize::MAX,
    ensures
        match component {
            Ok(found) => spec_component(body@, offset as int) == Ok::<
                Component,
                InvalidFormatDescriptionView,
            >(found) && found.wf(),
            Err(error) => spec_component(body@, offset as int) == Err::<
                Component,
                InvalidFormatDescriptionView,
            >(error@),
        },
{
    let start: usize = skip_spaces(body, 0);
    if start >= body.len() {
        return Err(InvalidFormatDescription::MissingComponentName { index: offset + start });
    }
    let end: usize = word_end(body, start);
    let mut component: Component = match component_named(slice_subrange(body, start, end)) {
        Some(component) => component,
        None => {
            return Err(
                InvalidFormatDescription::InvalidComponentName {
                    name: slice_to_vec(slice_subrange(body, start, end)),
                    index: offset + start,
                },
            );
        },
    };
    let mut at: usize = end;
    loop
        invariant
            at <= body@.len(),
            offset + body@.len() <= usize::MAX,
            component.wf(),
            spec_component(body@, offset as int) == spec_modifiers(
                body@,
                at as int,
                component,
                offset as int,
            ),
        ensures
            spec_component(body@, offset as int) == Ok::<Component, InvalidFormatDescriptionView>(
                component,
            ),
        decreases body@.len() - at,
    {
        let word: usize = skip_spaces(body, at);
        if word >= body.len() {
            break ;
        }
        let word_ends: usize = word_end(body, word);
        match apply_modifier(component, slice_subrange(body, word, word_ends)) {
            Some(changed) => {
                component = changed;
                at = word_ends;
            },
            None => {
                return Err(
                    InvalidFormatDescription::InvalidModifier {
                        component: component.name(),
                        value: slice_to_vec(slice_subrange(body, word, word_ends)),
                        index: offset + word,
                    },
                );
            },
        }
    }
    Ok(component)
}

/// Compiles the source of a format description.
pub fn parse(source: &[u8]) -> (compiled: Result<FormatDescription, InvalidFormatDescription>)
    ensures
        match compiled {
            Ok(description) => spec_compile(source@) == Ok::<
                Seq<ItemView>,
                InvalidFormatDescriptionView,
            >(description@) && description.wf(),
            Err(error) => spec_compile(source@) == Err::<
                Seq<ItemView>,
                InvalidFormatDescriptionView,
            >(error@),
        },
{
    let mut items: Vec<FormatItem> = Vec::new();
    let mut at: usize = 0;
    while at < source.len()
        invariant
            at <= source@.len(),
            spec_compile(source@) == spec_prepend(
                items@.map_values(|item: FormatItem| item@),
                spec_compile_from(source@, at as int),
            ),
            crate::format_description::spec_items_wf(items@.map_values(|item: FormatItem| item@)),
        decreases source@.len() - at,
    {
        let ghost read = items@.map_values(|item: FormatItem| item@);
        let next: usize;
        let item: FormatItem;
        if source[at] != BRACKET_OPEN {
            next = find_byte(source, at + 1, BRACKET_OPEN);
            item = FormatItem::Literal(slice_to_vec(slice_subrange(source, at, next)));
        } else if at + 1 < source.len() && source[at + 1] == BRACKET_OPEN {
            next = at + 2;
            let mut bracket: Vec<u8> = Vec::new();
            bracket.push(BRACKET_OPEN);
            assert(bracket@ =~= seq![BRACKET_OPEN]);
            item = FormatItem::Literal(bracket);
        } else {
            let close: usize = find_byte(source, at + 1, BRACKET_CLOSE);
            if close >= source.len() {
                return Err(InvalidFormatDescription::UnclosedOpeningBracket { index: at });
            }
            match parse_component(slice_subrange(source, at + 1, close), at + 1) {
                Ok(component) => {
                    item = FormatItem::Component(component);
                },
                Err(error) => {
                    return Err(error);
                },
            }
            next = close + 1;
        }
        proof {
            lemma_prepend_step(read, item@, spec_compile_from(source@, next as int));
            assert(items@.push(item).map_values(|item: FormatItem| item@) =~= read.push(item@));
        }
        items.push(item);
        at = next;
    }
    proof {
        let read = items@.map_values(|item: FormatItem| item@);
        assert(read + Seq::<ItemView>::empty() =~= read);
    }
    Ok(FormatDescription::from_wf_items(items))
}

} // verus!
