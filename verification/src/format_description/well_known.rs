//! Descriptions of formats in common use, ready made.

use vstd::prelude::*;
use crate::format_description::component::{Component, Padding};
use crate::format_description::{FormatDescription, FormatItem, ItemView};

verus! {

/// The text of one byte.
fn literal(byte: u8) -> (item: FormatItem)
    ensures
        item@ == ItemView::Literal(seq![byte]),
{
    let mut text: Vec<u8> = Vec::new();
    text.push(byte);
    assert(text@ =~= seq![byte]);
    FormatItem::Literal(text)
}

/// The year as four digits.
pub open spec fn spec_year() -> Component {
    Component::Year { padding: Padding::Zero, iso_week_based: false, sign_is_mandatory: false }
}

/// The instructions of the calendar date of ISO 8601: year, month and day
/// with hyphens between them, as in `2021-01-31`.
pub open spec fn spec_iso_date() -> Seq<ItemView> {
    seq![
        ItemView::Component(spec_year()),
        ItemView::Literal(seq![45u8]),
        ItemView::Component(Component::Month { padding: Padding::Zero }),
        ItemView::Literal(seq![45u8]),
        ItemView::Component(Component::Day { padding: Padding::Zero }),
    ]
}

/// The instructions of the time of day of ISO 8601: hour, minute and second
/// with colons between them, as in `23:59:59`.
pub open spec fn spec_iso_time() -> Seq<ItemView> {
    seq![
        ItemView::Component(Component::Hour { padding: Padding::Zero, is_12_hour_clock: false }),
        ItemView::Literal(seq![58u8]),
        ItemView::Component(Component::Minute { padding: Padding::Zero }),
        ItemView::Literal(seq![58u8]),
        ItemView::Component(Component::Second { padding: Padding::Zero }),
    ]
}

/// The instructions of an offset as RFC 3339 writes it: hours with their
/// sign, a colon, and minutes, as in `+01:00`.
pub open spec fn spec_numeric_offset() -> Seq<ItemView> {
    seq![
        ItemView::Component(
            Component::OffsetHour { padding: Padding::Zero, sign_is_mandatory: true },
        ),
        ItemView::Literal(seq![58u8]),
        ItemView::Component(Component::OffsetMinute { padding: Padding::Zero }),
    ]
}

/// The instructions of a date and time of RFC 3339 with the offset in
/// numbers, as in `2021-01-31T23:59:59+01:00`.
pub open spec fn spec_rfc3339() -> Seq<ItemView> {
    spec_iso_date() + seq![ItemView::Literal(seq![84u8])] + spec_iso_time()
        + spec_numeric_offset()
}

/// Appends the instructions of the calendar date of ISO 8601.
fn push_iso_date(items: &mut Vec<FormatItem>)
    ensures
        final(items)@.map_values(|item: FormatItem| item@) == old(items)@.map_values(
            |item: FormatItem| item@,
        ) + spec_iso_date(),
{
    items.push(
        FormatItem::Component(
            Component::Year {
                padding: Padding::Zero,
                iso_week_based: false,
                sign_is_mandatory: false,
            },
        ),
    );
    items.push(literal(45));
    items.push(FormatItem::Component(Component::Month { padding: Padding::Zero }));
    items.push(literal(45));
    items.push(FormatItem::Component(Component::Day { padding: Padding::Zero }));
    assert(items@.map_values(|item: FormatItem| item@) =~= old(items)@.map_values(
        |item: FormatItem| item@,
    ) + spec_iso_date());
}

/// Appends the instructions of the time of day of ISO 8601.
fn push_iso_time(items: &mut Vec<FormatItem>)
    ensures
        final(items)@.map_values(|item: FormatItem| item@) == old(items)@.map_values(
            |item: FormatItem| item@,
        ) + spec_iso_time(),
{
    items.push(
        FormatItem::Component(Component::Hour { padding: Padding::Zero, is_12_hour_clock: false }),
    );
    items.push(literal(58));
    items.push(FormatItem::Component(Component::Minute { padding: Padding::Zero }));
    items.push(literal(58));
    items.push(FormatItem::Component(Component::Second { padding: Padding::Zero }));
    assert(items@.map_values(|item: FormatItem| item@) =~= old(items)@.map_values(
        |item: FormatItem| item@,
    ) + spec_iso_time());
}

/// The calendar date of ISO 8601, as in `2021-01-31`.
pub fn iso_date() -> (description: FormatDescription)
    ensures
        description@ == spec_iso_date(),
        description.wf(),
{
    let mut items: Vec<FormatItem> = Vec::new();
    push_iso_date(&mut items);
    assert(items@.map_values(|item: FormatItem| item@) =~= spec_iso_date());
    FormatDescription::from_wf_items(items)
}

/// The time of day of ISO 8601, as in `23:59:59`.
pub fn iso_time() -> (description: FormatDescription)
    ensures
        description@ == spec_iso_time(),
        description.wf(),
{
    let mut items: Vec<FormatItem> = Vec::new();
    push_iso_time(&mut items);
    assert(items@.map_values(|item: FormatItem| item@) =~= spec_iso_time());
    FormatDescription::from_wf_items(items)
}

/// A date and time of RFC 3339 with the offset in numbers, as in
/// `2021-01-31T23:59:59+01:00`.
pub fn rfc3339() -> (description: FormatDescription)
    ensures
        description@ == spec_rfc3339(),
        description.wf(),
{
    let mut items: Vec<FormatItem> = Vec::new();
    push_iso_date(&mut items);
    items.push(literal(84));
    push_iso_time(&mut items);
    let ghost before = items@.map_values(|item: FormatItem| item@);
    items.push(
        FormatItem::Component(
            Component::OffsetHour { padding: Padding::Zero, sign_is_mandatory: true },
        ),
    );
    items.push(literal(58));
    items.push(FormatItem::Component(Component::OffsetMinute { padding: Padding::Zero }));
    assert(items@.map_values(|item: FormatItem| item@) =~= before + spec_numeric_offset());
    assert(before =~= spec_iso_date() + seq![ItemView::Literal(seq![84u8])] + spec_iso_time());
    FormatDescription::from_wf_items(items)
}

} // verus!
