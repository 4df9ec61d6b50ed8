//! Descriptions of how a date, a time and an offset are written as text.
//!
//! A description is compiled once from its source and then used any number
//! of times to write values and to read them back. In the source, text
//! stands for itself, and a pair of square brackets holds the name of a
//! component and, after it, modifiers of the form `key=value`, as in
//! `[year]-[month]-[day padding=none]`. Two opening brackets in a row stand
//! for one opening bracket of text.

use vstd::prelude::*;

pub mod component;
pub mod parse;
pub mod well_known;

pub use component::{Component, Padding, SubsecondDigits, WeekNumberRepr};
pub use parse::parse;

verus! {

/// One instruction of a compiled description.
#[derive(Debug, Clone, PartialEq, Eq)]
pub enum FormatItem {
    /// Text that is written, and expected, as it stands.
    Literal(Vec<u8>),
    /// A field of the value.
    Component(Component),
}

/// An instruction of a compiled description, as contracts see it.
pub enum ItemView {
    Literal(Seq<u8>),
    Component(Component),
}

impl View for FormatItem {
    type V = ItemView;

    open spec fn view(&self) -> ItemView {
        match self {
            FormatItem::Literal(text) => ItemView::Literal(text@),
            FormatItem::Component(component) => ItemView::Component(*component),
        }
    }
}

/// A compiled description: its instructions in order.
#[derive(Debug, Clone, PartialEq, Eq)]
pub struct FormatDescription {
    items: Vec<FormatItem>,
}

/// Whether every component among the instructions is well formed.
pub open spec fn spec_items_wf(items: Seq<ItemView>) -> bool {
    forall|i: int|
        0 <= i < items.len() ==> match #[trigger] items[i] {
            ItemView::Component(component) => component.wf(),
            ItemView::Literal(_) => true,
        }
}

impl FormatDescription {
    /// The instructions in order.
    pub closed spec fn view(&self) -> Seq<ItemView> {
        self.items@.map_values(|item: FormatItem| item@)
    }

    /// Every component of the description is well formed.
    pub open spec fn wf(&self) -> bool {
        spec_items_wf(self@)
    }

    /// The description made of instructions whose components are well
    /// formed.
    pub(crate) fn from_wf_items(items: Vec<FormatItem>) -> (description: FormatDescription)
        requires
            spec_items_wf(items@.map_values(|item: FormatItem| item@)),
        ensures
            description@ == items@.map_values(|item: FormatItem| item@),
            description.wf(),
    {
        FormatDescription { items }
    }

    /// The description made of the given instructions, or `None` where one
    /// of them is a component that is not well formed: a fraction of a
    /// second with a count of digits outside 1..=9.
    pub fn from_items(items: Vec<FormatItem>) -> (description: Option<FormatDescription>)
        ensures
            description is Some <==> spec_items_wf(items@.map_values(|item: FormatItem| item@)),
            description is Some ==> description->0@ == items@.map_values(
                |item: FormatItem| item@,
            ) && description->0.wf(),
    {
        let ghost views = items@.map_values(|item: FormatItem| item@);
        let mut at: usize = 0;
        while at < items.len()
            invariant
                at <= items@.len(),
                views == items@.map_values(|item: FormatItem| item@),
                forall|i: int|
                    0 <= i < at ==> match #[trigger] views[i] {
                        ItemView::Component(component) => component.wf(),
                        ItemView::Literal(_) => true,
                    },
            decreases items@.len() - at,
        {
            match &items[at] {
                FormatItem::Component(component) => {
                    if !component.is_wf() {
                        assert(views[at as int] == ItemView::Component(*component));
                        return None;
                    }
                },
                FormatItem::Literal(_) => {},
            }
            at = at + 1;
        }
        Some(FormatDescription { items })
    }

    /// Number of instructions.
    pub fn len(&self) -> (len: usize)
        ensures
            len == self@.len(),
    {
        self.items.len()
    }

    /// The instruction at a position.
    pub fn item(&self, index: usize) -> (item: &FormatItem)
        requires
            index < self@.len(),
        ensures
            item@ == self@[index as int],
    {
        &self.items[index]
    }
}

/// Why the source of a description could not be compiled.
#[derive(Debug, Clone, PartialEq, Eq)]
pub enum InvalidFormatDescription {
    /// The bracket opened at `index` is never closed.
    UnclosedOpeningBracket { index: usize },
    /// The brackets opened before `index` hold no name.
    MissingComponentName { index: usize },
    /// The name at `index` is not the name of a component.
    InvalidComponentName { name: Vec<u8>, index: usize },
    /// The modifier `value` at `index` is malformed, or is not one that the
    /// component can carry.
    InvalidModifier { component: &'static str, value: Vec<u8>, index: usize },
}

/// A compilation error, as contracts see it.
pub enum InvalidFormatDescriptionView {
    UnclosedOpeningBracket { index: int },
    MissingComponentName { index: int },
    InvalidComponentName { name: Seq<u8>, index: int },
    InvalidModifier { component: &'static str, value: Seq<u8>, index: int },
}

impl View for InvalidFormatDescription {
    type V = InvalidFormatDescriptionView;

    open spec fn view(&self) -> InvalidFormatDescriptionView {
        match self {
            InvalidFormatDescription::UnclosedOpeningBracket { index } => {
                InvalidFormatDescriptionView::UnclosedOpeningBracket { index: *index as int }
            },
            InvalidFormatDescription::MissingComponentName { index } => {
                InvalidFormatDescriptionView::MissingComponentName { index: *index as int }
            },
            InvalidFormatDescription::InvalidComponentName { name, index } => {
                InvalidFormatDescriptionView::InvalidComponentName {
                    name: name@,
                    index: *index as int,
                }
            },
            InvalidFormatDescription::InvalidModifier { component, value, index } => {
                InvalidFormatDescriptionView::InvalidModifier {
                    component: *component,
                    value: value@,
                    index: *index as int,
                }
            },
        }
    }
}

} // verus!
