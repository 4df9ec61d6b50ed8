//! A value that lies outside the bounds of its field.

use vstd::prelude::*;

verus! {

/// A field of a date, a time or an offset was given a value outside its
/// inclusive bounds.
#[derive(Debug, Clone, Copy, PartialEq, Eq)]
pub struct ComponentRange {
    /// Name of the field.
    pub name: &'static str,
    /// Smallest value the field accepts.
    pub minimum: i64,
    /// Largest value the field accepts.
    pub maximum: i64,
    /// The value that was given.
    pub value: i64,
    /// Whether the bounds depend on the value of another field, as the last
    /// day of a month depends on the month and the year.
    pub conditional_range: bool,
}

impl ComponentRange {
    /// Name of the field that was out of range.
    pub fn name(self) -> (name: &'static str)
        ensures
            name == self.name,
    {
        self.name
    }

    /// Whether the bounds that were violated depend on another field.
    pub fn is_conditional(self) -> (conditional: bool)
        ensures
            conditional == self.conditional_range,
    {
        self.conditional_range
    }
}

/// What a range check yields: the value itself inside the bounds, else the
/// error that records the field, the bounds and the value.
pub open spec fn spec_ensure_in_range(
    name: &'static str,
    value: i64,
    minimum: i64,
    maximum: i64,
    conditional: bool,
) -> Result<i64, ComponentRange> {
    if minimum <= value <= maximum {
        Ok(value)
    } else {
        Err(
            ComponentRange {
                name,
                minimum,
                maximum,
                value,
                conditional_range: conditional,
            },
        )
    }
}

/// Checks that `value` lies in `minimum..=maximum`.
pub fn ensure_value_in_range(
    name: &'static str,
    value: i64,
    minimum: i64,
    maximum: i64,
    conditional: bool,
) -> (checked: Result<i64, ComponentRange>)
    ensures
        checked == spec_ensure_in_range(name, value, minimum, maximum, conditional),
{
    if value < minimum || value > maximum {
        Err(ComponentRange { name, minimum, maximum, value, conditional_range: conditional })
    } else {
        Ok(value)
    }
}

} // verus!
