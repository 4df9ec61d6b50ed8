//! Calendar dates, times of day, signed durations and fixed UTC offsets on the
//! proleptic Gregorian calendar, with a small format-description language for
//! turning them into text and back.
//!
//! Every value is immutable and checked when it is made: a [`Date`] lies in a
//! supported year, the fields of a [`Time`] and of a [`UtcOffset`] lie within
//! their bounds, and a [`Duration`] is kept in canonical form. Arithmetic is
//! exact and fails, with the field that went out of range, where the result
//! cannot be held.

pub mod bytes;
pub mod date;
pub mod duration;
pub mod error;
pub mod format_description;
pub mod formatting;
pub mod offset_date_time;
pub mod parsing;
pub mod primitive_date_time;
pub mod round_trip;
pub mod time;
pub mod utc_offset;
pub mod util;
pub mod weekday;

pub use crate::date::Date;
pub use crate::duration::Duration;
pub use crate::error::Error;
pub use crate::offset_date_time::OffsetDateTime;
pub use crate::primitive_date_time::PrimitiveDateTime;
pub use crate::time::Time;
pub use crate::utc_offset::UtcOffset;
pub use crate::weekday::Weekday;
