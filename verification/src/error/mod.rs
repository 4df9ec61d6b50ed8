//! The errors that the library's operations return.

use vstd::prelude::*;
use crate::format_description::{InvalidFormatDescription, InvalidFormatDescriptionView};

pub mod component_range;
pub mod intermediate_parse;

pub use component_range::ComponentRange;
pub use intermediate_parse::IntermediateParse;

verus! {

/// Any error of the library.
#[derive(Debug, Clone, PartialEq, Eq)]
pub enum Error {
    /// A field was given a value outside its bounds.
    ComponentRange(ComponentRange),
    /// The input did not match an instruction of the format description.
    IntermediateParse(IntermediateParse),
    /// The source of a format description could not be compiled.
    InvalidFormatDescription(InvalidFormatDescription),
    /// The fields that were read do not determine the value asked for.
    InsufficientInformation,
    /// Input was left over after the last instruction of the description.
    UnexpectedTrailingCharacters,
}

/// An error of the library, as contracts see it.
pub enum ErrorView {
    ComponentRange(ComponentRange),
    IntermediateParse(IntermediateParse),
    InvalidFormatDescription(InvalidFormatDescriptionView),
    InsufficientInformation,
    UnexpectedTrailingCharacters,
}

impl View for Error {
    type V = ErrorView;

    open spec fn view(&self) -> ErrorView {
        match self {
            Error::ComponentRange(error) => ErrorView::ComponentRange(*error),
            Error::IntermediateParse(error) => ErrorView::IntermediateParse(*error),
            Error::InvalidFormatDescription(error) => ErrorView::InvalidFormatDescription(error@),
            Error::InsufficientInformation => ErrorView::InsufficientInformation,
            Error::UnexpectedTrailingCharacters => ErrorView::UnexpectedTrailingCharacters,
        }
    }
}

impl From<ComponentRange> for Error {
    fn from(original: ComponentRange) -> (error: Error) {
        Error::ComponentRange(original)
    }
}

impl vstd::std_specs::convert::FromSpecImpl<ComponentRange> for Error {
    open spec fn obeys_from_spec() -> bool {
        true
    }

    open spec fn from_spec(original: ComponentRange) -> Error {
        Error::ComponentRange(original)
    }
}

impl From<IntermediateParse> for Error {
    fn from(original: IntermediateParse) -> (error: Error) {
        Error::IntermediateParse(original)
    }
}

impl vstd::std_specs::convert::FromSpecImpl<IntermediateParse> for Error {
    open spec fn obeys_from_spec() -> bool {
        true
    }

    open spec fn from_spec(original: IntermediateParse) -> Error {
        Error::IntermediateParse(original)
    }
}

impl From<InvalidFormatDescription> for Error {
    fn from(original: InvalidFormatDescription) -> (error: Error) {
        Error::InvalidFormatDescription(original)
    }
}

impl vstd::std_specs::convert::FromSpecImpl<InvalidFormatDescription> for Error {
    open spec fn obeys_from_spec() -> bool {
        true
    }

    open spec fn from_spec(original: InvalidFormatDescription) -> Error {
        Error::InvalidFormatDescription(original)
    }
}

} // verus!
