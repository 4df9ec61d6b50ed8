//! Failure to read one instruction of a format description from the input.

use vstd::prelude::*;
use vstd::string::*;

verus! {

/// The input did not match an instruction of the format description.
#[non_exhaustive]
#[derive(Debug, Clone, Copy, PartialEq, Eq)]
pub enum IntermediateParse {
    /// The literal text that the description asks for was not there.
    InvalidLiteral,
    /// The text of the named component was malformed or out of range.
    InvalidComponent(&'static str),
}

impl IntermediateParse {
    /// The error in words.
    pub open spec fn spec_message(&self) -> Seq<char> {
        match self {
            IntermediateParse::InvalidLiteral => "a character literal was not valid"@,
            IntermediateParse::InvalidComponent(name) => "the '"@ + name@
                + "' component could not be parsed"@,
        }
    }

    /// The error in words, naming the component where one is at fault.
    pub fn message(&self) -> (text: String)
        ensures
            text@ == self.spec_message(),
    {
        match self {
            IntermediateParse::InvalidLiteral => String::from_str(
                "a character literal was not valid",
            ),
            IntermediateParse::InvalidComponent(name) => {
                let mut text = String::from_str("the '");
                text.append(name);
                text.append("' component could not be parsed");
                text
            },
        }
    }
}

} // verus!
