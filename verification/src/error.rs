//! The ways in which deriving a sort key can fail.

use vstd::prelude::*;
use vstd::string::StringExecFns;

verus! {

/// Why no sort key could be derived for an image.
#[derive(Debug, Clone, Copy, PartialEq, Eq, Structural)]
pub enum TimestampError {
    /// The image bytes are not a metadata container that the reader can parse.
    UnrecognizedContainer,
    /// None of the date-time tags is present.
    MissingMetadata,
    /// A date-time or offset value has the wrong shape, or names no valid
    /// calendar date and time.
    MalformedTimestamp,
}

impl TimestampError {
    /// A short description for the operator.
    pub fn message(&self) -> (text: String)
        ensures
            text@ == match *self {
                TimestampError::UnrecognizedContainer => "not a recognized metadata container"@,
                TimestampError::MissingMetadata => "no date time metadata found"@,
                TimestampError::MalformedTimestamp => "malformed date time or offset"@,
            },
    {
        match self {
            TimestampError::UnrecognizedContainer => String::from_str(
                "not a recognized metadata container",
            ),
            TimestampError::MissingMetadata => String::from_str("no date time metadata found"),
            TimestampError::MalformedTimestamp => String::from_str("malformed date time or offset"),
        }
    }
}

} // verus!
