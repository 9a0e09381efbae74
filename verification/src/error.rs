//! The ways in which a lookup or a parse can fail.
use vstd::prelude::*;

verus! {

/// Why a timezone or a daylight-saving window could not be resolved.
#[derive(Debug, Clone, Copy, PartialEq, Eq, Structural)]
pub enum DateError {
    /// No line of the timezone table holds the name that was asked for.
    NotFound,
    /// A text that should hold numbers does not hold them where they are
    /// expected.
    ParseFailure,
    /// The transition source gave fewer records than the two of a year.
    MalformedOutput,
    /// The timezone table gives an offset that a calendar value cannot
    /// record: one of more than eight bits.
    OffsetOutOfRange,
}

} // verus!
