//! The ways in which a record or an operator argument is refused.

use vstd::prelude::*;

verus! {

/// Why the library refused an input.
#[derive(Clone, Copy, Debug, PartialEq, Eq, Structural)]
pub enum FastqError {
    /// Sequence and quality of a record differ in length.
    MalformedRecord,
    /// A numeric operator argument lies outside its declared range; the
    /// offending value and the inclusive bounds are carried along.
    InvalidArgument { value: i64, low: i64, high: i64 },
    /// A pattern, or a list of patterns, is not a valid regular expression.
    InvalidPattern,
    /// More bases were to be trimmed than the record holds.
    TrimExceedsLength,
}

} // verus!
