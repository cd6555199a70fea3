//! The ways in which an input can be refused.

use vstd::prelude::*;

verus! {

/// Why one input could not be encoded or decoded. The other inputs of a run
/// are not affected.
#[derive(Clone, Copy, Debug, PartialEq, Eq, Structural)]
pub enum EncodeError {
    /// The input does not parse as a URL.
    InvalidUrl,
    /// A `%` is not followed by two hexadecimal digits.
    MalformedEscape,
    /// The decoded bytes are not UTF-8.
    InvalidUtf8,
}

} // verus!
