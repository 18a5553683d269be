//! What can go wrong: in a mapping resource, in text to encode, in bytes to decode.

use vstd::prelude::*;

verus! {

/// A fault in a mapping resource. A resource with a fault builds no table.
#[derive(Debug, Clone, Copy, PartialEq, Eq, Structural)]
pub enum TableError {
    /// The token at `index`, counted from zero, is not a two-byte prefix
    /// followed by hexadecimal digits, or its number is too large for its place.
    MalformedToken { index: usize },
    /// The tokens do not pair up: their count is odd.
    OddTokenCount,
    /// The number of the token at `index`, which stands in the place of a
    /// codepoint, is no Unicode scalar value.
    InvalidCodepoint { index: usize },
}

/// A character that has no Big5 code and lies outside the range that is
/// written as a single byte.
#[derive(Debug, PartialEq, Eq)]
pub struct EncodeError {
    /// The first character of the text that cannot be encoded.
    pub character: char,
    /// The whole text that was to be encoded.
    pub text: String,
}

/// Bytes that are no sequence of two-byte symbols.
#[derive(Debug, Clone, Copy, PartialEq, Eq, Structural)]
pub enum DecodeError {
    /// The number of bytes is odd.
    OddLength,
}

} // verus!
