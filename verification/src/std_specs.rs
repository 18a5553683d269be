//! Contracts for the two functions of the standard library that the
//! converters call and that `vstd` leaves without one. Verus takes both
//! contracts on trust.

use vstd::prelude::*;

verus! {

/// `char::from_u32`: the character with the given scalar value. The standard
/// library documents that it returns `None` exactly when the number is no
/// valid `char`, that is a surrogate (`0xD800..=0xDFFF`) or above `0x10FFFF`.
pub assume_specification[ char::from_u32 ](i: u32) -> (r: Option<char>)
    ensures
        r == if i <= 0xD7FF || (0xE000 <= i && i <= 0x10FFFF) {
            Some(i as char)
        } else {
            None::<char>
        },
;

/// `String::push`: appends one character to the end of the string.
pub assume_specification[ String::push ](s: &mut String, ch: char)
    ensures
        final(s)@ == old(s)@.push(ch),
;

} // verus!
