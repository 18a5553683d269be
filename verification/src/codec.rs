//! The two conversions.
//!
//! Encoding is strict and decoding permissive. [`encode`] writes a character
//! of the table as its two bytes and a character up to [`SINGLE_BYTE_MAX`]
//! without an entry as one byte, and fails on any other character. [`decode`]
//! reads bytes two at a time, whatever they are, and drops a pair that the
//! table does not have; it fails only where the bytes do not pair up.

use vstd::prelude::*;
use crate::error::{DecodeError, EncodeError};
use crate::table::{Big5ToUnicode, UnicodeToBig5};

verus! {

/// The largest scalar value that is written as a single byte where the
/// character has no entry of its own: ASCII, and `0x80` with it.
pub const SINGLE_BYTE_MAX: u32 = 0x80;

/// The bytes that one character is encoded to: its entry in the table, high
/// byte first; failing that, its scalar value as one byte, if that is at most
/// [`SINGLE_BYTE_MAX`]. `None` if neither applies.
pub open spec fn char_bytes(table: Map<char, (u8, u8)>, c: char) -> Option<Seq<u8>> {
    if table.contains_key(c) {
        Some(seq![table[c].0, table[c].1])
    } else if c as u32 <= SINGLE_BYTE_MAX {
        Some(seq![(c as u32) as u8])
    } else {
        None
    }
}

/// Every character of the text can be encoded.
pub open spec fn encodable(table: Map<char, (u8, u8)>, text: Seq<char>) -> bool {
    forall|i: int| 0 <= i < text.len() ==> char_bytes(table, #[trigger] text[i]) is Some
}

/// The character at `index` cannot be encoded, and every character before it can.
pub open spec fn first_unencodable_at(
    table: Map<char, (u8, u8)>,
    text: Seq<char>,
    index: int,
) -> bool {
    &&& 0 <= index < text.len()
    &&& char_bytes(table, text[index]) is None
    &&& forall|j: int| 0 <= j < index ==> char_bytes(table, #[trigger] text[j]) is Some
}

/// The encoding of a text: the bytes of its characters, one after the other
/// in the order of the text, with nothing between them. A character that
/// cannot be encoded adds nothing.
pub open spec fn encoded(table: Map<char, (u8, u8)>, text: Seq<char>) -> Seq<u8>
    decreases text.len(),
{
    if text.len() == 0 {
        Seq::empty()
    } else {
        encoded(table, text.drop_last()) + match char_bytes(table, text.last()) {
            Some(bytes) => bytes,
            None => Seq::empty(),
        }
    }
}

/// What [`encode`] returns for a text: the encoding, if every character can
/// be encoded; else the first character that cannot, with the text.
pub open spec fn encode_result(
    table: Map<char, (u8, u8)>,
    text: Seq<char>,
    r: Result<Vec<u8>, EncodeError>,
) -> bool {
    match r {
        Ok(bytes) => encodable(table, text) && bytes@ == encoded(table, text),
        Err(e) => {
            &&& e.text@ == text
            &&& exists|index: int| #[trigger]
                first_unencodable_at(table, text, index) && e.character == text[index]
        },
    }
}

/// The characters that one byte pair is decoded to: the character of its
/// entry, or nothing where the table has no entry for the pair.
pub open spec fn pair_chars(table: Map<(u8, u8), char>, high: u8, low: u8) -> Seq<char> {
    if table.contains_key((high, low)) {
        seq![table[(high, low)]]
    } else {
        Seq::empty()
    }
}

/// The decoding of bytes of even length: the characters of its pairs, in order.
pub open spec fn decoded(table: Map<(u8, u8), char>, bytes: Seq<u8>) -> Seq<char>
    decreases bytes.len(),
{
    if bytes.len() < 2 {
        Seq::empty()
    } else {
        decoded(table, bytes.take(bytes.len() - 2)) + pair_chars(
            table,
            bytes[bytes.len() - 2],
            bytes[bytes.len() - 1],
        )
    }
}

/// What [`decode`] returns for bytes: the decoding, if their number is even;
/// else the one error there is.
pub open spec fn decode_result(
    table: Map<(u8, u8), char>,
    bytes: Seq<u8>,
    r: Result<String, DecodeError>,
) -> bool {
    match r {
        Ok(text) => bytes.len() % 2 == 0 && text@ == decoded(table, bytes),
        Err(e) => bytes.len() % 2 == 1,
    }
}

/// Encodes a text to Big5-UAO bytes. Fails if and only if some character has
/// no entry in the table and a scalar value above [`SINGLE_BYTE_MAX`]; the
/// error names the first such character.
pub fn encode(table: &UnicodeToBig5, text: &str) -> (r: Result<Vec<u8>, EncodeError>)
    ensures
        r is Ok <==> encodable(table@, text@),
        encode_result(table@, text@, r),
{
    let mut out: Vec<u8> = Vec::new();
    for c in it: text.chars()
        invariant
            it.seq() == text@,
            forall|j: int| 0 <= j < it.index() ==> char_bytes(table@, #[trigger] text@[j]) is Some,
            out@ == encoded(table@, text@.take(it.index() as int)),
    {
        let ghost at = it.index() as int;
        proof {
            assert(text@.take(at + 1).drop_last() =~= text@.take(at));
        }
        match table.lookup(c) {
            Some((high, low)) => {
                out.push(high);
                out.push(low);
            },
            None => {
                let scalar: u32 = c as u32;
                if scalar <= SINGLE_BYTE_MAX {
                    out.push(scalar as u8);
                } else {
                    assert(first_unencodable_at(table@, text@, at));
                    return Err(EncodeError { character: c, text: text.to_owned() });
                }
            },
        }
    }
    proof {
        assert(text@.take(text@.len() as int) =~= text@);
    }
    Ok(out)
}

/// Decodes Big5-UAO bytes to text. Fails if and only if the number of bytes
/// is odd. A pair without an entry in the table is dropped.
pub fn decode(table: &Big5ToUnicode, bytes: &[u8]) -> (r: Result<String, DecodeError>)
    ensures
        r is Ok <==> bytes@.len() % 2 == 0,
        decode_result(table@, bytes@, r),
{
    let n: usize = bytes.len();
    if n % 2 != 0 {
        return Err(DecodeError::OddLength);
    }
    let mut out = String::new();
    let mut i: usize = 0;
    while i < n
        invariant
            n == bytes@.len(),
            n % 2 == 0,
            i % 2 == 0,
            i <= n,
            out@ == decoded(table@, bytes@.take(i as int)),
        decreases n - i,
    {
        let high: u8 = bytes[i];
        let low: u8 = bytes[i + 1];
        proof {
            let next = bytes@.take(i + 2);
            assert(next.take(next.len() - 2) =~= bytes@.take(i as int));
        }
        if let Some(c) = table.lookup(high, low) {
            out.push(c);
        }
        i += 2;
    }
    proof {
        assert(bytes@.take(n as int) =~= bytes@);
    }
    Ok(out)
}

} // verus!
