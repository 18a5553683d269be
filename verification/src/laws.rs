//! Laws of the two conversions, each proved from the definitions that the
//! contracts of [`encode`](crate::codec::encode) and
//! [`decode`](crate::codec::decode) are stated with.

use vstd::prelude::*;
use crate::codec::{
    decode_result, decoded, encodable, encode_result, encoded, SINGLE_BYTE_MAX,
};
use crate::error::{DecodeError, EncodeError};

verus! {

/// The character has an entry in `forward`, and `backward` maps the bytes of
/// that entry back to the character.
pub open spec fn maps_back(
    forward: Map<char, (u8, u8)>,
    backward: Map<(u8, u8), char>,
    c: char,
) -> bool {
    &&& forward.contains_key(c)
    &&& backward.contains_key(forward[c])
    &&& backward[forward[c]] == c
}

/// Decoding goes pair by pair: the decoding of bytes followed by bytes of
/// even length is the decoding of the first followed by that of the second.
pub proof fn lemma_decoded_concat(table: Map<(u8, u8), char>, front: Seq<u8>, back: Seq<u8>)
    requires
        back.len() % 2 == 0,
    ensures
        decoded(table, front + back) == decoded(table, front) + decoded(table, back),
    decreases back.len(),
{
    if back.len() > 0 {
        let whole = front + back;
        let shorter = back.take(back.len() - 2);
        lemma_decoded_concat(table, front, shorter);
        assert(whole.take(whole.len() - 2) =~= front + shorter);
    }
}

/// Round trip. A text whose every character has an entry in the table from
/// Unicode to Big5, with bytes that the table from Big5 to Unicode maps back
/// to that character, can be encoded, to two bytes for each character, and
/// its encoding decodes to the text itself.
pub proof fn lemma_round_trip(
    forward: Map<char, (u8, u8)>,
    backward: Map<(u8, u8), char>,
    text: Seq<char>,
)
    requires
        forall|i: int| 0 <= i < text.len() ==> maps_back(forward, backward, #[trigger] text[i]),
    ensures
        encodable(forward, text),
        encoded(forward, text).len() == 2 * text.len(),
        decoded(backward, encoded(forward, text)) == text,
    decreases text.len(),
{
    if text.len() > 0 {
        let c = text.last();
        let rest = text.drop_last();
        lemma_round_trip(forward, backward, rest);
        let bytes = encoded(forward, rest) + seq![forward[c].0, forward[c].1];
        assert(bytes.take(bytes.len() - 2) =~= encoded(forward, rest));
    }
}

/// Determinism of encoding: two results of encoding one text with one table
/// agree, in the bytes or in the error.
pub proof fn lemma_encode_deterministic(
    table: Map<char, (u8, u8)>,
    text: Seq<char>,
    first: Result<Vec<u8>, EncodeError>,
    second: Result<Vec<u8>, EncodeError>,
)
    requires
        encode_result(table, text, first),
        encode_result(table, text, second),
    ensures
        match (first, second) {
            (Ok(a), Ok(b)) => a@ == b@,
            (Err(a), Err(b)) => a.character == b.character && a.text@ == b.text@,
            _ => false,
        },
{
}

/// Determinism of decoding: two results of decoding the same bytes with one
/// table agree, in the text or in the error.
pub proof fn lemma_decode_deterministic(
    table: Map<(u8, u8), char>,
    bytes: Seq<u8>,
    first: Result<String, DecodeError>,
    second: Result<String, DecodeError>,
)
    requires
        decode_result(table, bytes, first),
        decode_result(table, bytes, second),
    ensures
        match (first, second) {
            (Ok(a), Ok(b)) => a@ == b@,
            (Err(a), Err(b)) => a == b,
            _ => false,
        },
{
}

/// Single-byte characters pass through: a character with a scalar value up
/// to [`SINGLE_BYTE_MAX`] and no entry in the table is encoded to the one
/// byte that is its scalar value.
pub proof fn lemma_single_byte_pass_through(table: Map<char, (u8, u8)>, c: char)
    requires
        c as u32 <= SINGLE_BYTE_MAX,
        !table.contains_key(c),
    ensures
        encodable(table, seq![c]),
        encoded(table, seq![c]).len() == 1,
        encoded(table, seq![c])[0] == c as u32,
{
    assert(encoded(table, seq![c].drop_last()) =~= Seq::<u8>::empty());
}

/// A pair without an entry is dropped: it decodes to nothing, and between
/// other pairs it leaves the decoding of what stands before it and after it.
pub proof fn lemma_unmapped_pair_dropped(
    table: Map<(u8, u8), char>,
    before: Seq<u8>,
    high: u8,
    low: u8,
    after: Seq<u8>,
)
    requires
        !table.contains_key((high, low)),
        before.len() % 2 == 0,
        after.len() % 2 == 0,
    ensures
        decoded(table, seq![high, low]) == Seq::<char>::empty(),
        decoded(table, before + seq![high, low] + after) == decoded(table, before) + decoded(
            table,
            after,
        ),
{
    let pair = seq![high, low];
    assert(decoded(table, pair.take(0)) =~= Seq::<char>::empty());
    lemma_decoded_concat(table, before, pair);
    lemma_decoded_concat(table, before + pair, after);
}

} // verus!
