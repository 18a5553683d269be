//! Numbers as the mapping resources write them: a two-byte prefix, then
//! hexadecimal digits.

use vstd::prelude::*;

verus! {

/// Number of leading bytes of a token that carry no digit (`0x`, `U+`).
pub const PREFIX_LEN: usize = 2;

/// Value of an ASCII hexadecimal digit, in either case; `None` for any other byte.
pub open spec fn digit_value(b: u8) -> Option<nat> {
    if 0x30 <= b <= 0x39 {
        Some((b - 0x30) as nat)
    } else if 0x41 <= b <= 0x46 {
        Some((b - 0x41 + 10) as nat)
    } else if 0x61 <= b <= 0x66 {
        Some((b - 0x61 + 10) as nat)
    } else {
        None
    }
}

/// At least one byte, and every byte a hexadecimal digit.
pub open spec fn is_number(digits: Seq<u8>) -> bool {
    &&& digits.len() > 0
    &&& forall|i: int| 0 <= i < digits.len() ==> digit_value(#[trigger] digits[i]) is Some
}

/// The number that hexadecimal digits denote, most significant digit first.
/// A byte that is no digit counts as zero.
pub open spec fn number_value(digits: Seq<u8>) -> nat
    decreases digits.len(),
{
    if digits.len() == 0 {
        0
    } else {
        16 * number_value(digits.drop_last()) + match digit_value(digits.last()) {
            Some(d) => d,
            None => 0,
        }
    }
}

/// The number a token denotes, if the token is a prefix followed by a
/// hexadecimal number that does not exceed `limit`.
pub open spec fn token_number(token: Seq<u8>, limit: u32) -> Option<u32> {
    if token.len() > PREFIX_LEN && is_number(token.skip(PREFIX_LEN as int)) && number_value(
        token.skip(PREFIX_LEN as int),
    ) <= limit {
        Some(number_value(token.skip(PREFIX_LEN as int)) as u32)
    } else {
        None
    }
}

/// Dropping trailing digits never gives a larger number.
proof fn lemma_number_value_prefix(digits: Seq<u8>, n: int)
    requires
        0 <= n <= digits.len(),
    ensures
        number_value(digits.take(n)) <= number_value(digits),
    decreases digits.len() - n,
{
    if n == digits.len() {
        assert(digits.take(n) =~= digits);
    } else {
        lemma_number_value_prefix(digits.drop_last(), n);
        assert(digits.drop_last().take(n) =~= digits.take(n));
    }
}

/// Value of one hexadecimal digit.
pub fn parse_digit(b: u8) -> (r: Option<u8>)
    ensures
        match r {
            Some(d) => digit_value(b) == Some(d as nat),
            None => digit_value(b) is None,
        },
{
    if 0x30 <= b && b <= 0x39 {
        Some(b - 0x30)
    } else if 0x41 <= b && b <= 0x46 {
        Some(b - 0x41 + 10)
    } else if 0x61 <= b && b <= 0x66 {
        Some(b - 0x61 + 10)
    } else {
        None
    }
}

/// Reads the number of one token. The prefix is skipped unread; what follows
/// must be one or more hexadecimal digits whose value is at most `limit`.
pub fn parse_token(token: &[u8], limit: u32) -> (r: Option<u32>)
    ensures
        r == token_number(token@, limit),
{
    let n: usize = token.len();
    if n <= PREFIX_LEN {
        return None;
    }
    let ghost digits = token@.skip(PREFIX_LEN as int);
    let mut value: u32 = 0;
    let mut i: usize = PREFIX_LEN;
    while i < n
        invariant
            PREFIX_LEN <= i <= n,
            n == token@.len(),
            digits == token@.skip(PREFIX_LEN as int),
            forall|j: int| 0 <= j < i - PREFIX_LEN ==> digit_value(#[trigger] digits[j]) is Some,
            value == number_value(digits.take(i - PREFIX_LEN)),
            value <= limit,
        decreases n - i,
    {
        let ghost k = i - PREFIX_LEN;
        proof {
            assert(digits.take(k + 1).drop_last() =~= digits.take(k));
        }
        match parse_digit(token[i]) {
            None => {
                assert(digit_value(digits[k]) is None);
                return None;
            },
            Some(d) => {
                let next: u64 = (value as u64) * 16 + (d as u64);
                if next > limit as u64 {
                    proof {
                        lemma_number_value_prefix(digits, k + 1);
                    }
                    return None;
                }
                value = next as u32;
            },
        }
        i += 1;
    }
    proof {
        assert(digits.take(n - PREFIX_LEN) =~= digits);
    }
    Some(value)
}

} // verus!
