//! Mapping resources: text that lists the entries of a table.
//!
//! A resource is a sequence of tokens separated by ASCII whitespace. Tokens
//! pair up into entries; one token of a pair is a Unicode codepoint, the
//! other a Big5 code, and the [`Layout`] says which comes first.

use vstd::prelude::*;
use vstd::slice::slice_subrange;
use crate::error::TableError;
use crate::hex::{parse_token, token_number};

verus! {

/// The ASCII whitespace bytes: space, tab, line feed, form feed, carriage return.
pub open spec fn is_space(b: u8) -> bool {
    b == 0x20 || b == 0x09 || b == 0x0A || b == 0x0C || b == 0x0D
}

/// The tokens of a text: its maximal runs of bytes that are no whitespace,
/// in order. Read byte by byte from the end: whitespace adds nothing, a
/// byte that follows another token byte extends the last token, and any
/// other byte starts a new token.
pub open spec fn tokens(text: Seq<u8>) -> Seq<Seq<u8>>
    decreases text.len(),
{
    if text.len() == 0 {
        Seq::empty()
    } else {
        let before = tokens(text.drop_last());
        if is_space(text.last()) {
            before
        } else if text.len() >= 2 && !is_space(text[text.len() - 2]) {
            before.drop_last().push(before.last().push(text.last()))
        } else {
            before.push(seq![text.last()])
        }
    }
}

/// The byte sequences that a list of slices holds.
pub open spec fn slice_views(list: Seq<&[u8]>) -> Seq<Seq<u8>> {
    Seq::new(list.len(), |k: int| list[k]@)
}

fn is_space_byte(b: u8) -> (r: bool)
    ensures
        r == is_space(b),
{
    b == 0x20 || b == 0x09 || b == 0x0A || b == 0x0C || b == 0x0D
}

/// Splits a text into its tokens, each a slice of the text.
pub fn split_tokens<'a>(text: &'a [u8]) -> (out: Vec<&'a [u8]>)
    ensures
        slice_views(out@) == tokens(text@),
{
    let n: usize = text.len();
    let mut out: Vec<&'a [u8]> = Vec::new();
    let mut start: usize = 0;
    let mut i: usize = 0;
    while i < n
        invariant
            n == text@.len(),
            start <= i <= n,
            start == i ==> i == 0 || is_space(text@[i - 1]),
            forall|j: int| start <= j < i ==> !is_space(#[trigger] text@[j]),
            tokens(text@.take(i as int)) == if start < i {
                slice_views(out@).push(text@.subrange(start as int, i as int))
            } else {
                slice_views(out@)
            },
        decreases n - i,
    {
        proof {
            assert(text@.take(i + 1).drop_last() =~= text@.take(i as int));
        }
        if is_space_byte(text[i]) {
            if start < i {
                out.push(slice_subrange(text, start, i));
            }
            start = i + 1;
        } else {
            proof {
                if start < i {
                    let word = text@.subrange(start as int, i as int);
                    assert(word.push(text@[i as int]) =~= text@.subrange(start as int, i + 1));
                } else {
                    assert(seq![text@[i as int]] =~= text@.subrange(start as int, i + 1));
                }
            }
        }
        i += 1;
    }
    proof {
        assert(text@.take(n as int) =~= text@);
    }
    if start < n {
        out.push(slice_subrange(text, start, n));
    }
    out
}

/// Which token of an entry holds the codepoint.
#[derive(Debug, Clone, Copy, PartialEq, Eq, Structural)]
pub enum Layout {
    /// The codepoint, then the Big5 code.
    CodepointFirst,
    /// The Big5 code, then the codepoint.
    CodeFirst,
}

/// One entry of a resource: a character and the Big5 code listed with it.
#[derive(Debug, Clone, Copy, PartialEq, Eq, Structural)]
pub struct Entry {
    pub character: char,
    /// High byte times 256, plus low byte.
    pub code: u16,
}

/// The largest number that a Big5 code token may hold.
pub const MAX_CODE: u32 = 0xFFFF;

/// The largest number that a codepoint token may hold and still be read;
/// whether it names a character is asked afterwards.
pub const MAX_NUMBER: u32 = 0xFFFF_FFFF;

/// A Unicode scalar value: a codepoint up to `0x10FFFF` that is no surrogate.
pub open spec fn is_scalar_value(v: u32) -> bool {
    v <= 0xD7FF || (0xE000 <= v && v <= 0x10FFFF)
}

impl Layout {
    /// Whether the token at `index` stands in the place of a codepoint.
    pub open spec fn holds_codepoint(self, index: int) -> bool {
        match self {
            Layout::CodepointFirst => index % 2 == 0,
            Layout::CodeFirst => index % 2 == 1,
        }
    }

    /// The largest number that the token at `index` may hold.
    pub open spec fn limit(self, index: int) -> u32 {
        if self.holds_codepoint(index) {
            MAX_NUMBER
        } else {
            MAX_CODE
        }
    }

    /// Index of the codepoint token of entry `k`.
    pub open spec fn codepoint_index(self, k: int) -> int {
        match self {
            Layout::CodepointFirst => 2 * k,
            Layout::CodeFirst => 2 * k + 1,
        }
    }

    /// Index of the Big5 code token of entry `k`.
    pub open spec fn code_index(self, k: int) -> int {
        match self {
            Layout::CodepointFirst => 2 * k + 1,
            Layout::CodeFirst => 2 * k,
        }
    }
}

/// The number of the token at `index`, if that token is well formed.
pub open spec fn number_at(list: Seq<Seq<u8>>, layout: Layout, index: int) -> Option<u32> {
    token_number(list[index], layout.limit(index))
}

/// Every token is well formed.
pub open spec fn all_well_formed(list: Seq<Seq<u8>>, layout: Layout) -> bool {
    forall|i: int| 0 <= i < list.len() ==> #[trigger] number_at(list, layout, i) is Some
}

/// Where the token at `index` stands for a codepoint, it is well formed and
/// its number is a scalar value.
pub open spec fn names_scalar(list: Seq<Seq<u8>>, layout: Layout, index: int) -> bool {
    layout.holds_codepoint(index) ==> (number_at(list, layout, index) matches Some(v)
        && is_scalar_value(v))
}

/// The tokens form a resource without fault: all are well formed, they pair
/// up, and every codepoint is a scalar value.
pub open spec fn is_resource(list: Seq<Seq<u8>>, layout: Layout) -> bool {
    &&& all_well_formed(list, layout)
    &&& list.len() % 2 == 0
    &&& forall|i: int| 0 <= i < list.len() ==> #[trigger] names_scalar(list, layout, i)
}

/// `e` is the fault that is reported for the tokens. A malformed token
/// comes before an odd count, an odd count before a codepoint that is no
/// scalar value; of two faults of one kind the one at the lower index comes
/// first. So a list of tokens has at most one fault, and has one unless it
/// is a resource.
pub open spec fn is_fault(list: Seq<Seq<u8>>, layout: Layout, e: TableError) -> bool {
    match e {
        TableError::MalformedToken { index } => {
            &&& index < list.len()
            &&& number_at(list, layout, index as int) is None
            &&& forall|j: int| 0 <= j < index ==> #[trigger] number_at(list, layout, j) is Some
        },
        TableError::OddTokenCount => {
            &&& all_well_formed(list, layout)
            &&& list.len() % 2 == 1
        },
        TableError::InvalidCodepoint { index } => {
            &&& all_well_formed(list, layout)
            &&& list.len() % 2 == 0
            &&& index < list.len()
            &&& !names_scalar(list, layout, index as int)
            &&& forall|j: int| 0 <= j < index ==> #[trigger] names_scalar(list, layout, j)
        },
    }
}

/// Entry `k` of a resource: the tokens at `2 * k` and `2 * k + 1`.
pub open spec fn entry_at(list: Seq<Seq<u8>>, layout: Layout, k: int) -> Entry {
    Entry {
        character: number_at(list, layout, layout.codepoint_index(k))->0 as char,
        code: number_at(list, layout, layout.code_index(k))->0 as u16,
    }
}

/// The entries of a resource, in order.
pub open spec fn entries(list: Seq<Seq<u8>>, layout: Layout) -> Seq<Entry> {
    Seq::new((list.len() / 2) as nat, |k: int| entry_at(list, layout, k))
}

fn holds_codepoint(layout: Layout, index: usize) -> (r: bool)
    ensures
        r == layout.holds_codepoint(index as int),
{
    match layout {
        Layout::CodepointFirst => index % 2 == 0,
        Layout::CodeFirst => index % 2 == 1,
    }
}

/// Reads the number of every token, in order, up to the first malformed one.
fn read_numbers(list: &Vec<&[u8]>, layout: Layout) -> (r: Result<Vec<u32>, TableError>)
    ensures
        match r {
            Ok(numbers) => {
                &&& numbers@.len() == list@.len()
                &&& forall|i: int|
                    0 <= i < list@.len() ==> #[trigger] number_at(slice_views(list@), layout, i)
                        == Some(numbers@[i])
            },
            Err(e) => e is MalformedToken && is_fault(slice_views(list@), layout, e),
        },
{
    let n: usize = list.len();
    let mut numbers: Vec<u32> = Vec::new();
    let mut i: usize = 0;
    while i < n
        invariant
            n == list@.len(),
            i <= n,
            numbers@.len() == i,
            forall|j: int|
                0 <= j < i ==> #[trigger] number_at(slice_views(list@), layout, j) == Some(
                    numbers@[j],
                ),
        decreases n - i,
    {
        let limit: u32 = if holds_codepoint(layout, i) {
            MAX_NUMBER
        } else {
            MAX_CODE
        };
        match parse_token(list[i], limit) {
            Some(v) => numbers.push(v),
            None => {
                return Err(TableError::MalformedToken { index: i });
            },
        }
        i += 1;
    }
    Ok(numbers)
}

/// Reads a resource: splits the text into tokens, reads their numbers and
/// pairs them up. Returns the entries in the order of the text, or the fault
/// of the text.
pub fn read_entries(text: &[u8], layout: Layout) -> (r: Result<Vec<Entry>, TableError>)
    ensures
        r is Ok <==> is_resource(tokens(text@), layout),
        match r {
            Ok(list) => list@ == entries(tokens(text@), layout),
            Err(e) => is_fault(tokens(text@), layout, e),
        },
{
    let list = split_tokens(text);
    let ghost words = tokens(text@);
    let numbers = match read_numbers(&list, layout) {
        Ok(numbers) => numbers,
        Err(e) => {
            return Err(e);
        },
    };
    let n: usize = numbers.len();
    if n % 2 != 0 {
        return Err(TableError::OddTokenCount);
    }
    let count: usize = n / 2;
    let mut out: Vec<Entry> = Vec::new();
    let mut k: usize = 0;
    while k < count
        invariant
            words == tokens(text@),
            n == words.len(),
            n == numbers@.len(),
            n == 2 * count,
            k <= count,
            forall|i: int| 0 <= i < n ==> #[trigger] number_at(words, layout, i) == Some(numbers@[i]),
            forall|i: int| 0 <= i < 2 * k ==> #[trigger] names_scalar(words, layout, i),
            out@ == Seq::new(k as nat, |j: int| entry_at(words, layout, j)),
        decreases count - k,
    {
        let (at, code_at): (usize, usize) = match layout {
            Layout::CodepointFirst => (2 * k, 2 * k + 1),
            Layout::CodeFirst => (2 * k + 1, 2 * k),
        };
        match char::from_u32(numbers[at]) {
            Some(character) => {
                out.push(Entry { character, code: numbers[code_at] as u16 });
            },
            None => {
                assert(!names_scalar(words, layout, at as int));
                return Err(TableError::InvalidCodepoint { index: at });
            },
        }
        k += 1;
    }
    Ok(out)
}

} // verus!
