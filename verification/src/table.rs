//! The two lookup tables, and how a mapping resource builds each.
//!
//! The tables are built independently and need not be inverses of one
//! another: the table from Unicode to Big5 leaves out the entries whose code
//! is [`NO_CODE`], the table from Big5 to Unicode keeps every entry.

use std::collections::HashMap;
use vstd::prelude::*;
use vstd::string::StringSliceAdditionalSpecFns;
use crate::error::TableError;
use crate::resource::{entries, is_fault, is_resource, read_entries, tokens, Entry, Layout};

verus! {

/// The code that a resource lists for a character that has no Big5 code of
/// its own. No text is ever encoded to it.
pub const NO_CODE: u16 = 0xFFFD;

/// The two bytes of a Big5 code, high byte first.
pub open spec fn code_bytes(code: u16) -> (u8, u8) {
    ((code / 256) as u8, (code % 256) as u8)
}

/// The Big5 code that two bytes spell.
pub open spec fn bytes_code(pair: (u8, u8)) -> u16 {
    (pair.0 * 256 + pair.1) as u16
}

/// The mapping from characters to Big5 byte pairs that a list of entries
/// gives: entries with the code [`NO_CODE`] are passed over, and of two
/// entries for one character the later one counts.
pub open spec fn unicode_to_big5_map(list: Seq<Entry>) -> Map<char, (u8, u8)>
    decreases list.len(),
{
    if list.len() == 0 {
        Map::empty()
    } else {
        let earlier = unicode_to_big5_map(list.drop_last());
        if list.last().code == NO_CODE {
            earlier
        } else {
            earlier.insert(list.last().character, code_bytes(list.last().code))
        }
    }
}

/// The mapping from Big5 byte pairs to characters that a list of entries
/// gives: every entry counts, and of two entries for one code the later one.
pub open spec fn big5_to_unicode_map(list: Seq<Entry>) -> Map<(u8, u8), char>
    decreases list.len(),
{
    if list.len() == 0 {
        Map::empty()
    } else {
        big5_to_unicode_map(list.drop_last()).insert(
            code_bytes(list.last().code),
            list.last().character,
        )
    }
}

/// Lookup table from a character to its two Big5 bytes. Immutable once built.
pub struct UnicodeToBig5 {
    /// Big5 code by scalar value.
    codes: HashMap<u32, u16>,
}

impl View for UnicodeToBig5 {
    type V = Map<char, (u8, u8)>;

    /// The table as a mapping from characters to byte pairs, high byte first.
    closed spec fn view(&self) -> Map<char, (u8, u8)> {
        Map::new(
            |c: char| self.codes@.contains_key(c as u32),
            |c: char| code_bytes(self.codes@[c as u32]),
        )
    }
}

impl UnicodeToBig5 {
    /// Builds the table from entries, taken in order.
    pub fn from_entries(list: &[Entry]) -> (table: Self)
        ensures
            table@ == unicode_to_big5_map(list@),
    {
        let mut table = UnicodeToBig5 { codes: HashMap::new() };
        let n: usize = list.len();
        let mut i: usize = 0;
        while i < n
            invariant
                n == list@.len(),
                i <= n,
                table@ == unicode_to_big5_map(list@.take(i as int)),
            decreases n - i,
        {
            let entry: Entry = list[i];
            let ghost earlier = table@;
            proof {
                assert(list@.take(i + 1).drop_last() =~= list@.take(i as int));
            }
            if entry.code != NO_CODE {
                table.codes.insert(entry.character as u32, entry.code);
                proof {
                    let expected = earlier.insert(entry.character, code_bytes(entry.code));
                    assert forall|c: char| #[trigger]
                        table@.contains_key(c) == expected.contains_key(c) && (
                        table@.contains_key(c) ==> table@[c] == expected[c]) by {
                        vstd::utf8::char_u32_cast(c, c as u32);
                        vstd::utf8::char_u32_cast(entry.character, entry.character as u32);
                    }
                }
            }
            i += 1;
        }
        proof {
            assert(list@.take(n as int) =~= list@);
        }
        table
    }

    /// Builds the table from the bytes of a resource that lists, for each
    /// entry, the codepoint and then the Big5 code. Fails on the fault of the
    /// resource, if it has one.
    pub fn from_bytes(text: &[u8]) -> (r: Result<Self, TableError>)
        ensures
            r is Ok <==> is_resource(tokens(text@), Layout::CodepointFirst),
            match r {
                Ok(table) => table@ == unicode_to_big5_map(entries(tokens(text@), Layout::CodepointFirst)),
                Err(e) => is_fault(tokens(text@), Layout::CodepointFirst, e),
            },
    {
        match read_entries(text, Layout::CodepointFirst) {
            Ok(list) => Ok(Self::from_entries(list.as_slice())),
            Err(e) => Err(e),
        }
    }

    /// Builds the table from a resource given as text; see [`Self::from_bytes`].
    pub fn from_text(text: &str) -> (r: Result<Self, TableError>)
        ensures
            r is Ok <==> is_resource(tokens(text.spec_bytes()), Layout::CodepointFirst),
            match r {
                Ok(table) => table@ == unicode_to_big5_map(entries(tokens(text.spec_bytes()), Layout::CodepointFirst)),
                Err(e) => is_fault(tokens(text.spec_bytes()), Layout::CodepointFirst, e),
            },
    {
        Self::from_bytes(text.as_bytes())
    }

    /// The Big5 bytes of a character, high byte first, if the table has it.
    pub fn lookup(&self, c: char) -> (r: Option<(u8, u8)>)
        ensures
            r == if self@.contains_key(c) {
                Some(self@[c])
            } else {
                None
            },
    {
        match self.codes.get(&(c as u32)) {
            Some(code) => Some(((*code / 256) as u8, (*code % 256) as u8)),
            None => None,
        }
    }
}

/// Lookup table from two Big5 bytes to a character. Immutable once built.
pub struct Big5ToUnicode {
    /// Character by Big5 code.
    characters: HashMap<u16, char>,
}

impl View for Big5ToUnicode {
    type V = Map<(u8, u8), char>;

    /// The table as a mapping from byte pairs, high byte first, to characters.
    closed spec fn view(&self) -> Map<(u8, u8), char> {
        Map::new(
            |pair: (u8, u8)| self.characters@.contains_key(bytes_code(pair)),
            |pair: (u8, u8)| self.characters@[bytes_code(pair)],
        )
    }
}

impl Big5ToUnicode {
    /// Builds the table from entries, taken in order.
    pub fn from_entries(list: &[Entry]) -> (table: Self)
        ensures
            table@ == big5_to_unicode_map(list@),
    {
        let mut table = Big5ToUnicode { characters: HashMap::new() };
        let n: usize = list.len();
        let mut i: usize = 0;
        while i < n
            invariant
                n == list@.len(),
                i <= n,
                table@ == big5_to_unicode_map(list@.take(i as int)),
            decreases n - i,
        {
            let entry: Entry = list[i];
            proof {
                assert(list@.take(i + 1).drop_last() =~= list@.take(i as int));
            }
            table.characters.insert(entry.code, entry.character);
            i += 1;
        }
        proof {
            assert(list@.take(n as int) =~= list@);
        }
        table
    }

    /// Builds the table from the bytes of a resource that lists, for each
    /// entry, the Big5 code and then the codepoint. Fails on the fault of the
    /// resource, if it has one.
    pub fn from_bytes(text: &[u8]) -> (r: Result<Self, TableError>)
        ensures
            r is Ok <==> is_resource(tokens(text@), Layout::CodeFirst),
            match r {
                Ok(table) => table@ == big5_to_unicode_map(entries(tokens(text@), Layout::CodeFirst)),
                Err(e) => is_fault(tokens(text@), Layout::CodeFirst, e),
            },
    {
        match read_entries(text, Layout::CodeFirst) {
            Ok(list) => Ok(Self::from_entries(list.as_slice())),
            Err(e) => Err(e),
        }
    }

    /// Builds the table from a resource given as text; see [`Self::from_bytes`].
    pub fn from_text(text: &str) -> (r: Result<Self, TableError>)
        ensures
            r is Ok <==> is_resource(tokens(text.spec_bytes()), Layout::CodeFirst),
            match r {
                Ok(table) => table@ == big5_to_unicode_map(entries(tokens(text.spec_bytes()), Layout::CodeFirst)),
                Err(e) => is_fault(tokens(text.spec_bytes()), Layout::CodeFirst, e),
            },
    {
        Self::from_bytes(text.as_bytes())
    }

    /// The character of a byte pair, if the table has the pair.
    pub fn lookup(&self, high: u8, low: u8) -> (r: Option<char>)
        ensures
            r == if self@.contains_key((high, low)) {
                Some(self@[(high, low)])
            } else {
                None
            },
    {
        let code: u16 = (high as u16) * 256 + (low as u16);
        match self.characters.get(&code) {
            Some(character) => Some(*character),
            None => None,
        }
    }
}

} // verus!
