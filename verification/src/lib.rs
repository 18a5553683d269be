//! Conversion between Unicode text and the Big5-UAO double-byte encoding.
//!
//! A conversion goes through one of two lookup tables, [`UnicodeToBig5`] and
//! [`Big5ToUnicode`], each built once from a mapping resource: whitespace-separated
//! tokens, a two-byte prefix followed by hexadecimal digits, taken in pairs.
//! [`encode`] and [`decode`] are pure functions of a table and their input.

pub mod codec;
pub mod error;
pub mod hex;
pub mod laws;
pub mod resource;
pub mod std_specs;
pub mod table;

pub use codec::{decode, encode};
pub use error::{DecodeError, EncodeError, TableError};
pub use resource::{Entry, Layout};
pub use table::{Big5ToUnicode, UnicodeToBig5};
