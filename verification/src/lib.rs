//! Transliteration between Cyrillic and Latin script with fixed tables.
//!
//! A table holds pairs of a token of the source script and the Latin token
//! that stands for it. A transliterator applies the rows of its table one
//! after the other, each to the whole text, with the longest Latin tokens
//! first.

use vstd::prelude::*;

pub mod alphabet;
pub mod bulgarian;
pub mod engine;
pub mod gost779;
pub mod macedonian;
pub mod order_n_995;
pub mod passport2013;
pub mod table;
pub mod text;
pub mod transliterator;

pub use bulgarian::streamlined_system;
pub use gost779::{gost779b_by, gost779b_ru, gost779b_ua};
pub use macedonian::digraph_system;
pub use order_n_995::order_n_995_ru;
pub use passport2013::iternational_passport_2013_ru;
pub use transliterator::{
    BulgarianOfficial, FromLatin, Gost779B, Language, MacedonianOfficial, Passport2013, ToLatin,
    Transliterator,
};

verus! {

/// A transliteration table, the way callers write it: pairs of a token of the
/// source script and the Latin token that stands for it.
pub type CharsMapping = Vec<(&'static str, &'static str)>;

} // verus!
