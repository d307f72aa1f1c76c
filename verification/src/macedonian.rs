//! The official digraph system for Macedonian.
//!
//! Several letters share Latin letters with the digraphs, so Latin text
//! cannot be turned back: the table is for the way to Latin only.

use crate::table::table_of;
use crate::CharsMapping;
use vstd::prelude::*;

verus! {

/// The rows of the digraph system: capital letters, then small letters, each
/// group in the order of the alphabet.
pub const DIGRAPH_SYSTEM: [(&'static str, &'static str); 62] = [
    ("А", "A"),
    ("Б", "B"),
    ("В", "V"),
    ("Г", "G"),
    ("Д", "D"),
    ("Ѓ", "Gj"),
    ("Е", "E"),
    ("Ж", "Zh"),
    ("З", "Z"),
    ("Ѕ", "Dz"),
    ("И", "I"),
    ("Ј", "J"),
    ("К", "K"),
    ("Л", "L"),
    ("Љ", "Lj"),
    ("М", "M"),
    ("Н", "N"),
    ("Њ", "Nj"),
    ("О", "O"),
    ("П", "P"),
    ("Р", "R"),
    ("С", "S"),
    ("Т", "T"),
    ("Ќ", "Kj"),
    ("У", "U"),
    ("Ф", "F"),
    ("Х", "H"),
    ("Ц", "C"),
    ("Ч", "Ch"),
    ("Џ", "Dj"),
    ("Ш", "Sh"),
    ("а", "a"),
    ("б", "b"),
    ("в", "v"),
    ("г", "g"),
    ("д", "d"),
    ("ѓ", "gj"),
    ("е", "e"),
    ("ж", "zh"),
    ("з", "z"),
    ("ѕ", "dz"),
    ("и", "i"),
    ("ј", "j"),
    ("к", "k"),
    ("л", "l"),
    ("љ", "lj"),
    ("м", "m"),
    ("н", "n"),
    ("њ", "nj"),
    ("о", "o"),
    ("п", "p"),
    ("р", "r"),
    ("с", "s"),
    ("т", "t"),
    ("ќ", "kj"),
    ("у", "u"),
    ("ф", "f"),
    ("х", "h"),
    ("ц", "c"),
    ("ч", "ch"),
    ("џ", "dj"),
    ("ш", "sh"),
];

/// The table of the digraph system, in the order of its rows.
pub fn digraph_system() -> (table: CharsMapping)
    ensures
        table@ == DIGRAPH_SYSTEM@,
{
    table_of(&DIGRAPH_SYSTEM)
}

} // verus!
