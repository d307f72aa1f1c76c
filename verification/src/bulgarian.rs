//! The streamlined system, the official romanization of Bulgarian.
//!
//! Several letters share one Latin token, so Latin text cannot be turned
//! back: the table is for the way to Latin only.

use crate::table::table_of;
use crate::CharsMapping;
use vstd::prelude::*;

verus! {

/// The rows of the streamlined system: capital letters, then small letters,
/// each group in the order of the alphabet.
pub const STREAMLINED_SYSTEM: [(&'static str, &'static str); 60] = [
    ("А", "A"),
    ("Б", "B"),
    ("В", "V"),
    ("Г", "G"),
    ("Д", "D"),
    ("Е", "E"),
    ("Ж", "Zh"),
    ("З", "Z"),
    ("И", "I"),
    ("Й", "Y"),
    ("К", "K"),
    ("Л", "L"),
    ("М", "M"),
    ("Н", "N"),
    ("О", "O"),
    ("П", "P"),
    ("Р", "R"),
    ("С", "S"),
    ("Т", "T"),
    ("У", "U"),
    ("Ф", "F"),
    ("Х", "H"),
    ("Ц", "Ts"),
    ("Ч", "Ch"),
    ("Ш", "Sh"),
    ("Щ", "Sht"),
    ("Ъ", "A"),
    ("Ь", "Y"),
    ("Ю", "Yu"),
    ("Я", "Ya"),
    ("а", "a"),
    ("б", "b"),
    ("в", "v"),
    ("г", "g"),
    ("д", "d"),
    ("е", "e"),
    ("ж", "zh"),
    ("з", "z"),
    ("и", "i"),
    ("й", "y"),
    ("к", "k"),
    ("л", "l"),
    ("м", "m"),
    ("н", "n"),
    ("о", "o"),
    ("п", "p"),
    ("р", "r"),
    ("с", "s"),
    ("т", "t"),
    ("у", "u"),
    ("ф", "f"),
    ("х", "h"),
    ("ц", "ts"),
    ("ч", "ch"),
    ("ш", "sh"),
    ("щ", "sht"),
    ("ъ", "a"),
    ("ь", "y"),
    ("ю", "yu"),
    ("я", "ya"),
];

/// The table of the streamlined system, in the order of its rows.
pub fn streamlined_system() -> (table: CharsMapping)
    ensures
        table@ == STREAMLINED_SYSTEM@,
{
    table_of(&STREAMLINED_SYSTEM)
}

} // verus!
