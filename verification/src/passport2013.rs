//! The romanization of Russian in passports since 2013, which follows the
//! recommendations of ICAO.
//!
//! Several letters share one Latin token and the soft sign is left out, so
//! Latin text cannot be turned back: the table is for the way to Latin only.

use crate::table::table_of;
use crate::CharsMapping;
use vstd::prelude::*;

verus! {

/// The rows for Russian: capital letters, small letters, then the numero
/// sign.
pub const ITERNATIONAL_PASSPORT_2013_RU: [(&'static str, &'static str); 67] = [
    ("А", "A"),
    ("Б", "B"),
    ("В", "V"),
    ("Г", "G"),
    ("Д", "D"),
    ("Е", "E"),
    ("Ё", "E"),
    ("Ж", "Zh"),
    ("З", "Z"),
    ("И", "I"),
    ("Й", "I"),
    ("К", "K"),
    ("Л", "L"),
    ("М", "M"),
    ("Н", "N"),
    ("О", "O"),
    ("П", "P"),
    ("Р", "R"),
    ("С", "S"),
    ("Т", "T"),
    ("У", "U"),
    ("Ф", "F"),
    ("Х", "Kh"),
    ("Ц", "Ts"),
    ("Ч", "Ch"),
    ("Ш", "Sh"),
    ("Щ", "Shch"),
    ("Ъ", "Ie"),
    ("Ы", "Y"),
    ("Ь", ""),
    ("Э", "E"),
    ("Ю", "Iu"),
    ("Я", "Ia"),
    ("а", "a"),
    ("б", "b"),
    ("в", "v"),
    ("г", "g"),
    ("д", "d"),
    ("е", "e"),
    ("ё", "e"),
    ("ж", "zh"),
    ("з", "z"),
    ("и", "i"),
    ("й", "i"),
    ("к", "k"),
    ("л", "l"),
    ("м", "m"),
    ("н", "n"),
    ("о", "o"),
    ("п", "p"),
    ("р", "r"),
    ("с", "s"),
    ("т", "t"),
    ("у", "u"),
    ("ф", "f"),
    ("х", "kh"),
    ("ц", "ts"),
    ("ч", "ch"),
    ("ш", "sh"),
    ("щ", "shch"),
    ("ъ", "ie"),
    ("ы", "y"),
    ("ь", ""),
    ("э", "e"),
    ("ю", "iu"),
    ("я", "ia"),
    ("№", "#"),
];

/// The table for Russian in passports, in the order of its rows.
pub fn iternational_passport_2013_ru() -> (table: CharsMapping)
    ensures
        table@ == ITERNATIONAL_PASSPORT_2013_RU@,
{
    table_of(&ITERNATIONAL_PASSPORT_2013_RU)
}

} // verus!
