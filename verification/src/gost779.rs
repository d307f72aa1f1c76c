//! GOST 7.79 System B, the transliteration with Latin letters and the grave
//! accent only, for Russian, Belarusian and Ukrainian.
//!
//! No two rows of a table share a token, so that each letter comes back from
//! its Latin token. The capital hard and soft signs have no row for that
//! reason: the system writes them like the small ones.

use crate::alphabet::{is_alphabet, is_letter_rule, is_one_to_one, lemma_letter_rules_alphabet};
use crate::table::{rules_of, table_of, Rule};
use crate::CharsMapping;
use vstd::prelude::*;

verus! {

/// A number for a Latin token of up to three characters: tokens with
/// different numbers are different tokens.
pub open spec fn token_number(token: Seq<char>) -> int {
    if token.len() == 0 {
        0
    } else if token.len() == 1 {
        1 + 4 * (token[0] as int)
    } else if token.len() == 2 {
        2 + 4 * (token[0] as int + 128 * (token[1] as int))
    } else {
        3 + 4 * (token[0] as int + 128 * (token[1] as int + 128 * (token[2] as int)))
    }
}

/// Rules with one letter each for the source token are one to one where no
/// two of them share the letter or the number of the Latin token, and no
/// Latin token is empty.
pub proof fn lemma_numbers_one_to_one(rules: Seq<Rule>)
    requires
        forall|i: int| 0 <= i < rules.len() ==> is_letter_rule(#[trigger] rules[i]),
        forall|i: int, j: int|
            0 <= i < j < rules.len() ==> (#[trigger] rules[i]).0[0] != (#[trigger] rules[j]).0[0],
        forall|i: int, j: int|
            0 <= i < j < rules.len() ==> token_number((#[trigger] rules[i]).1) != token_number(
                (#[trigger] rules[j]).1,
            ),
    ensures
        is_one_to_one(rules),
{
    assert forall|i: int, j: int| 0 <= i < rules.len() && 0 <= j < rules.len() implies ((
    #[trigger] rules[i]).0 == (#[trigger] rules[j]).0 <==> rules[i].1 == rules[j].1) by {
        if i < j {
            assert(rules[i].0[0] != rules[j].0[0]);
            assert(token_number(rules[i].1) != token_number(rules[j].1));
        } else if j < i {
            assert(rules[j].0[0] != rules[i].0[0]);
            assert(token_number(rules[j].1) != token_number(rules[i].1));
        }
    }
}

/// The rows for Russian: capital letters, small letters, then the numero
/// sign.
pub const GOST779B_RU: [(&'static str, &'static str); 65] = [
    ("А", "A"),
    ("Б", "B"),
    ("В", "V"),
    ("Г", "G"),
    ("Д", "D"),
    ("Е", "E"),
    ("Ё", "Yo"),
    ("Ж", "Zh"),
    ("З", "Z"),
    ("И", "I"),
    ("Й", "J"),
    ("К", "K"),
    ("Л", "L"),
    ("М", "M"),
    ("Н", "N"),
    ("О", "O"),
    ("П", "P"),
    ("Р", "R"),
    ("С", "S"),
    ("Т", "T"),
    ("У", "U"),
    ("Ф", "F"),
    ("Х", "X"),
    ("Ц", "C"),
    ("Ч", "Ch"),
    ("Ш", "Sh"),
    ("Щ", "Shh"),
    ("Ы", "Y`"),
    ("Э", "E`"),
    ("Ю", "Yu"),
    ("Я", "Ya"),
    ("а", "a"),
    ("б", "b"),
    ("в", "v"),
    ("г", "g"),
    ("д", "d"),
    ("е", "e"),
    ("ё", "yo"),
    ("ж", "zh"),
    ("з", "z"),
    ("и", "i"),
    ("й", "j"),
    ("к", "k"),
    ("л", "l"),
    ("м", "m"),
    ("н", "n"),
    ("о", "o"),
    ("п", "p"),
    ("р", "r"),
    ("с", "s"),
    ("т", "t"),
    ("у", "u"),
    ("ф", "f"),
    ("х", "x"),
    ("ц", "c"),
    ("ч", "ch"),
    ("ш", "sh"),
    ("щ", "shh"),
    ("ъ", "``"),
    ("ы", "y`"),
    ("ь", "`"),
    ("э", "e`"),
    ("ю", "yu"),
    ("я", "ya"),
    ("№", "#"),
];

/// The table for Russian, in the order of its rows.
pub fn gost779b_ru() -> (table: CharsMapping)
    ensures
        table@ == GOST779B_RU@,
{
    table_of(&GOST779B_RU)
}

/// The table for Russian is an alphabet and one to one.
pub proof fn lemma_gost779b_ru_one_to_one()
    ensures
        is_alphabet(rules_of(GOST779B_RU@)),
        is_one_to_one(rules_of(GOST779B_RU@)),
{
    reveal_strlit("А");
    reveal_strlit("A");
    reveal_strlit("Б");
    reveal_strlit("B");
    reveal_strlit("В");
    reveal_strlit("V");
    reveal_strlit("Г");
    reveal_strlit("G");
    reveal_strlit("Д");
    reveal_strlit("D");
    reveal_strlit("Е");
    reveal_strlit("E");
    reveal_strlit("Ё");
    reveal_strlit("Yo");
    reveal_strlit("Ж");
    reveal_strlit("Zh");
    reveal_strlit("З");
    reveal_strlit("Z");
    reveal_strlit("И");
    reveal_strlit("I");
    reveal_strlit("Й");
    reveal_strlit("J");
    reveal_strlit("К");
    reveal_strlit("K");
    reveal_strlit("Л");
    reveal_strlit("L");
    reveal_strlit("М");
    reveal_strlit("M");
    reveal_strlit("Н");
    reveal_strlit("N");
    reveal_strlit("О");
    reveal_strlit("O");
    reveal_strlit("П");
    reveal_strlit("P");
    reveal_strlit("Р");
    reveal_strlit("R");
    reveal_strlit("С");
    reveal_strlit("S");
    reveal_strlit("Т");
    reveal_strlit("T");
    reveal_strlit("У");
    reveal_strlit("U");
    reveal_strlit("Ф");
    reveal_strlit("F");
    reveal_strlit("Х");
    reveal_strlit("X");
    reveal_strlit("Ц");
    reveal_strlit("C");
    reveal_strlit("Ч");
    reveal_strlit("Ch");
    reveal_strlit("Ш");
    reveal_strlit("Sh");
    reveal_strlit("Щ");
    reveal_strlit("Shh");
    reveal_strlit("Ы");
    reveal_strlit("Y`");
    reveal_strlit("Э");
    reveal_strlit("E`");
    reveal_strlit("Ю");
    reveal_strlit("Yu");
    reveal_strlit("Я");
    reveal_strlit("Ya");
    reveal_strlit("а");
    reveal_strlit("a");
    reveal_strlit("б");
    reveal_strlit("b");
    reveal_strlit("в");
    reveal_strlit("v");
    reveal_strlit("г");
    reveal_strlit("g");
    reveal_strlit("д");
    reveal_strlit("d");
    reveal_strlit("е");
    reveal_strlit("e");
    reveal_strlit("ё");
    reveal_strlit("yo");
    reveal_strlit("ж");
    reveal_strlit("zh");
    reveal_strlit("з");
    reveal_strlit("z");
    reveal_strlit("и");
    reveal_strlit("i");
    reveal_strlit("й");
    reveal_strlit("j");
    reveal_strlit("к");
    reveal_strlit("k");
    reveal_strlit("л");
    reveal_strlit("l");
    reveal_strlit("м");
    reveal_strlit("m");
    reveal_strlit("н");
    reveal_strlit("n");
    reveal_strlit("о");
    reveal_strlit("o");
    reveal_strlit("п");
    reveal_strlit("p");
    reveal_strlit("р");
    reveal_strlit("r");
    reveal_strlit("с");
    reveal_strlit("s");
    reveal_strlit("т");
    reveal_strlit("t");
    reveal_strlit("у");
    reveal_strlit("u");
    reveal_strlit("ф");
    reveal_strlit("f");
    reveal_strlit("х");
    reveal_strlit("x");
    reveal_strlit("ц");
    reveal_strlit("c");
    reveal_strlit("ч");
    reveal_strlit("ch");
    reveal_strlit("ш");
    reveal_strlit("sh");
    reveal_strlit("щ");
    reveal_strlit("shh");
    reveal_strlit("ъ");
    reveal_strlit("``");
    reveal_strlit("ы");
    reveal_strlit("y`");
    reveal_strlit("ь");
    reveal_strlit("`");
    reveal_strlit("э");
    reveal_strlit("e`");
    reveal_strlit("ю");
    reveal_strlit("yu");
    reveal_strlit("я");
    reveal_strlit("ya");
    reveal_strlit("№");
    reveal_strlit("#");
    let rules = rules_of(GOST779B_RU@);
    assert(rules.len() == 65);
    assert forall|i: int| 0 <= i < 65 implies is_letter_rule(#[trigger] rules[i]) by {}
    assert forall|i: int, j: int| 0 <= i < j < 65 implies (#[trigger] rules[i]).0[0] != (
    #[trigger] rules[j]).0[0] by {}
    assert forall|i: int, j: int| 0 <= i < j < 65 implies token_number((#[trigger] rules[i]).1)
        != token_number((#[trigger] rules[j]).1) by {}
    lemma_letter_rules_alphabet(rules);
    lemma_numbers_one_to_one(rules);
}

/// The rows for Belarusian: capital letters, small letters, then the numero
/// sign.
pub const GOST779B_BY: [(&'static str, &'static str); 64] = [
    ("А", "A"),
    ("Б", "B"),
    ("В", "V"),
    ("Г", "H"),
    ("Д", "D"),
    ("Е", "E"),
    ("Ё", "Yo"),
    ("Ж", "Zh"),
    ("З", "Z"),
    ("І", "I"),
    ("Й", "J"),
    ("К", "K"),
    ("Л", "L"),
    ("М", "M"),
    ("Н", "N"),
    ("О", "O"),
    ("П", "P"),
    ("Р", "R"),
    ("С", "S"),
    ("Т", "T"),
    ("У", "U"),
    ("Ў", "U`"),
    ("Ф", "F"),
    ("Х", "X"),
    ("Ц", "C"),
    ("Ч", "Ch"),
    ("Ш", "Sh"),
    ("Ы", "Y`"),
    ("Э", "E`"),
    ("Ю", "Yu"),
    ("Я", "Ya"),
    ("а", "a"),
    ("б", "b"),
    ("в", "v"),
    ("г", "h"),
    ("д", "d"),
    ("е", "e"),
    ("ё", "yo"),
    ("ж", "zh"),
    ("з", "z"),
    ("і", "i"),
    ("й", "j"),
    ("к", "k"),
    ("л", "l"),
    ("м", "m"),
    ("н", "n"),
    ("о", "o"),
    ("п", "p"),
    ("р", "r"),
    ("с", "s"),
    ("т", "t"),
    ("у", "u"),
    ("ў", "u`"),
    ("ф", "f"),
    ("х", "x"),
    ("ц", "c"),
    ("ч", "ch"),
    ("ш", "sh"),
    ("ы", "y`"),
    ("ь", "`"),
    ("э", "e`"),
    ("ю", "yu"),
    ("я", "ya"),
    ("№", "#"),
];

/// The table for Belarusian, in the order of its rows.
pub fn gost779b_by() -> (table: CharsMapping)
    ensures
        table@ == GOST779B_BY@,
{
    table_of(&GOST779B_BY)
}

/// The table for Belarusian is an alphabet and one to one.
pub proof fn lemma_gost779b_by_one_to_one()
    ensures
        is_alphabet(rules_of(GOST779B_BY@)),
        is_one_to_one(rules_of(GOST779B_BY@)),
{
    reveal_strlit("А");
    reveal_strlit("A");
    reveal_strlit("Б");
    reveal_strlit("B");
    reveal_strlit("В");
    reveal_strlit("V");
    reveal_strlit("Г");
    reveal_strlit("H");
    reveal_strlit("Д");
    reveal_strlit("D");
    reveal_strlit("Е");
    reveal_strlit("E");
    reveal_strlit("Ё");
    reveal_strlit("Yo");
    reveal_strlit("Ж");
    reveal_strlit("Zh");
    reveal_strlit("З");
    reveal_strlit("Z");
    reveal_strlit("І");
    reveal_strlit("I");
    reveal_strlit("Й");
    reveal_strlit("J");
    reveal_strlit("К");
    reveal_strlit("K");
    reveal_strlit("Л");
    reveal_strlit("L");
    reveal_strlit("М");
    reveal_strlit("M");
    reveal_strlit("Н");
    reveal_strlit("N");
    reveal_strlit("О");
    reveal_strlit("O");
    reveal_strlit("П");
    reveal_strlit("P");
    reveal_strlit("Р");
    reveal_strlit("R");
    reveal_strlit("С");
    reveal_strlit("S");
    reveal_strlit("Т");
    reveal_strlit("T");
    reveal_strlit("У");
    reveal_strlit("U");
    reveal_strlit("Ў");
    reveal_strlit("U`");
    reveal_strlit("Ф");
    reveal_strlit("F");
    reveal_strlit("Х");
    reveal_strlit("X");
    reveal_strlit("Ц");
    reveal_strlit("C");
    reveal_strlit("Ч");
    reveal_strlit("Ch");
    reveal_strlit("Ш");
    reveal_strlit("Sh");
    reveal_strlit("Ы");
    reveal_strlit("Y`");
    reveal_strlit("Э");
    reveal_strlit("E`");
    reveal_strlit("Ю");
    reveal_strlit("Yu");
    reveal_strlit("Я");
    reveal_strlit("Ya");
    reveal_strlit("а");
    reveal_strlit("a");
    reveal_strlit("б");
    reveal_strlit("b");
    reveal_strlit("в");
    reveal_strlit("v");
    reveal_strlit("г");
    reveal_strlit("h");
    reveal_strlit("д");
    reveal_strlit("d");
    reveal_strlit("е");
    reveal_strlit("e");
    reveal_strlit("ё");
    reveal_strlit("yo");
    reveal_strlit("ж");
    reveal_strlit("zh");
    reveal_strlit("з");
    reveal_strlit("z");
    reveal_strlit("і");
    reveal_strlit("i");
    reveal_strlit("й");
    reveal_strlit("j");
    reveal_strlit("к");
    reveal_strlit("k");
    reveal_strlit("л");
    reveal_strlit("l");
    reveal_strlit("м");
    reveal_strlit("m");
    reveal_strlit("н");
    reveal_strlit("n");
    reveal_strlit("о");
    reveal_strlit("o");
    reveal_strlit("п");
    reveal_strlit("p");
    reveal_strlit("р");
    reveal_strlit("r");
    reveal_strlit("с");
    reveal_strlit("s");
    reveal_strlit("т");
    reveal_strlit("t");
    reveal_strlit("у");
    reveal_strlit("u");
    reveal_strlit("ў");
    reveal_strlit("u`");
    reveal_strlit("ф");
    reveal_strlit("f");
    reveal_strlit("х");
    reveal_strlit("x");
    reveal_strlit("ц");
    reveal_strlit("c");
    reveal_strlit("ч");
    reveal_strlit("ch");
    reveal_strlit("ш");
    reveal_strlit("sh");
    reveal_strlit("ы");
    reveal_strlit("y`");
    reveal_strlit("ь");
    reveal_strlit("`");
    reveal_strlit("э");
    reveal_strlit("e`");
    reveal_strlit("ю");
    reveal_strlit("yu");
    reveal_strlit("я");
    reveal_strlit("ya");
    reveal_strlit("№");
    reveal_strlit("#");
    let rules = rules_of(GOST779B_BY@);
    assert(rules.len() == 64);
    assert forall|i: int| 0 <= i < 64 implies is_letter_rule(#[trigger] rules[i]) by {}
    assert forall|i: int, j: int| 0 <= i < j < 64 implies (#[trigger] rules[i]).0[0] != (
    #[trigger] rules[j]).0[0] by {}
    assert forall|i: int, j: int| 0 <= i < j < 64 implies token_number((#[trigger] rules[i]).1)
        != token_number((#[trigger] rules[j]).1) by {}
    lemma_letter_rules_alphabet(rules);
    lemma_numbers_one_to_one(rules);
}

/// The rows for Ukrainian: capital letters, small letters, then the numero
/// sign.
pub const GOST779B_UA: [(&'static str, &'static str); 66] = [
    ("А", "A"),
    ("Б", "B"),
    ("В", "V"),
    ("Г", "G"),
    ("Ґ", "G`"),
    ("Д", "D"),
    ("Е", "E"),
    ("Є", "Ye"),
    ("Ж", "Zh"),
    ("З", "Z"),
    ("И", "Y`"),
    ("І", "I"),
    ("Ї", "Yi"),
    ("Й", "J"),
    ("К", "K"),
    ("Л", "L"),
    ("М", "M"),
    ("Н", "N"),
    ("О", "O"),
    ("П", "P"),
    ("Р", "R"),
    ("С", "S"),
    ("Т", "T"),
    ("У", "U"),
    ("Ф", "F"),
    ("Х", "X"),
    ("Ц", "C"),
    ("Ч", "Ch"),
    ("Ш", "Sh"),
    ("Щ", "Shh"),
    ("Ю", "Yu"),
    ("Я", "Ya"),
    ("а", "a"),
    ("б", "b"),
    ("в", "v"),
    ("г", "g"),
    ("ґ", "g`"),
    ("д", "d"),
    ("е", "e"),
    ("є", "ye"),
    ("ж", "zh"),
    ("з", "z"),
    ("и", "y`"),
    ("і", "i"),
    ("ї", "yi"),
    ("й", "j"),
    ("к", "k"),
    ("л", "l"),
    ("м", "m"),
    ("н", "n"),
    ("о", "o"),
    ("п", "p"),
    ("р", "r"),
    ("с", "s"),
    ("т", "t"),
    ("у", "u"),
    ("ф", "f"),
    ("х", "x"),
    ("ц", "c"),
    ("ч", "ch"),
    ("ш", "sh"),
    ("щ", "shh"),
    ("ь", "`"),
    ("ю", "yu"),
    ("я", "ya"),
    ("№", "#"),
];

/// The table for Ukrainian, in the order of its rows.
pub fn gost779b_ua() -> (table: CharsMapping)
    ensures
        table@ == GOST779B_UA@,
{
    table_of(&GOST779B_UA)
}

/// The table for Ukrainian is an alphabet and one to one.
pub proof fn lemma_gost779b_ua_one_to_one()
    ensures
        is_alphabet(rules_of(GOST779B_UA@)),
        is_one_to_one(rules_of(GOST779B_UA@)),
{
    reveal_strlit("А");
    reveal_strlit("A");
    reveal_strlit("Б");
    reveal_strlit("B");
    reveal_strlit("В");
    reveal_strlit("V");
    reveal_strlit("Г");
    reveal_strlit("G");
    reveal_strlit("Ґ");
    reveal_strlit("G`");
    reveal_strlit("Д");
    reveal_strlit("D");
    reveal_strlit("Е");
    reveal_strlit("E");
    reveal_strlit("Є");
    reveal_strlit("Ye");
    reveal_strlit("Ж");
    reveal_strlit("Zh");
    reveal_strlit("З");
    reveal_strlit("Z");
    reveal_strlit("И");
    reveal_strlit("Y`");
    reveal_strlit("І");
    reveal_strlit("I");
    reveal_strlit("Ї");
    reveal_strlit("Yi");
    reveal_strlit("Й");
    reveal_strlit("J");
    reveal_strlit("К");
    reveal_strlit("K");
    reveal_strlit("Л");
    reveal_strlit("L");
    reveal_strlit("М");
    reveal_strlit("M");
    reveal_strlit("Н");
    reveal_strlit("N");
    reveal_strlit("О");
    reveal_strlit("O");
    reveal_strlit("П");
    reveal_strlit("P");
    reveal_strlit("Р");
    reveal_strlit("R");
    reveal_strlit("С");
    reveal_strlit("S");
    reveal_strlit("Т");
    reveal_strlit("T");
    reveal_strlit("У");
    reveal_strlit("U");
    reveal_strlit("Ф");
    reveal_strlit("F");
    reveal_strlit("Х");
    reveal_strlit("X");
    reveal_strlit("Ц");
    reveal_strlit("C");
    reveal_strlit("Ч");
    reveal_strlit("Ch");
    reveal_strlit("Ш");
    reveal_strlit("Sh");
    reveal_strlit("Щ");
    reveal_strlit("Shh");
    reveal_strlit("Ю");
    reveal_strlit("Yu");
    reveal_strlit("Я");
    reveal_strlit("Ya");
    reveal_strlit("а");
    reveal_strlit("a");
    reveal_strlit("б");
    reveal_strlit("b");
    reveal_strlit("в");
    reveal_strlit("v");
    reveal_strlit("г");
    reveal_strlit("g");
    reveal_strlit("ґ");
    reveal_strlit("g`");
    reveal_strlit("д");
    reveal_strlit("d");
    reveal_strlit("е");
    reveal_strlit("e");
    reveal_strlit("є");
    reveal_strlit("ye");
    reveal_strlit("ж");
    reveal_strlit("zh");
    reveal_strlit("з");
    reveal_strlit("z");
    reveal_strlit("и");
    reveal_strlit("y`");
    reveal_strlit("і");
    reveal_strlit("i");
    reveal_strlit("ї");
    reveal_strlit("yi");
    reveal_strlit("й");
    reveal_strlit("j");
    reveal_strlit("к");
    reveal_strlit("k");
    reveal_strlit("л");
    reveal_strlit("l");
    reveal_strlit("м");
    reveal_strlit("m");
    reveal_strlit("н");
    reveal_strlit("n");
    reveal_strlit("о");
    reveal_strlit("o");
    reveal_strlit("п");
    reveal_strlit("p");
    reveal_strlit("р");
    reveal_strlit("r");
    reveal_strlit("с");
    reveal_strlit("s");
    reveal_strlit("т");
    reveal_strlit("t");
    reveal_strlit("у");
    reveal_strlit("u");
    reveal_strlit("ф");
    reveal_strlit("f");
    reveal_strlit("х");
    reveal_strlit("x");
    reveal_strlit("ц");
    reveal_strlit("c");
    reveal_strlit("ч");
    reveal_strlit("ch");
    reveal_strlit("ш");
    reveal_strlit("sh");
    reveal_strlit("щ");
    reveal_strlit("shh");
    reveal_strlit("ь");
    reveal_strlit("`");
    reveal_strlit("ю");
    reveal_strlit("yu");
    reveal_strlit("я");
    reveal_strlit("ya");
    reveal_strlit("№");
    reveal_strlit("#");
    let rules = rules_of(GOST779B_UA@);
    assert(rules.len() == 66);
    assert forall|i: int| 0 <= i < 66 implies is_letter_rule(#[trigger] rules[i]) by {}
    assert forall|i: int, j: int| 0 <= i < j < 66 implies (#[trigger] rules[i]).0[0] != (
    #[trigger] rules[j]).0[0] by {}
    assert forall|i: int, j: int| 0 <= i < j < 66 implies token_number((#[trigger] rules[i]).1)
        != token_number((#[trigger] rules[j]).1) by {}
    lemma_letter_rules_alphabet(rules);
    lemma_numbers_one_to_one(rules);
}

} // verus!
