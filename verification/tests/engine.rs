use std::cmp::Ordering;
use translit::table::{compare_len, insert_row, is_longer, table_of};
use translit::text::{chars_of, matches_at, push_all, replace_all, string_of};
use translit::{
    gost779b_by, gost779b_ru, gost779b_ua, iternational_passport_2013_ru, order_n_995_ru,
    streamlined_system, CharsMapping, FromLatin, ToLatin, Transliterator,
};

fn chars(s: &str) -> Vec<char> {
    s.chars().collect()
}

#[test]
fn custom_table_to_latin() {
    let table: CharsMapping = vec![("а", "a"), ("с", "s"), ("д", "d"), ("ф", "f")];
    let translit = Transliterator::new(table);
    assert_eq!(translit.convert("фасад", false), "fasad");
    assert_eq!(translit.convert("fasad", true), "фасад");
}

#[test]
fn empty_input_stays_empty() {
    let tables: Vec<CharsMapping> = vec![
        vec![],
        gost779b_ru(),
        gost779b_by(),
        gost779b_ua(),
        iternational_passport_2013_ru(),
        order_n_995_ru(),
        streamlined_system(),
        vec![("", "x"), ("y", "")],
    ];
    for table in tables {
        let translit = Transliterator::new(table);
        assert_eq!(translit.convert("", false), "");
        assert_eq!(translit.convert("", true), "");
        assert_eq!(translit.to_latin(""), "");
        assert_eq!(translit.from_latin(""), "");
    }
}

#[test]
fn empty_table_is_identity() {
    let translit = Transliterator::new(Vec::new());
    assert_eq!(translit.convert("Привет, world! 123", false), "Привет, world! 123");
    assert_eq!(translit.convert("Привет, world! 123", true), "Привет, world! 123");
}

#[test]
fn unmapped_characters_pass_through() {
    let translit = Transliterator::new(gost779b_ru());
    assert_eq!(translit.to_latin("1, 2; 3! (q) — \t\n"), "1, 2; 3! (q) — \t\n");
    assert_eq!(translit.to_latin("да 100% нет?"), "da 100% net?");
    assert_eq!(translit.from_latin("да, 100%"), "да, 100%");
}

#[test]
fn unmapped_character_parts_the_text() {
    let translit = Transliterator::new(gost779b_ru());
    let whole = translit.to_latin("щука и ёж");
    let parts = [
        translit.to_latin("щука"),
        translit.to_latin("и"),
        translit.to_latin("ёж"),
    ];
    assert_eq!(whole, format!("{} {} {}", parts[0], parts[1], parts[2]));
    assert_eq!(whole, "shhuka i yozh");
}

#[test]
fn conversion_is_to_latin_and_from_latin() {
    let translit = Transliterator::new(gost779b_ua());
    let text = "Їжак і ґава";
    assert_eq!(translit.to_latin(text), translit.convert(text, false));
    let latin = "Yizhak i g`ava";
    assert_eq!(translit.to_latin(text), latin);
    assert_eq!(translit.from_latin(latin), translit.convert(latin, true));
    assert_eq!(translit.from_latin(latin), text);
}

#[test]
fn longest_latin_token_is_applied_first() {
    let table: CharsMapping = vec![("с", "s"), ("х", "h"), ("ш", "sh"), ("щ", "shh")];
    let translit = Transliterator::new(table);
    assert_eq!(translit.from_latin("shh sh s h"), "щ ш с х");
    let reversed: CharsMapping = vec![("щ", "shh"), ("ш", "sh"), ("х", "h"), ("с", "s")];
    let translit = Transliterator::new(reversed);
    assert_eq!(translit.from_latin("shh sh s h"), "щ ш с х");
}

#[test]
fn equally_long_latin_tokens_keep_the_order_given() {
    let first: CharsMapping = vec![("а", "x"), ("б", "x")];
    assert_eq!(Transliterator::new(first).from_latin("x"), "а");
    let second: CharsMapping = vec![("б", "x"), ("а", "x")];
    assert_eq!(Transliterator::new(second).from_latin("x"), "б");
    // Equal length in bytes, whatever the tokens hold: "zz" does not go before "ab".
    let third: CharsMapping = vec![("1", "ab"), ("2", "zz"), ("3", "b")];
    assert_eq!(Transliterator::new(third).from_latin("abzzb"), "123");
}

#[test]
fn length_is_counted_in_bytes() {
    // "я" takes two bytes and goes before "zz" only where it was given first.
    let table: CharsMapping = vec![("a", "z"), ("b", "я"), ("c", "zz")];
    let translit = Transliterator::new(table);
    // Rules in order: b, c, a. The text "zz" is the token of c.
    assert_eq!(translit.from_latin("zzя"), "cb");
    // One character of three bytes goes before two characters of one byte each.
    let table: CharsMapping = vec![("x", "ab"), ("y", "€")];
    let translit = Transliterator::new(table);
    assert_eq!(translit.to_latin("€x"), "€ab");
    let table: CharsMapping = vec![("x", "€"), ("€", "ab")];
    // Rule for "x" first (three bytes), then the rule for "€" rewrites what it put.
    assert_eq!(Transliterator::new(table).to_latin("x"), "ab");
}

#[test]
fn later_rule_rewrites_what_an_earlier_rule_put() {
    let table: CharsMapping = vec![("a", "b"), ("b", "c")];
    let translit = Transliterator::new(table);
    assert_eq!(translit.to_latin("a"), "c");
    assert_eq!(translit.to_latin("ab"), "cc");
    assert_eq!(translit.from_latin("c"), "b");
}

#[test]
fn rows_with_a_shared_token_are_all_kept() {
    let table: CharsMapping = vec![("a", "1"), ("a", "2"), ("b", "2")];
    let translit = Transliterator::new(table);
    assert_eq!(translit.to_latin("ab"), "12");
    assert_eq!(translit.from_latin("12"), "aa");
}

#[test]
fn empty_token_is_never_found() {
    let table: CharsMapping = vec![("", "x"), ("а", "a")];
    let translit = Transliterator::new(table);
    assert_eq!(translit.to_latin("баба"), "бaбa");
    let table: CharsMapping = vec![("ь", ""), ("а", "a")];
    let translit = Transliterator::new(table);
    assert_eq!(translit.to_latin("баня ь"), "бaня ");
    assert_eq!(translit.from_latin("бaня"), "баня");
}

#[test]
fn replace_all_is_left_to_right_without_overlap() {
    assert_eq!(replace_all(&chars("aaa"), &chars("aa"), &chars("b")), chars("ba"));
    assert_eq!(replace_all(&chars("aaaa"), &chars("aa"), &chars("b")), chars("bb"));
    assert_eq!(replace_all(&chars("abab"), &chars("ab"), &chars("abab")), chars("abababab"));
    assert_eq!(replace_all(&chars("ababa"), &chars("aba"), &chars("x")), chars("xba"));
    assert_eq!(replace_all(&chars("шея"), &chars("я"), &chars("ya")), chars("шеya"));
    assert_eq!(replace_all(&chars("abc"), &chars("abcd"), &chars("x")), chars("abc"));
    assert_eq!(replace_all(&chars("abc"), &chars("b"), &chars("")), chars("ac"));
    assert_eq!(replace_all(&chars("abc"), &chars(""), &chars("x")), chars("abc"));
    assert_eq!(replace_all(&chars(""), &chars("a"), &chars("x")), chars(""));
    assert_eq!(replace_all(&chars("abc"), &chars("abc"), &chars("")), chars(""));
}

#[test]
fn matches_at_finds_the_token_where_it_stands() {
    let text = chars("привет");
    assert!(matches_at(&text, &chars("при"), 0));
    assert!(matches_at(&text, &chars("вет"), 3));
    assert!(!matches_at(&text, &chars("вет"), 2));
    assert!(!matches_at(&text, &chars("вет"), 4));
    assert!(matches_at(&text, &chars(""), 6));
    assert!(!matches_at(&text, &chars("т"), 6));
}

#[test]
fn characters_and_strings() {
    assert_eq!(chars_of("aя€"), vec!['a', 'я', '€']);
    assert_eq!(chars_of(""), Vec::<char>::new());
    assert_eq!(string_of(&vec!['a', 'я', '€']), "aя€");
    assert_eq!(string_of(&Vec::new()), "");
    let mut out = vec!['a'];
    push_all(&mut out, &vec!['b', 'c']);
    assert_eq!(out, vec!['a', 'b', 'c']);
}

#[test]
fn tokens_are_compared_by_length_in_bytes_only() {
    assert!(matches!(compare_len("ab", "zz"), Ordering::Equal));
    assert!(matches!(compare_len("я", "zz"), Ordering::Equal));
    assert!(matches!(compare_len("я", "z"), Ordering::Greater));
    assert!(matches!(compare_len("", "z"), Ordering::Less));
    assert!(matches!(compare_len("zzz", "€"), Ordering::Equal));
    assert!(is_longer("shh", "sh"));
    assert!(!is_longer("sh", "zh"));
    assert!(!is_longer("s", "zh"));
}

#[test]
fn row_goes_behind_the_rows_that_are_as_long() {
    let mut table: CharsMapping = vec![("1", "aaa"), ("2", "bb"), ("3", "cc"), ("4", "d")];
    insert_row(&mut table, ("5", "ee"));
    assert_eq!(table, vec![("1", "aaa"), ("2", "bb"), ("3", "cc"), ("5", "ee"), ("4", "d")]);
    insert_row(&mut table, ("6", "ffff"));
    assert_eq!(table[0], ("6", "ffff"));
    insert_row(&mut table, ("7", ""));
    assert_eq!(table[6], ("7", ""));
    let mut empty: CharsMapping = Vec::new();
    insert_row(&mut empty, ("а", "a"));
    assert_eq!(empty, vec![("а", "a")]);
}

#[test]
fn table_holds_the_rows_in_their_order() {
    let rows = [("а", "a"), ("б", "b"), ("в", "v")];
    assert_eq!(table_of(&rows), vec![("а", "a"), ("б", "b"), ("в", "v")]);
    let none: [(&'static str, &'static str); 0] = [];
    assert_eq!(table_of(&none), Vec::new());
}
