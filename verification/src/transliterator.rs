//! The engine that applies a table to a text, and the built-in systems.

use crate::alphabet::{is_native, is_unambiguous, lemma_arranged_alphabet, lemma_round_trip};
use crate::bulgarian::{streamlined_system, STREAMLINED_SYSTEM};
use crate::engine::{converted, lemma_converted_empty};
use crate::gost779::{
    gost779b_by, gost779b_ru, gost779b_ua, lemma_gost779b_by_one_to_one,
    lemma_gost779b_ru_one_to_one, lemma_gost779b_ua_one_to_one, GOST779B_BY, GOST779B_RU,
    GOST779B_UA,
};
use crate::macedonian::{digraph_system, DIGRAPH_SYSTEM};
use crate::passport2013::{iternational_passport_2013_ru, ITERNATIONAL_PASSPORT_2013_RU};
use crate::table::{
    insert_row, is_arrangement, lemma_arrangement_grows, longest_first, rules_of, Rule,
};
use crate::text::{chars_of, replace_all, string_of};
use crate::CharsMapping;
use vstd::prelude::*;

verus! {

/// Transliteration into the Latin alphabet.
pub trait ToLatin {
    /// The Latin text that stands for `src`.
    spec fn latin_of(&self, src: Seq<char>) -> Seq<char>;

    /// Transliterates `src` to Latin.
    fn to_latin(&self, src: &str) -> (latin: String)
        ensures
            latin@ == self.latin_of(src@),
    ;
}

/// Transliteration from the Latin alphabet.
pub trait FromLatin {
    /// The text in the source script for which the Latin text `src` stands.
    spec fn script_of(&self, src: Seq<char>) -> Seq<char>;

    /// Transliterates `src` from Latin.
    fn from_latin(&self, src: &str) -> (script: String)
        ensures
            script@ == self.script_of(src@),
    ;
}

/// The languages that GOST 7.79 System B has a table for.
pub enum Language {
    Ru,
    By,
    Ua,
}

/// Transliterates text with a table of its own, from the source script to
/// Latin and back.
pub struct Transliterator {
    rules: CharsMapping,
}

impl View for Transliterator {
    type V = Seq<Rule>;

    /// The rules in the order in which they are applied.
    closed spec fn view(&self) -> Seq<Rule> {
        rules_of(self.rules@)
    }
}

impl Transliterator {
    #[verifier::type_invariant]
    spec fn ordered(self) -> bool {
        longest_first(rules_of(self.rules@))
    }

    /// Creates a transliterator from the rows of a table, in any order. The
    /// rows are applied with the longest Latin tokens first; rows with equally
    /// long Latin tokens are applied in the order given. No row is dropped,
    /// even where two rows share a token, and an empty table leaves every text
    /// as it is.
    pub fn new(custom_rules: CharsMapping) -> (translit: Self)
        ensures
            is_arrangement(rules_of(custom_rules@), translit@),
            translit@.len() == custom_rules@.len(),
    {
        let mut table: CharsMapping = Vec::new();
        let mut i: usize = 0;
        assert(rules_of(custom_rules@).take(0) == rules_of(table@));
        while i < custom_rules.len()
            invariant
                i <= custom_rules.len(),
                table@.len() == i,
                is_arrangement(rules_of(custom_rules@).take(i as int), rules_of(table@)),
            decreases custom_rules.len() - i,
        {
            let row = custom_rules[i];
            let ghost before = rules_of(table@);
            insert_row(&mut table, row);
            proof {
                let given = rules_of(custom_rules@).take(i as int);
                let rule = (row.0@, row.1@);
                lemma_arrangement_grows(given, before, rule, rules_of(table@));
                assert(rules_of(custom_rules@).take(i + 1) == given.push(rule));
            }
            i += 1;
        }
        assert(rules_of(custom_rules@).take(i as int) == rules_of(custom_rules@));
        Transliterator { rules: table }
    }

    /// Transliterates `src`: to Latin or, with `invert`, from Latin. The rows
    /// of the table are applied one after the other, longest Latin token
    /// first, each to all of what the rows before it have left.
    pub fn convert(&self, src: &str, invert: bool) -> (out: String)
        ensures
            out@ == converted(self@, src@, invert),
            src@.len() == 0 ==> out@.len() == 0,
            longest_first(self@),
    {
        proof {
            use_type_invariant(self);
            if src@.len() == 0 {
                assert(src@ == Seq::<char>::empty());
                lemma_converted_empty(self@, invert);
            }
        }
        let mut work = chars_of(src);
        let mut i: usize = 0;
        assert(self@.skip(0) == self@);
        while i < self.rules.len()
            invariant
                i <= self.rules.len(),
                converted(self@.skip(i as int), work@, invert) == converted(self@, src@, invert),
            decreases self.rules.len() - i,
        {
            let source = chars_of(self.rules[i].0);
            let target = chars_of(self.rules[i].1);
            assert(self@.skip(i as int).drop_first() == self@.skip(i + 1));
            if invert {
                work = replace_all(&work, &target, &source);
            } else {
                work = replace_all(&work, &source, &target);
            }
            i += 1;
        }
        string_of(&work)
    }
}

impl ToLatin for Transliterator {
    open spec fn latin_of(&self, src: Seq<char>) -> Seq<char> {
        converted(self@, src, false)
    }

    /// Transliterates `src` to Latin.
    fn to_latin(&self, src: &str) -> (latin: String) {
        self.convert(src, false)
    }
}

impl FromLatin for Transliterator {
    open spec fn script_of(&self, src: Seq<char>) -> Seq<char> {
        converted(self@, src, true)
    }

    /// Transliterates `src` from Latin.
    fn from_latin(&self, src: &str) -> (script: String) {
        self.convert(src, true)
    }
}

/// The rows of GOST 7.79 System B for `lang`.
pub open spec fn gost779b_rows(lang: Language) -> Seq<(&'static str, &'static str)> {
    match lang {
        Language::Ru => GOST779B_RU@,
        Language::By => GOST779B_BY@,
        Language::Ua => GOST779B_UA@,
    }
}

/// A table of GOST 7.79 System B brings text back from the Latin text that
/// it made of it, where every character of the text has a row or occurs in no
/// Latin token, and no Latin token can be read across the border between two
/// letters.
pub proof fn lemma_gost779b_round_trip(lang: Language, rules: Seq<Rule>, text: Seq<char>)
    requires
        is_arrangement(rules_of(gost779b_rows(lang)), rules),
        is_native(rules, text),
        is_unambiguous(rules, text),
    ensures
        converted(rules, converted(rules, text, false), true) == text,
{
    match lang {
        Language::Ru => lemma_gost779b_ru_one_to_one(),
        Language::By => lemma_gost779b_by_one_to_one(),
        Language::Ua => lemma_gost779b_ua_one_to_one(),
    }
    lemma_arranged_alphabet(rules_of(gost779b_rows(lang)), rules);
    lemma_round_trip(rules, text);
}

/// GOST 7.79 System B, for Russian, Belarusian or Ukrainian: to Latin and
/// back.
pub struct Gost779B {
    translit: Transliterator,
}

impl View for Gost779B {
    type V = Seq<Rule>;

    /// The rules in the order in which they are applied.
    closed spec fn view(&self) -> Seq<Rule> {
        self.translit@
    }
}

impl Gost779B {
    /// The system for `lang`.
    pub fn new(lang: Language) -> (gost: Gost779B)
        ensures
            is_arrangement(rules_of(gost779b_rows(lang)), gost@),
    {
        let table = match lang {
            Language::Ru => gost779b_ru(),
            Language::By => gost779b_by(),
            Language::Ua => gost779b_ua(),
        };

        let translit = Transliterator::new(table);

        Gost779B { translit }
    }
}

impl ToLatin for Gost779B {
    open spec fn latin_of(&self, src: Seq<char>) -> Seq<char> {
        converted(self@, src, false)
    }

    fn to_latin(&self, src: &str) -> (latin: String) {
        self.translit.to_latin(src)
    }
}

impl FromLatin for Gost779B {
    open spec fn script_of(&self, src: Seq<char>) -> Seq<char> {
        converted(self@, src, true)
    }

    fn from_latin(&self, src: &str) -> (script: String) {
        self.translit.from_latin(src)
    }
}

/// The romanization of Russian in passports since 2013: to Latin only.
pub struct Passport2013 {
    translit: Transliterator,
}

impl View for Passport2013 {
    type V = Seq<Rule>;

    /// The rules in the order in which they are applied.
    closed spec fn view(&self) -> Seq<Rule> {
        self.translit@
    }
}

impl Passport2013 {
    /// The system with its table for Russian.
    pub fn new() -> (passport: Passport2013)
        ensures
            is_arrangement(rules_of(ITERNATIONAL_PASSPORT_2013_RU@), passport@),
    {
        let translit = Transliterator::new(iternational_passport_2013_ru());

        Passport2013 { translit }
    }
}

impl ToLatin for Passport2013 {
    open spec fn latin_of(&self, src: Seq<char>) -> Seq<char> {
        converted(self@, src, false)
    }

    fn to_latin(&self, src: &str) -> (latin: String) {
        self.translit.to_latin(src)
    }
}

/// The streamlined system for Bulgarian: to Latin only.
pub struct BulgarianOfficial {
    translit: Transliterator,
}

impl View for BulgarianOfficial {
    type V = Seq<Rule>;

    /// The rules in the order in which they are applied.
    closed spec fn view(&self) -> Seq<Rule> {
        self.translit@
    }
}

impl BulgarianOfficial {
    /// The system with its table.
    pub fn new() -> (bulgarian: BulgarianOfficial)
        ensures
            is_arrangement(rules_of(STREAMLINED_SYSTEM@), bulgarian@),
    {
        let translit = Transliterator::new(streamlined_system());

        BulgarianOfficial { translit }
    }
}

impl ToLatin for BulgarianOfficial {
    open spec fn latin_of(&self, src: Seq<char>) -> Seq<char> {
        converted(self@, src, false)
    }

    fn to_latin(&self, src: &str) -> (latin: String) {
        self.translit.to_latin(src)
    }
}

/// The digraph system for Macedonian: to Latin only.
pub struct MacedonianOfficial {
    translit: Transliterator,
}

impl View for MacedonianOfficial {
    type V = Seq<Rule>;

    /// The rules in the order in which they are applied.
    closed spec fn view(&self) -> Seq<Rule> {
        self.translit@
    }
}

impl MacedonianOfficial {
    /// The system with its table.
    pub fn new() -> (macedonian: MacedonianOfficial)
        ensures
            is_arrangement(rules_of(DIGRAPH_SYSTEM@), macedonian@),
    {
        let translit = Transliterator::new(digraph_system());

        MacedonianOfficial { translit }
    }
}

impl ToLatin for MacedonianOfficial {
    open spec fn latin_of(&self, src: Seq<char>) -> Seq<char> {
        converted(self@, src, false)
    }

    fn to_latin(&self, src: &str) -> (latin: String) {
        self.translit.to_latin(src)
    }
}

} // verus!
