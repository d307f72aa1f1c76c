//! Tables that work letter by letter.
//!
//! In most tables every source token is one letter, and no Latin token holds
//! such a letter. The way to Latin then spells the text letter by letter.
//! Where, besides, no two letters share a Latin token, the way back reads
//! that spelling again, as long as no Latin token can be read across the
//! border between two letters.

use crate::engine::{applied, converted};
use crate::table::{
    byte_len, is_arrangement, lemma_arrangement_members, longest_first, Rule,
};
use crate::text::{
    lemma_replaced_match, lemma_replaced_skips, lemma_replaced_splits, occurs_at, replaced,
};
use vstd::prelude::*;
use vstd::utf8::encode_utf8;

verus! {

/// Some rule has the letter `c` for its source token.
pub open spec fn has_rule(rules: Seq<Rule>, c: char) -> bool {
    exists|i: int| 0 <= i < rules.len() && (#[trigger] rules[i]).0 == seq![c]
}

/// Every source token is one letter, and no Latin token holds the letter of
/// a source token.
pub open spec fn is_alphabet(rules: Seq<Rule>) -> bool {
    &&& forall|i: int| 0 <= i < rules.len() ==> (#[trigger] rules[i]).0.len() == 1
    &&& forall|i: int, j: int|
        0 <= i < rules.len() && 0 <= j < rules.len() ==> !(#[trigger] rules[j]).1.contains(
            (#[trigger] rules[i]).0[0],
        )
}

/// No Latin token is empty, and two rules have the same source token exactly
/// where they have the same Latin token.
pub open spec fn is_one_to_one(rules: Seq<Rule>) -> bool {
    &&& forall|i: int| 0 <= i < rules.len() ==> (#[trigger] rules[i]).1.len() > 0
    &&& forall|i: int, j: int|
        0 <= i < rules.len() && 0 <= j < rules.len() ==> ((#[trigger] rules[i]).0 == (
        #[trigger] rules[j]).0 <==> rules[i].1 == rules[j].1)
}

/// The Latin token of the letter `c`: that of the first rule for `c`, and `c`
/// itself where no rule is for it.
pub open spec fn latin_of_letter(rules: Seq<Rule>, c: char) -> Seq<char>
    decreases rules.len(),
{
    if rules.len() == 0 {
        seq![c]
    } else if rules[0].0 == seq![c] {
        rules[0].1
    } else {
        latin_of_letter(rules.drop_first(), c)
    }
}

/// `text` spelled in Latin: the Latin tokens of its letters, one after the
/// other.
pub open spec fn spelled(rules: Seq<Rule>, text: Seq<char>) -> Seq<char>
    decreases text.len(),
{
    if text.len() == 0 {
        text
    } else {
        latin_of_letter(rules, text[0]) + spelled(rules, text.drop_first())
    }
}

/// Every character of `text` has a rule, or occurs in no Latin token.
pub open spec fn is_native(rules: Seq<Rule>, text: Seq<char>) -> bool {
    forall|k: int, j: int|
        0 <= k < text.len() && 0 <= j < rules.len() ==> has_rule(rules, #[trigger] text[k]) || !(
        #[trigger] rules[j]).1.contains(text[k])
}

/// In the spelling of `text`, no Latin token of the table begins within the
/// token of one letter and ends behind it.
pub open spec fn is_unambiguous(rules: Seq<Rule>, text: Seq<char>) -> bool
    decreases text.len(),
{
    text.len() == 0 || {
        &&& forall|j: int, at: int|
            0 <= j < rules.len() && 0 <= at < latin_of_letter(rules, text[0]).len() < at
                + rules[j].1.len() ==> !#[trigger] occurs_at(
                spelled(rules, text),
                rules[j].1,
                at,
            )
        &&& is_unambiguous(rules, text.drop_first())
    }
}

/// The source token is one letter outside ASCII, and the Latin token is not
/// empty and made of ASCII characters.
pub open spec fn is_letter_rule(rule: Rule) -> bool {
    &&& rule.0.len() == 1
    &&& rule.0[0] as u32 >= 0x80
    &&& rule.1.len() > 0
    &&& forall|k: int| 0 <= k < rule.1.len() ==> (#[trigger] rule.1[k]) as u32 <= 0x7f
}

/// Rules from letters outside ASCII to ASCII tokens make an alphabet.
pub proof fn lemma_letter_rules_alphabet(rules: Seq<Rule>)
    requires
        forall|i: int| 0 <= i < rules.len() ==> is_letter_rule(#[trigger] rules[i]),
    ensures
        is_alphabet(rules),
{
    assert forall|i: int, j: int| 0 <= i < rules.len() && 0 <= j < rules.len() implies !(
    #[trigger] rules[j]).1.contains((#[trigger] rules[i]).0[0]) by {
        let c = rules[i].0[0];
        if rules[j].1.contains(c) {
            let k = choose|k: int| 0 <= k < rules[j].1.len() && rules[j].1[k] == c;
            assert(rules[j].1[k] as u32 <= 0x7f);
        }
    }
}

/// The arrangement of an alphabet is an alphabet, and that of a table that
/// is one to one is one to one.
pub proof fn lemma_arranged_alphabet(given: Seq<Rule>, arranged: Seq<Rule>)
    requires
        is_arrangement(given, arranged),
    ensures
        is_alphabet(given) ==> is_alphabet(arranged),
        is_one_to_one(given) ==> is_one_to_one(arranged),
{
    assert forall|i: int| 0 <= i < arranged.len() implies given.contains(
        #[trigger] arranged[i],
    ) by {
        lemma_arrangement_members(given, arranged, i);
    }
    if is_alphabet(given) {
        assert forall|i: int| 0 <= i < arranged.len() implies (#[trigger] arranged[i]).0.len()
            == 1 by {
            let a = choose|a: int| 0 <= a < given.len() && given[a] == arranged[i];
            assert(given[a].0.len() == 1);
        }
        assert forall|i: int, j: int| 0 <= i < arranged.len() && 0 <= j < arranged.len() implies !(
        #[trigger] arranged[j]).1.contains((#[trigger] arranged[i]).0[0]) by {
            let a = choose|a: int| 0 <= a < given.len() && given[a] == arranged[i];
            let b = choose|b: int| 0 <= b < given.len() && given[b] == arranged[j];
            assert(!given[b].1.contains(given[a].0[0]));
        }
    }
    if is_one_to_one(given) {
        assert forall|i: int| 0 <= i < arranged.len() implies (#[trigger] arranged[i]).1.len()
            > 0 by {
            let a = choose|a: int| 0 <= a < given.len() && given[a] == arranged[i];
            assert(given[a].1.len() > 0);
        }
        assert forall|i: int, j: int| 0 <= i < arranged.len() && 0 <= j < arranged.len() implies ((
        #[trigger] arranged[i]).0 == (#[trigger] arranged[j]).0 <==> arranged[i].1
            == arranged[j].1) by {
            let a = choose|a: int| 0 <= a < given.len() && given[a] == arranged[i];
            let b = choose|b: int| 0 <= b < given.len() && given[b] == arranged[j];
            assert(given[a].0 == given[b].0 <==> given[a].1 == given[b].1);
        }
    }
}

/// A letter without a rule is its own Latin token.
pub proof fn lemma_letter_without_rule(rules: Seq<Rule>, c: char)
    requires
        !has_rule(rules, c),
    ensures
        latin_of_letter(rules, c) == seq![c],
    decreases rules.len(),
{
    if rules.len() > 0 {
        let rest = rules.drop_first();
        assert(rules[0].0 != seq![c]);
        assert(!has_rule(rest, c)) by {
            if has_rule(rest, c) {
                let i = choose|i: int| 0 <= i < rest.len() && (#[trigger] rest[i]).0 == seq![c];
                assert(rules[i + 1].0 == seq![c]);
            }
        }
        lemma_letter_without_rule(rest, c);
    }
}

/// The Latin token of a letter with a rule is the Latin token of a rule for
/// that letter, and no rule before that one is for the letter.
pub proof fn lemma_letter_with_rule(rules: Seq<Rule>, c: char) -> (first: int)
    requires
        has_rule(rules, c),
    ensures
        0 <= first < rules.len(),
        rules[first].0 == seq![c],
        rules[first].1 == latin_of_letter(rules, c),
        !has_rule(rules.take(first), c),
    decreases rules.len(),
{
    let i = choose|i: int| 0 <= i < rules.len() && (#[trigger] rules[i]).0 == seq![c];
    if rules[0].0 == seq![c] {
        assert(rules.take(0).len() == 0);
        0
    } else {
        let rest = rules.drop_first();
        assert(rest[i - 1].0 == seq![c]);
        let below = lemma_letter_with_rule(rest, c);
        let first = below + 1;
        assert(rules[first] == rest[below]);
        assert(!has_rule(rules.take(first), c)) by {
            if has_rule(rules.take(first), c) {
                let k = choose|k: int|
                    0 <= k < rules.take(first).len() && (#[trigger] rules.take(first)[k]).0
                        == seq![c];
                assert(rules.take(first)[k] == rules[k]);
                assert(rest.take(below)[k - 1] == rules[k]);
            }
        }
        first
    }
}

/// Spelling goes through concatenation.
pub proof fn lemma_spelled_add(rules: Seq<Rule>, a: Seq<char>, b: Seq<char>)
    ensures
        spelled(rules, a + b) == spelled(rules, a) + spelled(rules, b),
    decreases a.len(),
{
    if a.len() == 0 {
        assert(a + b == b);
        assert(spelled(rules, a) + spelled(rules, b) == spelled(rules, b));
    } else {
        assert((a + b).drop_first() == a.drop_first() + b);
        lemma_spelled_add(rules, a.drop_first(), b);
        assert(latin_of_letter(rules, a[0]) + (spelled(rules, a.drop_first()) + spelled(rules, b))
            == (latin_of_letter(rules, a[0]) + spelled(rules, a.drop_first())) + spelled(
            rules,
            b,
        ));
    }
}

/// Text without a letter that has a rule is its own spelling.
pub proof fn lemma_spelled_without_rules(rules: Seq<Rule>, text: Seq<char>)
    requires
        forall|k: int| 0 <= k < text.len() ==> !has_rule(rules, #[trigger] text[k]),
    ensures
        spelled(rules, text) == text,
    decreases text.len(),
{
    if text.len() > 0 {
        let rest = text.drop_first();
        assert forall|k: int| 0 <= k < rest.len() implies !has_rule(rules, #[trigger] rest[k]) by {
            assert(rest[k] == text[k + 1]);
        }
        lemma_spelled_without_rules(rules, rest);
        lemma_letter_without_rule(rules, text[0]);
        assert(seq![text[0]] + rest == text);
    }
}

/// A part of an alphabet is an alphabet.
pub proof fn lemma_alphabet_part(rules: Seq<Rule>, from: int, to: int)
    requires
        is_alphabet(rules),
        0 <= from <= to <= rules.len(),
    ensures
        is_alphabet(rules.subrange(from, to)),
{
    let part = rules.subrange(from, to);
    assert forall|i: int| 0 <= i < part.len() implies (#[trigger] part[i]).0.len() == 1 by {
        assert(part[i] == rules[from + i]);
    }
    assert forall|i: int, j: int| 0 <= i < part.len() && 0 <= j < part.len() implies !(
    #[trigger] part[j]).1.contains((#[trigger] part[i]).0[0]) by {
        assert(part[i] == rules[from + i]);
        assert(part[j] == rules[from + j]);
    }
}

/// Applying the first rule of an alphabet and spelling what comes out with
/// the other rules is spelling with all of them.
proof fn lemma_first_rule_spells(rules: Seq<Rule>, text: Seq<char>)
    requires
        is_alphabet(rules),
        rules.len() > 0,
    ensures
        spelled(rules.drop_first(), replaced(text, rules[0].0, rules[0].1)) == spelled(
            rules,
            text,
        ),
    decreases text.len(),
{
    let rest = rules.drop_first();
    let pat = rules[0].0;
    let with = rules[0].1;
    assert(pat == seq![pat[0]]);
    if text.len() > 0 {
        let c = text[0];
        let tail = text.drop_first();
        assert(text.skip(1) == tail);
        lemma_first_rule_spells(rules, tail);
        assert(text.subrange(0, 1) == seq![c]);
        if c == pat[0] {
            assert(occurs_at(text, pat, 0));
            assert forall|k: int| 0 <= k < with.len() implies !has_rule(rest, #[trigger] with[k]) by {
                if has_rule(rest, with[k]) {
                    let i = choose|i: int|
                        0 <= i < rest.len() && (#[trigger] rest[i]).0 == seq![with[k]];
                    assert(rules[i + 1].0[0] == with[k]);
                    assert(rules[0].1.contains(rules[i + 1].0[0]));
                }
            }
            lemma_spelled_without_rules(rest, with);
            lemma_spelled_add(rest, with, replaced(tail, pat, with));
        } else {
            assert(!occurs_at(text, pat, 0)) by {
                if occurs_at(text, pat, 0) {
                    assert(text.subrange(0, 1)[0] == pat[0]);
                }
            }
            assert(seq![c] != pat) by {
                if seq![c] == pat {
                    assert(seq![c][0] == pat[0]);
                }
            }
            lemma_spelled_add(rest, seq![c], replaced(tail, pat, with));
            assert(seq![c].drop_first() == Seq::<char>::empty());
            assert(spelled(rest, seq![c].drop_first()) == Seq::<char>::empty());
            assert(seq![c][0] == c);
            assert(spelled(rest, seq![c]) == latin_of_letter(rest, c) + Seq::<char>::empty());
            assert(spelled(rest, seq![c]) == latin_of_letter(rest, c));
        }
    }
}

/// An alphabet turns text to Latin by spelling it: each letter becomes its
/// Latin token, and every other character stays.
pub proof fn lemma_to_latin_spells(rules: Seq<Rule>, text: Seq<char>)
    requires
        is_alphabet(rules),
    ensures
        converted(rules, text, false) == spelled(rules, text),
    decreases rules.len(),
{
    if rules.len() == 0 {
        assert forall|k: int| 0 <= k < text.len() implies !has_rule(rules, #[trigger] text[k]) by {}
        lemma_spelled_without_rules(rules, text);
    } else {
        let rest = rules.drop_first();
        lemma_alphabet_part(rules, 1, rules.len() as int);
        lemma_to_latin_spells(rest, applied(rules[0], text, false));
        lemma_first_rule_spells(rules, text);
    }
}

/// The UTF-8 length of a text is the sum of the lengths of its parts.
pub proof fn lemma_byte_len_add(a: Seq<char>, b: Seq<char>)
    ensures
        byte_len(a + b) == byte_len(a) + byte_len(b),
    decreases a.len(),
{
    if a.len() == 0 {
        assert(a + b == b);
    } else {
        assert((a + b).drop_first() == a.drop_first() + b);
        lemma_byte_len_add(a.drop_first(), b);
    }
}

/// A token that stands in another token and is not all of it takes fewer
/// bytes.
pub proof fn lemma_part_is_shorter(whole: Seq<char>, part: Seq<char>, at: int)
    requires
        occurs_at(whole, part, at),
        part != whole,
    ensures
        byte_len(part) < byte_len(whole),
{
    let before = whole.take(at);
    let behind = whole.skip(at + part.len());
    assert(whole == before + part + behind);
    lemma_byte_len_add(before + part, behind);
    lemma_byte_len_add(before, part);
    if before.len() > 0 {
        assert(encode_utf8(before).len() > 0);
    } else {
        assert(behind.len() > 0) by {
            if behind.len() == 0 {
                assert(whole == part);
            }
        }
        assert(encode_utf8(behind).len() > 0);
    }
}

/// `c` as it stands in the text when the first `done` rules have been taken
/// back: the letter itself where one of them is for it, else its Latin token.
pub open spec fn piece(rules: Seq<Rule>, done: int, c: char) -> Seq<char> {
    if has_rule(rules.take(done), c) {
        seq![c]
    } else {
        latin_of_letter(rules, c)
    }
}

/// The spelling of `text` in which the first `done` rules have been taken
/// back.
pub open spec fn partly(rules: Seq<Rule>, done: int, text: Seq<char>) -> Seq<char>
    decreases text.len(),
{
    if text.len() == 0 {
        text
    } else {
        piece(rules, done, text[0]) + partly(rules, done, text.drop_first())
    }
}

/// Before any rule has been taken back, the text is spelled.
proof fn lemma_partly_none(rules: Seq<Rule>, text: Seq<char>)
    ensures
        partly(rules, 0, text) == spelled(rules, text),
    decreases text.len(),
{
    if text.len() > 0 {
        assert(rules.take(0).len() == 0);
        lemma_partly_none(rules, text.drop_first());
    }
}

/// When every rule has been taken back, the text is there again.
proof fn lemma_partly_all(rules: Seq<Rule>, text: Seq<char>)
    ensures
        partly(rules, rules.len() as int, text) == text,
    decreases text.len(),
{
    if text.len() > 0 {
        assert(rules.take(rules.len() as int) == rules);
        if !has_rule(rules, text[0]) {
            lemma_letter_without_rule(rules, text[0]);
        }
        lemma_partly_all(rules, text.drop_first());
        assert(seq![text[0]] + text.drop_first() == text);
    }
}

/// Where the text begins with characters of one Latin token, it begins with
/// them in its spelling too: none of them is a letter that was taken back.
proof fn lemma_same_beginning(
    rules: Seq<Rule>,
    done: int,
    text: Seq<char>,
    n: int,
    token: int,
)
    requires
        is_alphabet(rules),
        is_native(rules, text),
        0 <= done <= rules.len(),
        0 <= token < rules.len(),
        0 <= n <= partly(rules, done, text).len(),
        forall|k: int| 0 <= k < n ==> rules[token].1.contains(#[trigger] partly(rules, done, text)[k]),
    ensures
        n <= spelled(rules, text).len(),
        spelled(rules, text).take(n) == partly(rules, done, text).take(n),
    decreases text.len(),
{
    let here = partly(rules, done, text);
    if n == 0 {
        assert(spelled(rules, text).take(0) == here.take(0));
    } else {
        let c = text[0];
        let rest = text.drop_first();
        let first = piece(rules, done, c);
        let behind = partly(rules, done, rest);
        assert(rules[token].1.contains(here[0]));
        assert(is_native(rules, rest)) by {
            assert forall|k: int, j: int| 0 <= k < rest.len() && 0 <= j < rules.len() implies has_rule(
                rules,
                #[trigger] rest[k],
            ) || !(#[trigger] rules[j]).1.contains(rest[k]) by {
                assert(rest[k] == text[k + 1]);
            }
        }
        if has_rule(rules.take(done), c) {
            let i = choose|i: int|
                0 <= i < rules.take(done).len() && (#[trigger] rules.take(done)[i]).0 == seq![c];
            assert(rules.take(done)[i] == rules[i]);
            assert(rules[i].0[0] == c);
            assert(here[0] == c);
            assert(false);
        } else if !has_rule(rules, c) {
            lemma_letter_without_rule(rules, c);
            assert(here[0] == c);
            assert(text[0] == c);
            assert(false);
        } else {
            if n <= first.len() {
                assert(spelled(rules, text).take(n) == first.take(n));
                assert(here.take(n) == first.take(n));
            } else {
                let more = n - first.len();
                assert forall|k: int| 0 <= k < more implies rules[token].1.contains(
                    #[trigger] behind[k],
                ) by {
                    assert(behind[k] == here[first.len() + k]);
                }
                lemma_same_beginning(rules, done, rest, more, token);
                assert(spelled(rules, text).take(n) == first + spelled(rules, rest).take(more));
                assert(here.take(n) == first + behind.take(more));
            }
        }
    }
}

/// Taking back one rule: in the spelling in which the rules before rule
/// `done` have been taken back, replacing the Latin token of rule `done` by
/// its letter takes that rule back too.
proof fn lemma_take_back_one(rules: Seq<Rule>, done: int, text: Seq<char>)
    requires
        longest_first(rules),
        is_alphabet(rules),
        is_one_to_one(rules),
        0 <= done < rules.len(),
        is_native(rules, text),
        is_unambiguous(rules, text),
    ensures
        replaced(partly(rules, done, text), rules[done].1, rules[done].0) == partly(
            rules,
            done + 1,
            text,
        ),
    decreases text.len(),
{
    let pat = rules[done].1;
    let with = rules[done].0;
    if text.len() > 0 {
        let c = text[0];
        let rest = text.drop_first();
        let behind = partly(rules, done, rest);
        let here = partly(rules, done, text);
        assert(is_native(rules, rest)) by {
            assert forall|k: int, j: int| 0 <= k < rest.len() && 0 <= j < rules.len() implies has_rule(
                rules,
                #[trigger] rest[k],
            ) || !(#[trigger] rules[j]).1.contains(rest[k]) by {
                assert(rest[k] == text[k + 1]);
            }
        }
        lemma_take_back_one(rules, done, rest);
        let before = rules.take(done);
        let until = rules.take(done + 1);
        assert forall|i: int| 0 <= i < done implies (#[trigger] until[i]) == before[i] by {}
        if has_rule(before, c) {
            let i = choose|i: int| 0 <= i < before.len() && (#[trigger] before[i]).0 == seq![c];
            assert(before[i] == rules[i]);
            assert(until[i] == rules[i]);
            assert(has_rule(until, c));
            assert(rules[i].0[0] == c);
            assert(!pat.contains(c));
            lemma_replaced_splits(Seq::<char>::empty(), c, behind, pat, with);
            assert(Seq::<char>::empty() + seq![c] + behind == here);
            assert(replaced(Seq::<char>::empty(), pat, with) + seq![c] + replaced(
                behind,
                pat,
                with,
            ) == seq![c] + replaced(behind, pat, with));
        } else if !has_rule(rules, c) {
            lemma_letter_without_rule(rules, c);
            assert(!has_rule(until, c)) by {
                if has_rule(until, c) {
                    let i = choose|i: int|
                        0 <= i < until.len() && (#[trigger] until[i]).0 == seq![c];
                    assert(until[i] == rules[i]);
                }
            }
            assert(text[0] == c);
            assert(!pat.contains(c));
            lemma_replaced_splits(Seq::<char>::empty(), c, behind, pat, with);
            assert(Seq::<char>::empty() + seq![c] + behind == here);
            assert(replaced(Seq::<char>::empty(), pat, with) + seq![c] + replaced(
                behind,
                pat,
                with,
            ) == seq![c] + replaced(behind, pat, with));
        } else {
            let first = lemma_letter_with_rule(rules, c);
            let latin = latin_of_letter(rules, c);
            assert(first >= done) by {
                if first < done {
                    assert(before[first] == rules[first]);
                }
            }
            if latin == pat {
                assert(rules[first].0 == rules[done].0);
                assert(until[done] == rules[done]);
                assert(has_rule(until, c));
                lemma_replaced_match(behind, pat, with);
            } else {
                assert(with != seq![c]) by {
                    if with == seq![c] {
                        assert(rules[done].0 == rules[first].0);
                    }
                }
                assert(!has_rule(until, c)) by {
                    if has_rule(until, c) {
                        let i = choose|i: int|
                            0 <= i < until.len() && (#[trigger] until[i]).0 == seq![c];
                        assert(until[i] == rules[i]);
                        if i < done {
                            assert(before[i] == rules[i]);
                        }
                    }
                }
                assert forall|at: int| 0 <= at < latin.len() implies !occurs_at(
                    latin + behind,
                    pat,
                    at,
                ) by {
                    if occurs_at(latin + behind, pat, at) {
                        if at + pat.len() <= latin.len() {
                            assert((latin + behind).subrange(at, at + pat.len())
                                == latin.subrange(at, at + pat.len()));
                            lemma_part_is_shorter(latin, pat, at);
                            assert(byte_len(rules[done].1) >= byte_len(rules[first].1));
                        } else {
                            let more = at + pat.len() - latin.len();
                            assert forall|k: int| 0 <= k < more implies rules[done].1.contains(
                                #[trigger] behind[k],
                            ) by {
                                assert((latin + behind).subrange(at, at + pat.len())[latin.len()
                                    - at + k] == behind[k]);
                                assert(pat[latin.len() - at + k] == behind[k]);
                            }
                            lemma_same_beginning(rules, done, rest, more, done);
                            let tail = spelled(rules, rest);
                            assert(tail.take(more) == behind.take(more));
                            assert forall|i: int| 0 <= i < more implies #[trigger] tail[i]
                                == behind[i] by {
                                assert(tail.take(more)[i] == behind.take(more)[i]);
                            }
                            assert((latin + tail).subrange(at, at + pat.len()) =~= (latin
                                + behind).subrange(at, at + pat.len()));
                            assert(occurs_at(spelled(rules, text), rules[done].1, at));
                        }
                    }
                }
                lemma_replaced_skips(latin, behind, pat, with);
            }
        }
    }
}

/// Taking back the rules from rule `done` on, one after the other, brings
/// the text back.
proof fn lemma_take_back_rest(rules: Seq<Rule>, done: int, text: Seq<char>)
    requires
        longest_first(rules),
        is_alphabet(rules),
        is_one_to_one(rules),
        0 <= done <= rules.len(),
        is_native(rules, text),
        is_unambiguous(rules, text),
    ensures
        converted(rules.skip(done), partly(rules, done, text), true) == text,
    decreases rules.len() - done,
{
    if done == rules.len() {
        lemma_partly_all(rules, text);
    } else {
        assert(rules.skip(done)[0] == rules[done]);
        assert(rules.skip(done).drop_first() == rules.skip(done + 1));
        lemma_take_back_one(rules, done, text);
        lemma_take_back_rest(rules, done + 1, text);
    }
}

/// From the spelling of a text, the way back from Latin reads the text
/// again, where the table is an alphabet, is one to one and has its longest
/// Latin tokens first, and the text is native and unambiguous.
pub proof fn lemma_from_latin_reads(rules: Seq<Rule>, text: Seq<char>)
    requires
        longest_first(rules),
        is_alphabet(rules),
        is_one_to_one(rules),
        is_native(rules, text),
        is_unambiguous(rules, text),
    ensures
        converted(rules, spelled(rules, text), true) == text,
{
    lemma_partly_none(rules, text);
    lemma_take_back_rest(rules, 0, text);
    assert(rules.skip(0) == rules);
}

/// To Latin and back gives the text again, where the table is an alphabet,
/// is one to one and has its longest Latin tokens first, and the text is
/// native and unambiguous.
pub proof fn lemma_round_trip(rules: Seq<Rule>, text: Seq<char>)
    requires
        longest_first(rules),
        is_alphabet(rules),
        is_one_to_one(rules),
        is_native(rules, text),
        is_unambiguous(rules, text),
    ensures
        converted(rules, converted(rules, text, false), true) == text,
{
    lemma_to_latin_spells(rules, text);
    lemma_from_latin_reads(rules, text);
}

/// Two letters with the same Latin token do not both come back: the Latin
/// text of the one is that of the other, and the way back gives one text for
/// it.
pub proof fn lemma_shared_token_loses_letter(rules: Seq<Rule>, a: char, b: char)
    requires
        is_alphabet(rules),
        a != b,
        latin_of_letter(rules, a) == latin_of_letter(rules, b),
    ensures
        converted(rules, seq![a], false) == converted(rules, seq![b], false),
        converted(rules, converted(rules, seq![a], false), true) != seq![a] || converted(
            rules,
            converted(rules, seq![b], false),
            true,
        ) != seq![b],
{
    lemma_to_latin_spells(rules, seq![a]);
    lemma_to_latin_spells(rules, seq![b]);
    assert(seq![a].drop_first() == Seq::<char>::empty());
    assert(seq![b].drop_first() == Seq::<char>::empty());
    assert(spelled(rules, seq![a].drop_first()) == Seq::<char>::empty());
    assert(spelled(rules, seq![b].drop_first()) == Seq::<char>::empty());
    assert(spelled(rules, seq![a]) == latin_of_letter(rules, a) + Seq::<char>::empty());
    assert(spelled(rules, seq![b]) == latin_of_letter(rules, b) + Seq::<char>::empty());
    assert(seq![a][0] != seq![b][0]);
}

} // verus!
