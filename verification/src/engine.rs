//! What a table makes of a text, and what holds of it for every table.

use crate::table::Rule;
use crate::text::{
    found_in, lemma_replaced_splits, lemma_replaced_without_match, occurs_at, replaced,
};
use vstd::prelude::*;

verus! {

/// The token that a rule looks for in the text: its source token or, with
/// `invert`, its Latin token.
pub open spec fn sought(rule: Rule, invert: bool) -> Seq<char> {
    if invert {
        rule.1
    } else {
        rule.0
    }
}

/// The token that a rule puts in place of the one it looks for.
pub open spec fn put(rule: Rule, invert: bool) -> Seq<char> {
    if invert {
        rule.0
    } else {
        rule.1
    }
}

/// What one rule makes of `text`: every occurrence of its source token
/// becomes its Latin token or, with `invert`, every occurrence of its Latin
/// token becomes its source token.
pub open spec fn applied(rule: Rule, text: Seq<char>, invert: bool) -> Seq<char> {
    replaced(text, sought(rule, invert), put(rule, invert))
}

/// What `rules` make of `text`: the rules are applied one after the other, in
/// their order, each to all of what the rules before it have left.
pub open spec fn converted(rules: Seq<Rule>, text: Seq<char>, invert: bool) -> Seq<char>
    decreases rules.len(),
{
    if rules.len() == 0 {
        text
    } else {
        converted(rules.drop_first(), applied(rules[0], text, invert), invert)
    }
}

/// Empty text stays empty, whatever the table and the direction.
pub proof fn lemma_converted_empty(rules: Seq<Rule>, invert: bool)
    ensures
        converted(rules, Seq::<char>::empty(), invert) == Seq::<char>::empty(),
    decreases rules.len(),
{
    if rules.len() > 0 {
        lemma_converted_empty(rules.drop_first(), invert);
    }
}

/// Text in which no rule finds its token comes out as it went in.
pub proof fn lemma_converted_unmatched(rules: Seq<Rule>, text: Seq<char>, invert: bool)
    requires
        forall|i: int| 0 <= i < rules.len() ==> !found_in(text, sought(#[trigger] rules[i], invert)),
    ensures
        converted(rules, text, invert) == text,
    decreases rules.len(),
{
    if rules.len() > 0 {
        let rest = rules.drop_first();
        lemma_replaced_without_match(text, sought(rules[0], invert), put(rules[0], invert));
        assert forall|i: int| 0 <= i < rest.len() implies !found_in(
            text,
            sought(#[trigger] rest[i], invert),
        ) by {
            assert(rest[i] == rules[i + 1]);
        }
        lemma_converted_unmatched(rest, text, invert);
    }
}

/// A character that no rule looks for stays where it is, and the text before
/// it and the text behind it are converted apart.
pub proof fn lemma_converted_splits(
    rules: Seq<Rule>,
    before: Seq<char>,
    c: char,
    behind: Seq<char>,
    invert: bool,
)
    requires
        forall|i: int| 0 <= i < rules.len() ==> !sought(#[trigger] rules[i], invert).contains(c),
    ensures
        converted(rules, before + seq![c] + behind, invert) == converted(rules, before, invert)
            + seq![c] + converted(rules, behind, invert),
    decreases rules.len(),
{
    if rules.len() > 0 {
        let rest = rules.drop_first();
        let pat = sought(rules[0], invert);
        let with = put(rules[0], invert);
        lemma_replaced_splits(before, c, behind, pat, with);
        assert forall|i: int| 0 <= i < rest.len() implies !sought(
            #[trigger] rest[i],
            invert,
        ).contains(c) by {
            assert(rest[i] == rules[i + 1]);
        }
        lemma_converted_splits(
            rest,
            replaced(before, pat, with),
            c,
            replaced(behind, pat, with),
            invert,
        );
    }
}

/// Text made of characters that no rule looks for comes out as it went in.
pub proof fn lemma_converted_foreign(rules: Seq<Rule>, text: Seq<char>, invert: bool)
    requires
        forall|i: int, k: int|
            0 <= i < rules.len() && 0 <= k < text.len() ==> !sought(
                #[trigger] rules[i],
                invert,
            ).contains(#[trigger] text[k]),
    ensures
        converted(rules, text, invert) == text,
{
    assert forall|i: int| 0 <= i < rules.len() implies !found_in(
        text,
        sought(#[trigger] rules[i], invert),
    ) by {
        let pat = sought(rules[i], invert);
        if found_in(text, pat) {
            let at = choose|at: int| occurs_at(text, pat, at);
            assert(text.subrange(at, at + pat.len())[0] == text[at]);
            assert(pat[0] == text[at]);
        }
    }
    lemma_converted_unmatched(rules, text, invert);
}

} // verus!
