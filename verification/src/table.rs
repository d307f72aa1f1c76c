//! Substitution rules, and the order in which a table applies them.
//!
//! A table is applied rule by rule, so a rule whose Latin token is part of
//! another rule's Latin token must come after that rule. Tables are therefore
//! kept with the longest Latin tokens first, and rules whose Latin tokens are
//! equally long stay in the order in which the caller wrote them.

use crate::CharsMapping;
use std::cmp::Ordering;
use vstd::prelude::*;
use vstd::utf8::encode_utf8;

verus! {

/// One rule as text: the token of the source script, then its Latin token.
pub type Rule = (Seq<char>, Seq<char>);

/// The number of bytes that `token` takes in UTF-8.
pub open spec fn byte_len(token: Seq<char>) -> nat {
    encode_utf8(token).len()
}

/// The rules that the rows of a table stand for, in the table's order.
pub open spec fn rules_of(rows: Seq<(&'static str, &'static str)>) -> Seq<Rule> {
    rows.map_values(|row: (&'static str, &'static str)| (row.0@, row.1@))
}

/// No rule stands behind a rule with a shorter Latin token.
pub open spec fn longest_first(rules: Seq<Rule>) -> bool {
    forall|i: int, j: int|
        0 <= i <= j < rules.len() ==> byte_len(#[trigger] rules[i].1) >= byte_len(
            #[trigger] rules[j].1,
        )
}

/// The rules whose Latin token takes exactly `n` bytes, in the order in which
/// `rules` holds them.
pub open spec fn of_len(rules: Seq<Rule>, n: nat) -> Seq<Rule>
    decreases rules.len(),
{
    if rules.len() == 0 {
        rules
    } else if byte_len(rules.last().1) == n {
        of_len(rules.drop_last(), n).push(rules.last())
    } else {
        of_len(rules.drop_last(), n)
    }
}

/// `arranged` holds the rules of `given` with the longest Latin tokens first,
/// and the rules with equally long Latin tokens in the order of `given`.
pub open spec fn is_arrangement(given: Seq<Rule>, arranged: Seq<Rule>) -> bool {
    &&& longest_first(arranged)
    &&& forall|n: nat| #[trigger] of_len(arranged, n) == of_len(given, n)
}

/// Grouping by length goes through concatenation.
pub proof fn lemma_of_len_add(a: Seq<Rule>, b: Seq<Rule>, n: nat)
    ensures
        of_len(a + b, n) == of_len(a, n) + of_len(b, n),
    decreases b.len(),
{
    if b.len() == 0 {
        assert(a + b == a);
        assert(of_len(a, n) + of_len(b, n) == of_len(a, n));
    } else {
        assert((a + b).drop_last() == a + b.drop_last());
        lemma_of_len_add(a, b.drop_last(), n);
        if byte_len(b.last().1) == n {
            assert(of_len(a + b, n) == (of_len(a, n) + of_len(b.drop_last(), n)).push(b.last()));
            assert(of_len(a + b, n) == of_len(a, n) + of_len(b, n));
        }
    }
}

/// Every rule of a group is a rule of the sequence, with a Latin token of the
/// group's length.
pub proof fn lemma_of_len_members(rules: Seq<Rule>, n: nat, k: int)
    requires
        0 <= k < of_len(rules, n).len(),
    ensures
        byte_len(of_len(rules, n)[k].1) == n,
        rules.contains(of_len(rules, n)[k]),
    decreases rules.len(),
{
    if rules.len() > 0 {
        let front = of_len(rules.drop_last(), n);
        if k < front.len() {
            lemma_of_len_members(rules.drop_last(), n, k);
            let i = choose|i: int| 0 <= i < rules.drop_last().len() && rules.drop_last()[i] == front[k];
            assert(rules[i] == front[k]);
        } else {
            assert(rules[rules.len() - 1] == rules.last());
        }
    }
}

/// Every rule of a sequence is in the group for the length of its Latin
/// token.
pub proof fn lemma_of_len_holds(rules: Seq<Rule>, i: int)
    requires
        0 <= i < rules.len(),
    ensures
        of_len(rules, byte_len(rules[i].1)).contains(rules[i]),
    decreases rules.len(),
{
    let n = byte_len(rules[i].1);
    let group = of_len(rules, n);
    if i == rules.len() - 1 {
        assert(group[group.len() - 1] == rules[i]);
    } else {
        let front = rules.drop_last();
        assert(front[i] == rules[i]);
        lemma_of_len_holds(front, i);
        let k = choose|k: int| 0 <= k < of_len(front, n).len() && of_len(front, n)[k] == rules[i];
        assert(group[k] == rules[i]);
    }
}

/// Every rule of an arrangement is one of the rules given.
pub proof fn lemma_arrangement_members(given: Seq<Rule>, arranged: Seq<Rule>, i: int)
    requires
        is_arrangement(given, arranged),
        0 <= i < arranged.len(),
    ensures
        given.contains(arranged[i]),
{
    let n = byte_len(arranged[i].1);
    lemma_of_len_holds(arranged, i);
    assert(of_len(arranged, n) == of_len(given, n));
    let k = choose|k: int| 0 <= k < of_len(given, n).len() && of_len(given, n)[k] == arranged[i];
    lemma_of_len_members(given, n, k);
}

/// A sequence without a Latin token of `n` bytes has an empty group for `n`.
pub proof fn lemma_of_len_none(rules: Seq<Rule>, n: nat)
    requires
        forall|i: int| 0 <= i < rules.len() ==> byte_len(#[trigger] rules[i].1) != n,
    ensures
        of_len(rules, n).len() == 0,
{
    if of_len(rules, n).len() > 0 {
        lemma_of_len_members(rules, n, 0);
    }
}

/// Putting a rule behind all rules whose Latin token is at least as long as
/// its own, and before all others, arranges the rules given so far and the new
/// one.
pub proof fn lemma_insert_arranges(given: Seq<Rule>, arranged: Seq<Rule>, rule: Rule, at: int)
    requires
        is_arrangement(given, arranged),
        0 <= at <= arranged.len(),
        forall|k: int| 0 <= k < at ==> byte_len(#[trigger] arranged[k].1) >= byte_len(rule.1),
        at < arranged.len() ==> byte_len(arranged[at].1) < byte_len(rule.1),
    ensures
        is_arrangement(given.push(rule), arranged.insert(at, rule)),
{
    let next = arranged.insert(at, rule);
    let head = arranged.subrange(0, at);
    let tail = arranged.subrange(at, arranged.len() as int);
    assert(next == head + seq![rule] + tail);
    assert(arranged == head + tail);
    assert forall|k: int| 0 <= k < tail.len() implies byte_len(#[trigger] tail[k].1) < byte_len(
        rule.1,
    ) by {
        assert(byte_len(arranged[at].1) >= byte_len(arranged[at + k].1));
    }
    assert(longest_first(next)) by {
        assert forall|i: int, j: int| 0 <= i <= j < next.len() implies byte_len(
            #[trigger] next[i].1,
        ) >= byte_len(#[trigger] next[j].1) by {
            let from_i = if i < at { i } else { i - 1 };
            let from_j = if j < at { j } else { j - 1 };
            if i != at && j != at {
                assert(next[i] == arranged[from_i] && next[j] == arranged[from_j]);
            } else if i == at && j != at {
                assert(next[j] == tail[j - at - 1]);
            } else if j == at && i != at {
                assert(next[i] == arranged[i]);
            }
        }
    }
    assert forall|n: nat| #[trigger] of_len(next, n) == of_len(given.push(rule), n) by {
        assert(given.push(rule).drop_last() == given);
        assert(of_len(arranged, n) == of_len(given, n));
        lemma_of_len_add(head, tail, n);
        lemma_of_len_add(head + seq![rule], tail, n);
        lemma_of_len_add(head, seq![rule], n);
        assert(seq![rule].drop_last() == Seq::<Rule>::empty());
        assert(of_len(seq![rule].drop_last(), n) == Seq::<Rule>::empty());
        assert(seq![rule].last() == rule);
        if byte_len(rule.1) == n {
            lemma_of_len_none(tail, n);
            assert(of_len(seq![rule], n) == Seq::<Rule>::empty().push(rule));
            assert(of_len(seq![rule], n) == seq![rule]);
            assert(of_len(next, n) == of_len(head, n).push(rule));
            assert(of_len(arranged, n) == of_len(head, n));
        } else {
            assert(of_len(seq![rule], n) == Seq::<Rule>::empty());
            assert(of_len(next, n) == of_len(head, n) + of_len(tail, n));
        }
    }
}

/// A table that arranges itself and one more rule also arranges the rules it
/// was made from and that rule.
pub proof fn lemma_arrangement_grows(
    given: Seq<Rule>,
    arranged: Seq<Rule>,
    rule: Rule,
    next: Seq<Rule>,
)
    requires
        is_arrangement(given, arranged),
        is_arrangement(arranged.push(rule), next),
    ensures
        is_arrangement(given.push(rule), next),
{
    assert forall|n: nat| #[trigger] of_len(next, n) == of_len(given.push(rule), n) by {
        assert(of_len(next, n) == of_len(arranged.push(rule), n));
        assert(of_len(arranged, n) == of_len(given, n));
        assert(given.push(rule).drop_last() == given);
        assert(arranged.push(rule).drop_last() == arranged);
    }
}

/// Two arrangements of the same rules are the same sequence: the order of a
/// table is fixed by the rules as given.
pub proof fn lemma_arrangement_unique(given: Seq<Rule>, first: Seq<Rule>, second: Seq<Rule>)
    requires
        is_arrangement(given, first),
        is_arrangement(given, second),
    ensures
        first == second,
{
    assert forall|n: nat| #[trigger] of_len(first, n) == of_len(second, n) by {
        assert(of_len(first, n) == of_len(given, n));
        assert(of_len(second, n) == of_len(given, n));
    }
    lemma_same_groups(first, second);
}

/// Two sequences with the longest Latin tokens first and the same group for
/// every length are equal.
pub proof fn lemma_same_groups(first: Seq<Rule>, second: Seq<Rule>)
    requires
        longest_first(first),
        longest_first(second),
        forall|n: nat| #[trigger] of_len(first, n) == of_len(second, n),
    ensures
        first == second,
    decreases first.len() + second.len(),
{
    if first.len() == 0 && second.len() == 0 {
        assert(first == second);
    } else if first.len() == 0 {
        let m = byte_len(second.last().1);
        assert(of_len(first, m) == of_len(second, m));
    } else if second.len() == 0 {
        let m = byte_len(first.last().1);
        assert(of_len(first, m) == of_len(second, m));
    } else {
        let m1 = byte_len(first.last().1);
        let m2 = byte_len(second.last().1);
        assert(m1 == m2) by {
            assert(of_len(first, m1) == of_len(second, m1));
            lemma_of_len_members(second, m1, 0);
            let i = choose|i: int| 0 <= i < second.len() && second[i] == of_len(second, m1)[0];
            assert(byte_len(second[i].1) >= byte_len(second[second.len() - 1].1));
            assert(of_len(first, m2) == of_len(second, m2));
            lemma_of_len_members(first, m2, 0);
            let j = choose|j: int| 0 <= j < first.len() && first[j] == of_len(first, m2)[0];
            assert(byte_len(first[j].1) >= byte_len(first[first.len() - 1].1));
        }
        let a = first.drop_last();
        let b = second.drop_last();
        assert(of_len(first, m1) == of_len(second, m1));
        assert(of_len(first, m1).last() == first.last());
        assert(of_len(second, m1).last() == second.last());
        assert forall|n: nat| #[trigger] of_len(a, n) == of_len(b, n) by {
            assert(of_len(first, n) == of_len(second, n));
            if n == m1 {
                assert(of_len(a, n) == of_len(first, n).drop_last());
                assert(of_len(b, n) == of_len(second, n).drop_last());
            }
        }
        assert(longest_first(a)) by {
            assert forall|i: int, j: int| 0 <= i <= j < a.len() implies byte_len(
                #[trigger] a[i].1,
            ) >= byte_len(#[trigger] a[j].1) by {
                assert(a[i] == first[i] && a[j] == first[j]);
            }
        }
        assert(longest_first(b)) by {
            assert forall|i: int, j: int| 0 <= i <= j < b.len() implies byte_len(
                #[trigger] b[i].1,
            ) >= byte_len(#[trigger] b[j].1) by {
                assert(b[i] == second[i] && b[j] == second[j]);
            }
        }
        lemma_same_groups(a, b);
        assert(first == a.push(first.last()));
        assert(second == b.push(second.last()));
    }
}

/// The table that holds `rows`, in their order.
pub fn table_of<const N: usize>(rows: &[(&'static str, &'static str); N]) -> (table: CharsMapping)
    ensures
        table@ == rows@,
{
    let mut table: CharsMapping = Vec::new();
    let mut i: usize = 0;
    while i < N
        invariant
            i <= N,
            rows@.len() == N,
            table@ == rows@.take(i as int),
        decreases N - i,
    {
        table.push(rows[i]);
        i += 1;
    }
    table
}

/// Compares two tokens by their length in bytes, and by nothing else: tokens
/// of the same length are equal, whatever they hold.
pub fn compare_len(left: &str, right: &str) -> (order: Ordering)
    ensures
        match order {
            Ordering::Equal => byte_len(left@) == byte_len(right@),
            Ordering::Greater => byte_len(left@) > byte_len(right@),
            Ordering::Less => byte_len(left@) < byte_len(right@),
        },
{
    let l = left.as_bytes().len();
    let r = right.as_bytes().len();
    if l == r {
        Ordering::Equal
    } else if l > r {
        Ordering::Greater
    } else {
        Ordering::Less
    }
}

/// Whether `left` takes more bytes than `right`.
pub fn is_longer(left: &str, right: &str) -> (longer: bool)
    ensures
        longer == (byte_len(left@) > byte_len(right@)),
{
    match compare_len(left, right) {
        Ordering::Greater => true,
        _ => false,
    }
}

/// Puts `row` into a table that has its longest Latin tokens first: behind
/// every row whose Latin token is at least as long as that of `row`, and
/// before the first row whose Latin token is shorter.
pub fn insert_row(table: &mut CharsMapping, row: (&'static str, &'static str))
    requires
        longest_first(rules_of(old(table)@)),
    ensures
        is_arrangement(rules_of(old(table)@).push((row.0@, row.1@)), rules_of(final(table)@)),
        final(table)@.len() == old(table)@.len() + 1,
{
    let mut at: usize = 0;
    while at < table.len()
        invariant
            at <= table.len(),
            forall|k: int|
                0 <= k < at ==> byte_len(#[trigger] rules_of(table@)[k].1) >= byte_len(row.1@),
        ensures
            at <= table.len(),
            forall|k: int|
                0 <= k < at ==> byte_len(#[trigger] rules_of(table@)[k].1) >= byte_len(row.1@),
            at < table.len() ==> byte_len(rules_of(table@)[at as int].1) < byte_len(row.1@),
        decreases table.len() - at,
    {
        if is_longer(row.1, table[at].1) {
            break ;
        }
        at += 1;
    }
    let ghost before = rules_of(table@);
    table.insert(at, row);
    proof {
        let rule = (row.0@, row.1@);
        assert(rules_of(table@) == before.insert(at as int, rule));
        lemma_insert_arranges(before, before, rule, at as int);
    }
}

} // verus!
