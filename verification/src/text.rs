//! Text as a sequence of characters, and literal substring replacement on it.

use vstd::prelude::*;

verus! {

/// `pat` stands in `text` at position `at`.
pub open spec fn occurs_at(text: Seq<char>, pat: Seq<char>, at: int) -> bool {
    &&& 0 <= at
    &&& at + pat.len() <= text.len()
    &&& text.subrange(at, at + pat.len()) == pat
}

/// `pat` stands somewhere in `text`.
pub open spec fn occurs_in(text: Seq<char>, pat: Seq<char>) -> bool {
    exists|at: int| occurs_at(text, pat, at)
}

/// `pat` is found in `text`: it is not empty and stands somewhere in `text`.
pub open spec fn found_in(text: Seq<char>, pat: Seq<char>) -> bool {
    pat.len() > 0 && occurs_in(text, pat)
}

/// `text` with every occurrence of `pat` replaced by `with`.
///
/// Occurrences are found from left to right and do not overlap: after a match
/// the search goes on behind it, and what was put in is not searched again.
/// An empty `pat` matches nowhere.
pub open spec fn replaced(text: Seq<char>, pat: Seq<char>, with: Seq<char>) -> Seq<char>
    decreases text.len(),
{
    if pat.len() == 0 || text.len() < pat.len() {
        text
    } else if occurs_at(text, pat, 0) {
        with + replaced(text.skip(pat.len() as int), pat, with)
    } else {
        seq![text[0]] + replaced(text.skip(1), pat, with)
    }
}

/// Text in which `pat` is not found is left as it is.
pub proof fn lemma_replaced_without_match(text: Seq<char>, pat: Seq<char>, with: Seq<char>)
    requires
        !found_in(text, pat),
    ensures
        replaced(text, pat, with) == text,
    decreases text.len(),
{
    if pat.len() > 0 && text.len() >= pat.len() {
        let rest = text.skip(1);
        assert(!occurs_at(text, pat, 0));
        assert forall|at: int| !occurs_at(rest, pat, at) by {
            if occurs_at(rest, pat, at) {
                assert(rest.subrange(at, at + pat.len()) == text.subrange(
                    at + 1,
                    at + 1 + pat.len(),
                ));
                assert(occurs_at(text, pat, at + 1));
            }
        }
        lemma_replaced_without_match(rest, pat, with);
        assert(seq![text[0]] + rest == text);
    }
}

/// A character that `pat` does not hold parts the text in two: what stands
/// before it and what stands behind it are replaced apart, and the character
/// stays between them.
pub proof fn lemma_replaced_splits(
    before: Seq<char>,
    c: char,
    behind: Seq<char>,
    pat: Seq<char>,
    with: Seq<char>,
)
    requires
        !pat.contains(c),
    ensures
        replaced(before + seq![c] + behind, pat, with) == replaced(before, pat, with) + seq![c]
            + replaced(behind, pat, with),
    decreases before.len(),
{
    let text = before + seq![c] + behind;
    if pat.len() == 0 {
    } else if text.len() < pat.len() {
    } else if before.len() >= pat.len() {
        assert(text.subrange(0, pat.len() as int) == before.subrange(0, pat.len() as int));
        if occurs_at(text, pat, 0) {
            let rest = before.skip(pat.len() as int);
            assert(text.skip(pat.len() as int) == rest + seq![c] + behind);
            lemma_replaced_splits(rest, c, behind, pat, with);
            assert(with + (replaced(rest, pat, with) + seq![c] + replaced(behind, pat, with)) == (
            with + replaced(rest, pat, with)) + seq![c] + replaced(behind, pat, with));
        } else {
            let rest = before.skip(1);
            assert(text.skip(1) == rest + seq![c] + behind);
            lemma_replaced_splits(rest, c, behind, pat, with);
            assert(seq![text[0]] + (replaced(rest, pat, with) + seq![c] + replaced(
                behind,
                pat,
                with,
            )) == (seq![before[0]] + replaced(rest, pat, with)) + seq![c] + replaced(
                behind,
                pat,
                with,
            ));
        }
    } else {
        assert(!occurs_at(text, pat, 0)) by {
            if occurs_at(text, pat, 0) {
                assert(text.subrange(0, pat.len() as int)[before.len() as int] == c);
                assert(pat[before.len() as int] == c);
            }
        }
        if before.len() == 0 {
            assert(text.skip(1) == behind);
            assert(before + seq![c] == seq![text[0]]);
        } else {
            let rest = before.skip(1);
            assert(text.skip(1) == rest + seq![c] + behind);
            lemma_replaced_splits(rest, c, behind, pat, with);
            assert(seq![text[0]] + (rest + seq![c] + replaced(behind, pat, with)) == before
                + seq![c] + replaced(behind, pat, with));
        }
    }
}

/// Where no occurrence of `pat` begins within `head`, replacing leaves `head`
/// as it is and goes on behind it.
pub proof fn lemma_replaced_skips(
    head: Seq<char>,
    rest: Seq<char>,
    pat: Seq<char>,
    with: Seq<char>,
)
    requires
        forall|at: int| 0 <= at < head.len() ==> !occurs_at(head + rest, pat, at),
    ensures
        replaced(head + rest, pat, with) == head + replaced(rest, pat, with),
    decreases head.len(),
{
    let text = head + rest;
    if head.len() == 0 {
        assert(text == rest);
        assert(head + replaced(rest, pat, with) == replaced(rest, pat, with));
    } else if pat.len() == 0 {
    } else {
        let shorter = head.skip(1);
        assert(text.skip(1) == shorter + rest);
        assert forall|at: int| 0 <= at < shorter.len() implies !occurs_at(
            shorter + rest,
            pat,
            at,
        ) by {
            if occurs_at(shorter + rest, pat, at) {
                assert((shorter + rest).subrange(at, at + pat.len()) == text.subrange(
                    at + 1,
                    at + 1 + pat.len(),
                ));
                assert(occurs_at(text, pat, at + 1));
            }
        }
        lemma_replaced_skips(shorter, rest, pat, with);
        assert(!occurs_at(text, pat, 0));
        if text.len() < pat.len() {
            assert(replaced(rest, pat, with) == rest);
        } else {
            assert(seq![text[0]] + (shorter + replaced(rest, pat, with)) == head + replaced(
                rest,
                pat,
                with,
            ));
        }
    }
}

/// Text that begins with `pat` has it replaced, and replacing goes on behind
/// it.
pub proof fn lemma_replaced_match(rest: Seq<char>, pat: Seq<char>, with: Seq<char>)
    requires
        pat.len() > 0,
    ensures
        replaced(pat + rest, pat, with) == with + replaced(rest, pat, with),
{
    let text = pat + rest;
    assert(text.subrange(0, pat.len() as int) == pat);
    assert(text.skip(pat.len() as int) == rest);
}

/// `String::push` appends one character at the end of the string and leaves
/// the characters before it as they are.
pub assume_specification[ String::push ](s: &mut String, ch: char)
    ensures
        final(s)@ == old(s)@.push(ch),
;

/// The characters of `s`, in order.
pub fn chars_of(s: &str) -> (chars: Vec<char>)
    ensures
        chars@ == s@,
{
    let mut chars: Vec<char> = Vec::new();
    for c in it: s.chars()
        invariant
            it.seq() == s@,
            chars@ == s@.take(it.index() as int),
    {
        chars.push(c);
    }
    chars
}

/// The string made of `chars`, in order.
pub fn string_of(chars: &Vec<char>) -> (s: String)
    ensures
        s@ == chars@,
{
    let mut s = String::new();
    let mut i: usize = 0;
    while i < chars.len()
        invariant
            i <= chars.len(),
            s@ == chars@.take(i as int),
        decreases chars.len() - i,
    {
        s.push(chars[i]);
        i += 1;
    }
    s
}

/// Whether `pat` stands in `text` at position `at`.
pub fn matches_at(text: &Vec<char>, pat: &Vec<char>, at: usize) -> (found: bool)
    requires
        at <= text.len(),
    ensures
        found == occurs_at(text@, pat@, at as int),
{
    if pat.len() > text.len() - at {
        return false;
    }
    let mut k: usize = 0;
    while k < pat.len()
        invariant
            at + pat.len() <= text.len(),
            k <= pat.len(),
            text@.subrange(at as int, at + k) == pat@.take(k as int),
        decreases pat.len() - k,
    {
        if text[at + k] != pat[k] {
            assert(text@.subrange(at as int, at + pat.len())[k as int] != pat@[k as int]);
            return false;
        }
        k += 1;
    }
    assert(pat@.take(k as int) == pat@);
    true
}

/// Appends the characters of `more` to `out`.
pub fn push_all(out: &mut Vec<char>, more: &Vec<char>)
    ensures
        final(out)@ == old(out)@ + more@,
{
    let mut k: usize = 0;
    while k < more.len()
        invariant
            k <= more.len(),
            out@ == old(out)@ + more@.take(k as int),
        decreases more.len() - k,
    {
        out.push(more[k]);
        k += 1;
    }
}

/// Replaces every occurrence of `pat` in `text` by `with`, from left to right
/// and without overlap; an empty `pat` leaves `text` as it is.
pub fn replace_all(text: &Vec<char>, pat: &Vec<char>, with: &Vec<char>) -> (out: Vec<char>)
    ensures
        out@ == replaced(text@, pat@, with@),
{
    let mut out: Vec<char> = Vec::new();
    let mut i: usize = 0;
    assert(text@.skip(0) == text@);
    while i < text.len()
        invariant
            i <= text.len(),
            out@ + replaced(text@.skip(i as int), pat@, with@) =~= replaced(text@, pat@, with@),
        decreases text.len() - i,
    {
        let ghost rest = text@.skip(i as int);
        let ghost done = out@;
        assert(occurs_at(rest, pat@, 0) == occurs_at(text@, pat@, i as int)) by {
            if i + pat@.len() <= text@.len() {
                assert(rest.subrange(0, pat@.len() as int) == text@.subrange(
                    i as int,
                    i + pat@.len(),
                ));
            }
        }
        if pat.len() > 0 && matches_at(text, pat, i) {
            push_all(&mut out, with);
            i += pat.len();
            assert(rest.skip(pat@.len() as int) == text@.skip(i as int));
            assert(out@ + replaced(text@.skip(i as int), pat@, with@) == done + replaced(
                rest,
                pat@,
                with@,
            ));
        } else {
            out.push(text[i]);
            i += 1;
            assert(rest.skip(1) == text@.skip(i as int));
            assert(replaced(rest, pat@, with@) == seq![rest[0]] + replaced(
                rest.skip(1),
                pat@,
                with@,
            ));
            assert(out@ + replaced(text@.skip(i as int), pat@, with@) == done + replaced(
                rest,
                pat@,
                with@,
            ));
        }
    }
    assert(text@.skip(i as int).len() == 0);
    out
}

} // verus!
