//! What holds of texts: what trimming takes away, that splitting and joining undo
//! each other, and what a numeral says.

use vstd::prelude::*;

use crate::text;

verus! {

/// Whether a character is white space, by its number: the ASCII controls from tab to
/// carriage return and the space, next line, the no-break space, the Ogham space, the
/// spaces of U+2000 to U+200A, the line and the paragraph separator, the narrow
/// no-break space, the mathematical space and the ideographic space.
pub open spec fn is_space(c: char) -> bool {
    let n = c as u32;
    ||| 9 <= n <= 13
    ||| n == 32
    ||| n == 133
    ||| n == 160
    ||| n == 5760
    ||| 8192 <= n <= 8202
    ||| n == 8232
    ||| n == 8233
    ||| n == 8239
    ||| n == 8287
    ||| n == 12288
}

/// The white space characters are these and no others.
pub proof fn law_white_space(c: char)
    ensures
        text::spec_is_white_space(c) <==> is_space(c),
{
}

/// Whether every character of a text is white space.
pub open spec fn all_white(s: Seq<char>) -> bool {
    forall|i: int| 0 <= i < s.len() ==> is_space(#[trigger] s[i])
}

/// Whether a text neither starts nor ends with white space.
pub open spec fn has_firm_ends(s: Seq<char>) -> bool {
    s.len() == 0 || (!is_space(s[0]) && !is_space(s[s.len() - 1]))
}

proof fn lemma_trimmed_start_of_sum(before: Seq<char>, t: Seq<char>)
    requires
        all_white(before),
    ensures
        text::trimmed_start(before + t) == text::trimmed_start(t),
    decreases before.len(),
{
    if before.len() > 0 {
        let rest = before.skip(1);
        law_white_space(before[0]);
        assert forall|i: int| 0 <= i < rest.len() implies is_space(#[trigger] rest[i]) by {
            assert(rest[i] == before[i + 1]);
        }
        lemma_trimmed_start_of_sum(rest, t);
        assert((before + t)[0] == before[0]);
        assert((before + t).skip(1) == rest + t);
    } else {
        assert(before + t == t);
    }
}

proof fn lemma_trimmed_end_of_sum(t: Seq<char>, after: Seq<char>)
    requires
        all_white(after),
    ensures
        text::trimmed_end(t + after) == text::trimmed_end(t),
    decreases after.len(),
{
    if after.len() > 0 {
        let init = after.drop_last();
        law_white_space(after.last());
        assert forall|i: int| 0 <= i < init.len() implies is_space(#[trigger] init[i]) by {
            assert(init[i] == after[i]);
        }
        lemma_trimmed_end_of_sum(t, init);
        assert((t + after).last() == after[after.len() - 1]);
        assert((t + after).drop_last() == t + init);
    } else {
        assert(t + after == t);
    }
}

/// Trimming takes away the white space around a text, and nothing else.
pub proof fn law_trimming_takes_the_white_space_around(
    before: Seq<char>,
    t: Seq<char>,
    after: Seq<char>,
)
    requires
        all_white(before),
        has_firm_ends(t),
        all_white(after),
    ensures
        text::trimmed(before + t + after) == t,
{
    assert(before + t + after == before + (t + after));
    lemma_trimmed_start_of_sum(before, t + after);
    if t.len() > 0 {
        assert((t + after)[0] == t[0]);
        lemma_trimmed_end_of_sum(t, after);
        assert(t.last() == t[t.len() - 1]);
    } else {
        assert(t + after == after);
        let none = Seq::<char>::empty();
        lemma_trimmed_start_of_sum(after, none);
        assert(after + none == after);
        assert(text::trimmed_start(after) == none);
    }
}

/// Every text is some white space, a text with firm ends, and some white space.
pub proof fn law_trimming_splits_a_text(s: Seq<char>)
    ensures
        exists|before: Seq<char>, after: Seq<char>| #[trigger]
            all_white(before) && #[trigger] all_white(after) && s == before + text::trimmed(s)
                + after,
        has_firm_ends(text::trimmed(s)),
{
    let a = text::trimmed_start(s);
    let b = text::trimmed(s);
    let before = lemma_start_taken(s);
    let after = lemma_end_taken(a);
    text::law_trimming_is_idempotent(s);
    if b.len() > 0 {
        law_white_space(b[0]);
        law_white_space(b[b.len() - 1]);
    }
    assert(s == before + b + after);
    assert(all_white(before) && all_white(after));
}

proof fn lemma_start_taken(s: Seq<char>) -> (before: Seq<char>)
    ensures
        all_white(before),
        s == before + text::trimmed_start(s),
    decreases s.len(),
{
    if s.len() > 0 && text::spec_is_white_space(s[0]) {
        let rest = lemma_start_taken(s.skip(1));
        let before = seq![s[0]] + rest;
        assert(s == seq![s[0]] + s.skip(1));
        assert(s == before + text::trimmed_start(s));
        before
    } else {
        assert(s == Seq::<char>::empty() + s);
        Seq::empty()
    }
}

proof fn lemma_end_taken(s: Seq<char>) -> (after: Seq<char>)
    ensures
        all_white(after),
        s == text::trimmed_end(s) + after,
    decreases s.len(),
{
    if s.len() > 0 && text::spec_is_white_space(s.last()) {
        let rest = lemma_end_taken(s.drop_last());
        let after = rest.push(s.last());
        assert(s == s.drop_last().push(s.last()));
        assert(s == text::trimmed_end(s) + after);
        after
    } else {
        assert(s == s + Seq::<char>::empty());
        Seq::empty()
    }
}

// ---------------------------------------------------------------------------
// Splitting.
// ---------------------------------------------------------------------------

/// Pieces joined by a separator.
pub open spec fn joined_by(pieces: Seq<Seq<char>>, c: char) -> Seq<char>
    decreases pieces.len(),
{
    if pieces.len() == 0 {
        Seq::empty()
    } else if pieces.len() == 1 {
        pieces[0]
    } else {
        pieces[0].push(c) + joined_by(pieces.skip(1), c)
    }
}

/// Splitting gives back the pieces that were joined.
pub proof fn law_splitting_undoes_joining(pieces: Seq<Seq<char>>, c: char)
    requires
        pieces.len() > 0,
        forall|i: int, k: int|
            0 <= i < pieces.len() && 0 <= k < pieces[i].len() ==> #[trigger] pieces[i][k] != c,
    ensures
        text::split(joined_by(pieces, c), c) == pieces,
    decreases pieces.len(),
{
    let head = pieces[0];
    let s = joined_by(pieces, c);
    if pieces.len() == 1 {
        assert forall|j: int| 0 <= j < s.len() implies s[j] != c by {
            assert(pieces[0][j] != c);
        }
        text::lemma_first_index_is(s, c, s.len() as int);
        assert(seq![s] == pieces);
    } else {
        let rest = pieces.skip(1);
        assert forall|i: int, k: int| 0 <= i < rest.len() && 0 <= k < rest[i].len() implies
            #[trigger] rest[i][k] != c by {
            assert(pieces[i + 1][k] != c);
        }
        law_splitting_undoes_joining(rest, c);
        let n = head.len() as int;
        assert forall|j: int| 0 <= j < n implies s[j] != c by {
            assert(s[j] == pieces[0][j]);
        }
        assert(s[n] == c);
        text::lemma_first_index_is(s, c, n);
        assert(s.take(n) == head);
        assert(s.skip(n + 1) == joined_by(rest, c));
        assert(seq![head] + rest == pieces);
    }
}

/// Joining gives back the text that was split.
pub proof fn law_joining_undoes_splitting(s: Seq<char>, c: char)
    ensures
        joined_by(text::split(s, c), c) == s,
        text::split(s, c).len() > 0,
    decreases s.len(),
{
    let i = text::first_index(s, c) as int;
    let pieces = text::split(s, c);
    text::lemma_first_index(s, c);
    if i < s.len() {
        let rest = s.skip(i + 1);
        law_joining_undoes_splitting(rest, c);
        assert(pieces.skip(1) == text::split(rest, c));
        assert(pieces[0] == s.take(i));
        assert(s.take(i).push(c) + rest == s);
    }
}

/// A text is cut at the first separator: what stands before it holds none, and
/// what follows may hold more.
pub proof fn law_cut_at_the_first(before: Seq<char>, c: char, after: Seq<char>)
    requires
        forall|i: int| 0 <= i < before.len() ==> #[trigger] before[i] != c,
    ensures
        text::spec_split_once(before.push(c) + after, c) == Some((before, after)),
        text::spec_split_once(before, c) is None,
{
    let s = before.push(c) + after;
    let n = before.len() as int;
    assert forall|j: int| 0 <= j < n implies s[j] != c by {
        assert(s[j] == before[j]);
    }
    assert(s[n] == c);
    text::lemma_first_index_is(s, c, n);
    assert(s.take(n) == before);
    assert(s.skip(n + 1) == after);
    text::lemma_first_index_is(before, c, n);
}

/// A prefix is taken off, and a text that differs from it somewhere does not have
/// it.
pub proof fn law_prefix_is_taken_off(prefix: Seq<char>, rest: Seq<char>, s: Seq<char>)
    ensures
        text::spec_after_prefix(prefix + rest, prefix) == Some(rest),
        s.len() < prefix.len() ==> text::spec_after_prefix(s, prefix) is None,
        (exists|i: int| 0 <= i < prefix.len() && i < s.len() && #[trigger] s[i] != prefix[i])
            ==> text::spec_after_prefix(s, prefix) is None,
{
    assert(prefix.is_prefix_of(prefix + rest));
    assert((prefix + rest).skip(prefix.len() as int) == rest);
}

// ---------------------------------------------------------------------------
// Numerals.
// ---------------------------------------------------------------------------

/// The number that a sequence of decimal digits stands for.
pub open spec fn value_of(digits: Seq<char>) -> int
    decreases digits.len(),
{
    if digits.len() == 0 {
        0
    } else {
        10 * value_of(digits.drop_last()) + (digits.last() as u32 - '0' as u32)
    }
}

/// A numeral is decimal digits with the value of the number, and starts with a
/// zero only where it is the numeral of zero.
pub proof fn law_numeral_has_the_value(n: nat)
    ensures
        value_of(text::decimal(n)) == n,
        text::decimal(n).len() > 0,
        forall|i: int|
            0 <= i < text::decimal(n).len() ==> '0' <= #[trigger] text::decimal(n)[i] <= '9',
        n > 0 ==> text::decimal(n)[0] != '0',
        n == 0 ==> text::decimal(n).len() == 1,
    decreases n,
{
    let d = text::decimal(n);
    if n < 10 {
        assert(d.drop_last() == Seq::<char>::empty());
        assert(value_of(d.drop_last()) == 0);
        assert(d.last() as u32 == n + 48);
    } else {
        law_numeral_has_the_value(n / 10);
        assert(d.drop_last() == text::decimal(n / 10));
        assert(d.last() as u32 == n % 10 + 48);
        assert(d[0] == text::decimal(n / 10)[0]);
    }
}

} // verus!
