//! Strings as sequences of characters: equality, prefixes, trimming,
//! splitting, decimal numerals.
//!
//! Every function here is stated over `Seq<char>`, the view of a string.

use vstd::prelude::*;
use vstd::string::*;
use vstd::utf8::*;

verus! {

/// `String::push`: appends one character.
pub assume_specification[ String::push ](s: &mut String, c: char)
    ensures
        final(s)@ == old(s)@.push(c),
;

/// Whether two strings hold the same characters.
pub fn same_text(a: &str, b: &str) -> (same: bool)
    ensures
        same == (a@ == b@),
{
    let x: &[u8] = a.as_bytes();
    let y: &[u8] = b.as_bytes();
    proof {
        broadcast use encode_utf8_decode_utf8;

        assert(decode_utf8(encode_utf8(a@)) == a@);
        assert(decode_utf8(encode_utf8(b@)) == b@);
    }
    if x.len() != y.len() {
        return false;
    }
    let mut i: usize = 0;
    while i < x.len()
        invariant
            i <= x.len(),
            x.len() == y.len(),
            x@ == a.spec_bytes(),
            y@ == b.spec_bytes(),
            x@.take(i as int) == y@.take(i as int),
        decreases x.len() - i,
    {
        if x[i] != y[i] {
            return false;
        }
        assert(x@.take(i + 1) == x@.take(i as int).push(x@[i as int]));
        assert(y@.take(i + 1) == y@.take(i as int).push(y@[i as int]));
        i += 1;
    }
    assert(x@ == x@.take(i as int));
    assert(y@ == y@.take(i as int));
    true
}

/// The characters of a string.
pub fn chars_of(s: &str) -> (chars: Vec<char>)
    ensures
        chars@ == s@,
{
    let mut chars: Vec<char> = Vec::new();
    for c in it: s.chars()
        invariant
            it.seq() == s@,
            chars@ == s@.take(it.index()),
    {
        chars.push(c);
    }
    assert(s@.take(s@.len() as int) == s@);
    chars
}

/// The string of the characters `chars[from..to]`.
pub fn string_of(chars: &Vec<char>, from: usize, to: usize) -> (s: String)
    requires
        from <= to <= chars@.len(),
    ensures
        s@ == chars@.subrange(from as int, to as int),
{
    let mut s: String = String::new();
    let mut i: usize = from;
    while i < to
        invariant
            from <= i <= to <= chars@.len(),
            s@ == chars@.subrange(from as int, i as int),
        decreases to - i,
    {
        s.push(chars[i]);
        i += 1;
        assert(s@ == chars@.subrange(from as int, i as int));
    }
    s
}

/// The concatenation of two strings.
pub fn joined(a: &str, b: &str) -> (s: String)
    ensures
        s@ == a@ + b@,
{
    a.to_owned().concat(b)
}

/// Whether `s` starts with `prefix`.
pub fn has_prefix(s: &str, prefix: &str) -> (found: bool)
    ensures
        found == prefix@.is_prefix_of(s@),
{
    let n: usize = prefix.unicode_len();
    if s.unicode_len() < n {
        return false;
    }
    same_text(s.substring_char(0, n), prefix)
}

/// What follows `prefix` in `s`, if `s` starts with it.
pub open spec fn spec_after_prefix(s: Seq<char>, prefix: Seq<char>) -> Option<Seq<char>> {
    if prefix.is_prefix_of(s) {
        Some(s.skip(prefix.len() as int))
    } else {
        None
    }
}

/// The view of an optional string.
pub open spec fn opt_str_view(s: Option<&str>) -> Option<Seq<char>> {
    match s {
        Some(s) => Some(s@),
        None => None,
    }
}

/// The view of an optional owned string.
pub open spec fn opt_string_view(s: Option<String>) -> Option<Seq<char>> {
    match s {
        Some(s) => Some(s@),
        None => None,
    }
}

/// What follows `prefix` in `s`, if `s` starts with it.
pub fn after_prefix<'a>(s: &'a str, prefix: &str) -> (rest: Option<&'a str>)
    ensures
        opt_str_view(rest) == spec_after_prefix(s@, prefix@),
{
    if has_prefix(s, prefix) {
        Some(s.substring_char(prefix.unicode_len(), s.unicode_len()))
    } else {
        None
    }
}

/// Whether a character has the Unicode property `White_Space`.
pub open spec fn spec_is_white_space(c: char) -> bool {
    ||| '\u{9}' <= c <= '\u{d}'
    ||| c == ' '
    ||| c == '\u{85}'
    ||| c == '\u{a0}'
    ||| c == '\u{1680}'
    ||| '\u{2000}' <= c <= '\u{200a}'
    ||| c == '\u{2028}'
    ||| c == '\u{2029}'
    ||| c == '\u{202f}'
    ||| c == '\u{205f}'
    ||| c == '\u{3000}'
}

/// Whether a character has the Unicode property `White_Space`.
pub fn is_white_space(c: char) -> (white: bool)
    ensures
        white == spec_is_white_space(c),
{
    ('\u{9}' <= c && c <= '\u{d}') || c == ' ' || c == '\u{85}' || c == '\u{a0}' || c == '\u{1680}'
        || ('\u{2000}' <= c && c <= '\u{200a}') || c == '\u{2028}' || c == '\u{2029}' || c
        == '\u{202f}' || c == '\u{205f}' || c == '\u{3000}'
}

/// `s` without its leading white space.
pub open spec fn trimmed_start(s: Seq<char>) -> Seq<char>
    decreases s.len(),
{
    if s.len() > 0 && spec_is_white_space(s[0]) {
        trimmed_start(s.skip(1))
    } else {
        s
    }
}

/// `s` without its trailing white space.
pub open spec fn trimmed_end(s: Seq<char>) -> Seq<char>
    decreases s.len(),
{
    if s.len() > 0 && spec_is_white_space(s.last()) {
        trimmed_end(s.drop_last())
    } else {
        s
    }
}

/// `s` without its leading and trailing white space.
pub open spec fn trimmed(s: Seq<char>) -> Seq<char> {
    trimmed_end(trimmed_start(s))
}

/// White space around a text is gone after trimming, so that trimming again
/// changes nothing.
pub proof fn law_trimming_is_idempotent(s: Seq<char>)
    ensures
        trimmed(trimmed(s)) == trimmed(s),
        trimmed(s).len() > 0 ==> !spec_is_white_space(trimmed(s)[0])
            && !spec_is_white_space(trimmed(s).last()),
{
    let a = trimmed_start(s);
    lemma_trimmed_start(s);
    lemma_trimmed_end(a);
    let b = trimmed(s);
    if b.len() > 0 {
        assert(b[0] == a[0]);
    }
}

proof fn lemma_trimmed_start(s: Seq<char>)
    ensures
        trimmed_start(s).len() > 0 ==> !spec_is_white_space(
            trimmed_start(s)[0],
        ),
    decreases s.len(),
{
    if s.len() > 0 && spec_is_white_space(s[0]) {
        lemma_trimmed_start(s.skip(1));
    }
}

proof fn lemma_trimmed_end(s: Seq<char>)
    ensures
        trimmed_end(s).is_prefix_of(s),
        trimmed_end(s).len() > 0 ==> !spec_is_white_space(
            trimmed_end(s).last(),
        ),
    decreases s.len(),
{
    if s.len() > 0 && spec_is_white_space(s.last()) {
        lemma_trimmed_end(s.drop_last());
    }
}

/// `s` without its leading and trailing white space.
pub fn trim<'a>(s: &'a str) -> (t: &'a str)
    ensures
        t@ == trimmed(s@),
{
    let chars: Vec<char> = chars_of(s);
    let n: usize = chars.len();
    let mut from: usize = 0;
    assert(s@.skip(0) == s@);
    while from < n && is_white_space(chars[from])
        invariant
            from <= n == chars@.len(),
            chars@ == s@,
            trimmed_start(s@.skip(from as int)) == trimmed_start(s@),
        decreases n - from,
    {
        assert(s@.skip(from as int).skip(1) == s@.skip(from + 1));
        from += 1;
    }
    assert(trimmed_start(s@) == s@.skip(from as int));
    let mut to: usize = n;
    assert(s@.subrange(from as int, n as int) == s@.skip(from as int));
    while from < to && is_white_space(chars[to - 1])
        invariant
            from <= to <= n == chars@.len(),
            chars@ == s@,
            trimmed_end(s@.subrange(from as int, to as int)) == trimmed(s@),
        decreases to - from,
    {
        assert(s@.subrange(from as int, to as int).drop_last() == s@.subrange(
            from as int,
            to - 1,
        ));
        assert(s@.subrange(from as int, to as int).last() == s@[to - 1]);
        to -= 1;
    }
    if from < to {
        assert(s@.subrange(from as int, to as int).last() == s@[to - 1]);
    }
    s.substring_char(from, to)
}

/// The decimal digit `0 <= d < 10`.
pub open spec fn digit_char(d: nat) -> char {
    (d + 48) as char
}

/// The decimal numeral of `n`, without leading zeros.
pub open spec fn decimal(n: nat) -> Seq<char>
    decreases n,
{
    if n < 10 {
        seq![digit_char(n)]
    } else {
        decimal(n / 10).push(digit_char(n % 10))
    }
}

/// The decimal numeral of `n`.
pub fn decimal_string(n: u32) -> (s: String)
    ensures
        s@ == decimal(n as nat),
    decreases n,
{
    let digit: char = (48 + (n % 10) as u8) as char;
    if n < 10 {
        let mut s: String = String::new();
        s.push(digit);
        assert(s@ == decimal(n as nat));
        s
    } else {
        let mut s: String = decimal_string(n / 10);
        s.push(digit);
        s
    }
}

/// Two numbers with the same numeral are the same.
pub proof fn lemma_decimal_injective(m: nat, n: nat)
    requires
        decimal(m) == decimal(n),
    ensures
        m == n,
    decreases m,
{
    assert(decimal(m).len() >= 1 && decimal(n).len() >= 1);
    assert(decimal(m).last() == digit_char(m % 10));
    assert(decimal(n).last() == digit_char(n % 10));
    assert(m % 10 + 48 == (m % 10 + 48) as char as int);
    assert(n % 10 + 48 == (n % 10 + 48) as char as int);
    if m >= 10 && n >= 10 {
        assert(decimal(m / 10) == decimal(m).drop_last());
        assert(decimal(n / 10) == decimal(n).drop_last());
        lemma_decimal_injective(m / 10, n / 10);
    } else if m >= 10 {
        assert(decimal(m / 10).len() >= 1);
        assert(decimal(m).len() > decimal(n).len());
    } else if n >= 10 {
        assert(decimal(n / 10).len() >= 1);
        assert(decimal(n).len() > decimal(m).len());
    }
}

/// The position of the first `c` in `s`, or the length of `s`.
pub open spec fn first_index(s: Seq<char>, c: char) -> nat
    decreases s.len(),
{
    if s.len() == 0 || s[0] == c {
        0
    } else {
        1 + first_index(s.skip(1), c)
    }
}

/// `first_index` is the least position that holds `c`.
pub proof fn lemma_first_index(s: Seq<char>, c: char)
    ensures
        first_index(s, c) <= s.len(),
        first_index(s, c) < s.len() ==> s[first_index(s, c) as int] == c,
        forall|j: int| 0 <= j < first_index(s, c) ==> s[j] != c,
    decreases s.len(),
{
    if s.len() > 0 && s[0] != c {
        lemma_first_index(s.skip(1), c);
        assert forall|j: int| 0 <= j < first_index(s, c) implies s[j] != c by {
            if j > 0 {
                assert(s[j] == s.skip(1)[j - 1]);
            }
        }
    }
}

/// A position that holds `c` with none before it is `first_index`.
pub proof fn lemma_first_index_is(s: Seq<char>, c: char, i: int)
    requires
        0 <= i <= s.len(),
        i < s.len() ==> s[i] == c,
        forall|j: int| 0 <= j < i ==> s[j] != c,
    ensures
        first_index(s, c) == i,
{
    lemma_first_index(s, c);
}

/// The pieces of `s` between the occurrences of `c`; one more than there are
/// occurrences.
pub open spec fn split(s: Seq<char>, c: char) -> Seq<Seq<char>>
    decreases s.len(),
{
    let i = first_index(s, c) as int;
    if i < s.len() {
        seq![s.take(i)] + split(s.skip(i + 1), c)
    } else {
        seq![s]
    }
}

/// What stands before and after the first `c` in `s`, if there is one.
pub open spec fn spec_split_once(s: Seq<char>, c: char) -> Option<(Seq<char>, Seq<char>)> {
    let i = first_index(s, c) as int;
    if i < s.len() {
        Some((s.take(i), s.skip(i + 1)))
    } else {
        None
    }
}

/// The views of a list of strings.
pub open spec fn views(strings: Seq<String>) -> Seq<Seq<char>> {
    strings.map_values(|s: String| s@)
}

/// The position of the first `c` in `chars[from..]`, or the length of `chars`.
pub fn find_char(chars: &Vec<char>, c: char, from: usize) -> (at: usize)
    requires
        from <= chars@.len(),
    ensures
        at == from + first_index(chars@.skip(from as int), c),
        from <= at <= chars@.len(),
        at < chars@.len() ==> chars@[at as int] == c,
{
    let mut at: usize = from;
    while at < chars.len() && chars[at] != c
        invariant
            from <= at <= chars@.len(),
            forall|j: int| from <= j < at ==> chars@[j] != c,
        decreases chars@.len() - at,
    {
        at += 1;
    }
    proof {
        lemma_first_index_is(chars@.skip(from as int), c, at - from);
    }
    at
}

/// The pieces of `s` between the occurrences of `c`.
pub fn split_string(s: &str, c: char) -> (pieces: Vec<String>)
    ensures
        views(pieces@) == split(s@, c),
{
    let chars: Vec<char> = chars_of(s);
    let mut pieces: Vec<String> = Vec::new();
    let mut from: usize = 0;
    assert(s@.skip(0) == s@);
    assert(views(pieces@) + split(s@, c) == split(s@, c));
    loop
        invariant
            chars@ == s@,
            from <= chars@.len(),
            views(pieces@) + split(s@.skip(from as int), c) == split(s@, c),
        decreases chars@.len() - from,
    {
        let at: usize = find_char(&chars, c, from);
        let piece: String = string_of(&chars, from, at);
        let ghost rest = s@.skip(from as int);
        let ghost before = views(pieces@);
        pieces.push(piece);
        assert(views(pieces@) == before.push(piece@));
        if at == chars.len() {
            assert(piece@ == rest);
            assert(before + seq![rest] == before.push(rest));
            return pieces;
        }
        assert(piece@ == rest.take(at - from));
        assert(rest.skip(at - from + 1) == s@.skip(at + 1));
        assert(before + (seq![piece@] + split(s@.skip(at + 1), c)) == before.push(piece@) + split(
            s@.skip(at + 1),
            c,
        ));
        from = at + 1;
    }
}

/// What stands before and after the first `c` in `s`, if there is one.
pub fn split_once(s: &str, c: char) -> (parts: Option<(String, String)>)
    ensures
        match parts {
            Some((before, after)) => spec_split_once(s@, c) == Some((before@, after@)),
            None => spec_split_once(s@, c) is None,
        },
{
    let chars: Vec<char> = chars_of(s);
    let at: usize = find_char(&chars, c, 0);
    assert(s@.skip(0) == s@);
    if at < chars.len() {
        let before: String = string_of(&chars, 0, at);
        let after: String = string_of(&chars, at + 1, chars.len());
        assert(before@ == s@.take(at as int));
        assert(after@ == s@.skip(at + 1));
        Some((before, after))
    } else {
        None
    }
}

} // verus!
