//! What holds of deep links: which strings are links, what their parts can hold,
//! and that a link gives back the phone number and the text it was made of.

use vstd::prelude::*;
use vstd::utf8::*;

use crate::deeplink;
use crate::deeplink::LinkModel;
use crate::text;
use crate::text_laws;

verus! {

// ---------------------------------------------------------------------------
// Which strings are links.
// ---------------------------------------------------------------------------

/// A string parses exactly when it is a `whatsapp://` URL.
pub proof fn law_links_are_what_parses(raw: Seq<char>)
    ensures
        deeplink::spec_parse(raw) is Some <==> deeplink::after_scheme(raw) is Some,
{
}

/// White space around a link changes nothing.
pub proof fn law_white_space_around_a_link(raw: Seq<char>)
    ensures
        deeplink::spec_parse(text::trimmed(raw)) == deeplink::spec_parse(raw),
{
    text::law_trimming_is_idempotent(raw);
}

proof fn lemma_trimmed_end_of_sum(s: Seq<char>, rest: Seq<char>)
    requires
        s.len() > 0,
        !text::spec_is_white_space(s.last()),
    ensures
        text::trimmed_end(s + rest) == s + text::trimmed_end(rest),
    decreases rest.len(),
{
    if rest.len() > 0 {
        assert((s + rest).last() == rest.last());
        if text::spec_is_white_space(rest.last()) {
            assert((s + rest).drop_last() == s + rest.drop_last());
            lemma_trimmed_end_of_sum(s, rest.drop_last());
        }
    } else {
        assert(s + rest == s);
    }
}

/// The scheme may be written in any case.
pub proof fn law_scheme_in_any_case(scheme: Seq<char>, rest: Seq<char>)
    requires
        deeplink::same_but_case(scheme, "whatsapp://"@),
    ensures
        deeplink::after_scheme(scheme + rest) == Some(text::trimmed_end(rest)),
{
    reveal_strlit("whatsapp://");
    let w = "whatsapp://"@;
    let n = w.len() as int;
    assert(w[0] == 'w' && w[n - 1] == '/');
    assert(deeplink::ascii_lower(scheme[0]) == deeplink::ascii_lower(w[0]));
    assert(deeplink::ascii_lower(scheme[n - 1]) == deeplink::ascii_lower(w[n - 1]));
    lemma_letter_is_not_white(scheme[0]);
    lemma_letter_is_not_white(scheme[n - 1]);
    assert((scheme + rest)[0] == scheme[0]);
    lemma_trimmed_end_of_sum(scheme, rest);
    let t = scheme + text::trimmed_end(rest);
    assert(t.take(n) == scheme);
    assert(t.skip(n) == text::trimmed_end(rest));
}

proof fn lemma_letter_is_not_white(c: char)
    requires
        deeplink::ascii_lower(c) == 'w' || deeplink::ascii_lower(c) == '/',
    ensures
        !text::spec_is_white_space(c),
{
    if 'A' <= c <= 'Z' {
    }
}

proof fn lemma_before_separator(s: Seq<char>)
    requires
        forall|i: int| 0 <= i < s.len() ==> !deeplink::is_separator(#[trigger] s[i]),
    ensures
        deeplink::before_separator(s) == s,
    decreases s.len(),
{
    if s.len() > 0 {
        lemma_before_separator(s.skip(1));
        assert(seq![s[0]] + s.skip(1) == s);
    }
}

/// The send action may be written in any case.
pub proof fn law_send_in_any_case(host: Seq<char>)
    requires
        deeplink::same_but_case(host, "send"@),
    ensures
        deeplink::is_send_host(host),
{
    reveal_strlit("send");
    assert forall|i: int| 0 <= i < host.len() implies !deeplink::is_separator(
        #[trigger] host[i],
    ) by {
        assert(deeplink::ascii_lower(host[i]) == deeplink::ascii_lower("send"@[i]));
        assert("send"@[i] == 's' || "send"@[i] == 'e' || "send"@[i] == 'n' || "send"@[i] == 'd');
    }
    lemma_before_separator(host);
    assert(!deeplink::is_separator(host[0]));
}

// ---------------------------------------------------------------------------
// What a link can hold.
// ---------------------------------------------------------------------------

proof fn lemma_digits_of(s: Seq<char>)
    ensures
        forall|i: int|
            0 <= i < deeplink::digits_of(s).len() ==> deeplink::is_digit(
                #[trigger] deeplink::digits_of(s)[i],
            ),
        (forall|i: int| 0 <= i < s.len() ==> deeplink::is_digit(#[trigger] s[i]))
            ==> deeplink::digits_of(s) == s,
    decreases s.len(),
{
    if s.len() > 0 {
        let before = deeplink::digits_of(s.drop_last());
        lemma_digits_of(s.drop_last());
        assert forall|i: int| 0 <= i < deeplink::digits_of(s).len() implies deeplink::is_digit(
            #[trigger] deeplink::digits_of(s)[i],
        ) by {
            if i < before.len() {
                assert(deeplink::digits_of(s)[i] == before[i]);
            }
        }
        if forall|i: int| 0 <= i < s.len() ==> deeplink::is_digit(#[trigger] s[i]) {
            assert forall|i: int| 0 <= i < s.drop_last().len() implies deeplink::is_digit(
                #[trigger] s.drop_last()[i],
            ) by {
                assert(s.drop_last()[i] == s[i]);
            }
            assert(deeplink::is_digit(s[s.len() - 1]));
            assert(s.drop_last().push(s.last()) == s);
        }
    }
}

proof fn lemma_phone_of(pairs: Seq<(Seq<char>, Seq<char>)>)
    ensures
        deeplink::phone_of(pairs) matches Some(p) ==> p.len() > 0 && forall|i: int|
            0 <= i < p.len() ==> deeplink::is_digit(#[trigger] p[i]),
        deeplink::text_of(pairs) matches Some(t) ==> t.len() > 0,
    decreases pairs.len(),
{
    if pairs.len() > 0 {
        lemma_phone_of(pairs.drop_last());
        lemma_digits_of(pairs.last().1);
    }
}

/// A phone number is digits only and has at least one; a text is not empty.
pub proof fn law_phone_is_digits_and_text_is_not_empty(raw: Seq<char>)
    ensures
        deeplink::spec_parse(raw) matches Some(LinkModel::Send { phone, text }) ==> {
            &&& phone matches Some(p) ==> p.len() > 0 && forall|i: int|
                0 <= i < p.len() ==> deeplink::is_digit(#[trigger] p[i])
            &&& text matches Some(t) ==> t.len() > 0
        },
{
    if let Some(rest) = deeplink::after_scheme(raw) {
        lemma_phone_of(deeplink::query_pairs(deeplink::query_part(rest)));
    }
}

// ---------------------------------------------------------------------------
// Decoding.
// ---------------------------------------------------------------------------

/// `s` with a space for each `+`.
pub open spec fn with_spaces(s: Seq<char>) -> Seq<char> {
    s.map_values(
        |c: char|
            if c == '+' {
                ' '
            } else {
                c
            },
    )
}

proof fn lemma_ascii_scalar(v: u32)
    requires
        v < 0x80,
    ensures
        encode_scalar(v) == seq![v as u8],
{
    assert((v & 0x7f) as u8 == v as u8) by (bit_vector)
        requires
            v < 0x80,
    ;
}

/// A character outside ASCII has no byte of an ASCII character.
proof fn lemma_wide_scalar(v: u32)
    requires
        is_scalar(v),
        v >= 0x80,
    ensures
        forall|i: int| 0 <= i < encode_scalar(v).len() ==> #[trigger] encode_scalar(v)[i] >= 0x80,
{
    let b1 = ((v >> 6) & 0x1f) as u8;
    let b2 = ((v >> 12) & 0x0f) as u8;
    let b3 = ((v >> 18) & 0x7) as u8;
    let c0 = (v & 0x3f) as u8;
    let c1 = ((v >> 6) & 0x3f) as u8;
    let c2 = ((v >> 12) & 0x3f) as u8;
    assert(0xc0 | b1 >= 0x80 && 0xe0 | b2 >= 0x80 && 0xf0 | b3 >= 0x80) by (bit_vector);
    assert(0x80 | c0 >= 0x80 && 0x80 | c1 >= 0x80 && 0x80 | c2 >= 0x80) by (bit_vector);
}

/// An ASCII byte at the start of a text's bytes is the text's first character.
proof fn lemma_first_byte(s: Seq<char>)
    requires
        encode_utf8(s).len() > 0,
        encode_utf8(s)[0] < 0x80,
    ensures
        s.len() > 0,
        s[0] as u32 == encode_utf8(s)[0],
        encode_utf8(s).skip(1) == encode_utf8(s.drop_first()),
{
    let v = s[0] as u32;
    char_is_scalar(s[0]);
    if v < 0x80 {
        lemma_ascii_scalar(v);
        assert(encode_utf8(s) == seq![v as u8] + encode_utf8(s.drop_first()));
    } else {
        lemma_wide_scalar(v);
        assert(encode_utf8(s)[0] == encode_scalar(v)[0]);
    }
}

/// Bytes that are neither `%` nor `+` stand for themselves.
proof fn lemma_plain_bytes(h: Seq<u8>, t: Seq<u8>)
    requires
        forall|i: int| 0 <= i < h.len() ==> #[trigger] h[i] != 37 && h[i] != 43,
    ensures
        deeplink::percent_decoded(h + t) == h + deeplink::percent_decoded(t),
    decreases h.len(),
{
    if h.len() > 0 {
        let rest = h.skip(1);
        lemma_plain_bytes(rest, t);
        assert((h + t)[0] == h[0]);
        assert((h + t).skip(1) == rest + t);
        assert(seq![h[0]] + (rest + deeplink::percent_decoded(t)) == h
            + deeplink::percent_decoded(t));
    } else {
        assert(h + t == t);
        assert(h + deeplink::percent_decoded(t) == deeplink::percent_decoded(t));
    }
}

/// Whether a character is a hexadecimal digit.
pub open spec fn is_hex(c: char) -> bool {
    '0' <= c <= '9' || 'A' <= c <= 'F' || 'a' <= c <= 'f'
}

/// Whether an escape starts at a position: a `%` and two hexadecimal digits.
pub open spec fn escape_at(s: Seq<char>, i: int) -> bool {
    s[i] == '%' && i + 3 <= s.len() && is_hex(s[i + 1]) && is_hex(s[i + 2])
}

/// Whether no escape starts anywhere.
pub open spec fn no_escape(s: Seq<char>) -> bool {
    forall|i: int| 0 <= i < s.len() ==> !#[trigger] escape_at(s, i)
}

proof fn lemma_hex_byte(c: char)
    requires
        (c as u32) < 0x80,
        deeplink::hex_digit((c as u32) as u8) is Some,
    ensures
        is_hex(c),
{
    char_u32_cast(c, c as u32);
}

/// A `%` that starts no escape stands for itself, whatever follows it.
pub proof fn law_malformed_escape_is_kept(s: Seq<char>)
    requires
        s.len() > 0,
        s[0] == '%',
        !escape_at(s, 0),
    ensures
        deeplink::percent_decoded(encode_utf8(s)) == seq![37u8] + deeplink::percent_decoded(
            encode_utf8(s.drop_first()),
        ),
{
    let rest = s.drop_first();
    let b = encode_utf8(s);
    let t = encode_utf8(rest);
    lemma_ascii_scalar('%' as u32);
    assert(b == seq![37u8] + t);
    assert(b.skip(1) == t);
    if b.len() >= 3 && deeplink::hex_pair(b[1], b[2]) is Some {
        assert(t[0] == b[1] && t[1] == b[2]);
        lemma_first_byte(rest);
        assert(encode_utf8(rest.drop_first())[0] == t.skip(1)[0]);
        lemma_first_byte(rest.drop_first());
        let (c, d) = (s[1], s[2]);
        assert(c == rest[0] && d == rest.drop_first()[0]);
        assert(c as u32 == b[1] && d as u32 == b[2]);
        lemma_hex_byte(c);
        lemma_hex_byte(d);
        assert(escape_at(s, 0));
    }
}

proof fn lemma_decoding_without_escapes(s: Seq<char>)
    requires
        no_escape(s),
    ensures
        deeplink::percent_decoded(encode_utf8(s)) == encode_utf8(with_spaces(s)),
    decreases s.len(),
{
    let spaced = with_spaces(s);
    if s.len() > 0 {
        let rest = s.drop_first();
        let v = s[0] as u32;
        let head = encode_scalar(v);
        char_is_scalar(s[0]);
        char_u32_cast(s[0], v);
        assert forall|i: int| 0 <= i < rest.len() implies !#[trigger] escape_at(rest, i) by {
            assert(!escape_at(s, i + 1));
        }
        lemma_decoding_without_escapes(rest);
        assert(spaced.drop_first() == with_spaces(rest));
        assert(encode_utf8(s) == head + encode_utf8(rest));
        assert('+' as u32 == 43 && ' ' as u32 == 32 && '%' as u32 == 37);
        lemma_ascii_scalar(32);
        if v < 0x80 {
            lemma_ascii_scalar(v);
        } else {
            lemma_wide_scalar(v);
        }
        if s[0] == '%' {
            assert(!escape_at(s, 0));
            law_malformed_escape_is_kept(s);
        } else if s[0] == '+' {
            assert(encode_utf8(s).skip(1) == encode_utf8(rest));
        } else {
            lemma_plain_bytes(head, encode_utf8(rest));
        }
    } else {
        assert(spaced.len() == 0);
    }
}

/// A `+` stands for a space, and all else that is no escape stands for itself: a
/// `%` too, where two hexadecimal digits do not follow it.
pub proof fn law_plus_is_a_space(s: Seq<char>)
    requires
        no_escape(s),
    ensures
        deeplink::form_decoded(s) == with_spaces(s),
{
    lemma_decoding_without_escapes(s);
    encode_utf8_valid_utf8(with_spaces(s));
    encode_utf8_decode_utf8(with_spaces(s));
}

/// A text without `%` and `+` stands for itself.
pub proof fn law_plain_text_is_kept(s: Seq<char>)
    requires
        forall|i: int| 0 <= i < s.len() ==> #[trigger] s[i] != '%' && s[i] != '+',
    ensures
        deeplink::form_decoded(s) == s,
{
    assert forall|i: int| 0 <= i < s.len() implies !#[trigger] escape_at(s, i) by {
        assert(s[i] != '%');
    }
    law_plus_is_a_space(s);
    assert(with_spaces(s) == s);
}

// ---------------------------------------------------------------------------
// Links give back what they were made of.
// ---------------------------------------------------------------------------

/// The hexadecimal digit of a value below sixteen.
pub open spec fn hex_char(d: u8) -> char {
    if d < 10 {
        ('0' as u32 + d) as char
    } else {
        ('A' as u32 + (d - 10)) as char
    }
}

/// Bytes with each one written as `%` and two hexadecimal digits.
pub open spec fn escaped(b: Seq<u8>) -> Seq<char>
    decreases b.len(),
{
    if b.len() == 0 {
        Seq::empty()
    } else {
        seq!['%', hex_char(b[0] / 16), hex_char(b[0] % 16)] + escaped(b.skip(1))
    }
}

proof fn lemma_hex_char(d: u8)
    requires
        d < 16,
    ensures
        (hex_char(d) as u32) < 0x80,
        deeplink::hex_digit(hex_char(d) as u8) == Some(d),
        '0' <= hex_char(d) <= '9' || 'A' <= hex_char(d) <= 'F',
{
}

proof fn lemma_hex_pair(b: u8)
    ensures
        deeplink::hex_pair(hex_char(b / 16) as u8, hex_char(b % 16) as u8) == Some(b),
{
    lemma_hex_char(b / 16);
    lemma_hex_char(b % 16);
    assert(16 * (b / 16) + b % 16 == b);
}

proof fn lemma_escaped(b: Seq<u8>)
    ensures
        deeplink::percent_decoded(encode_utf8(escaped(b))) == b,
        escaped(b).len() == 3 * b.len(),
        forall|i: int|
            0 <= i < escaped(b).len() ==> (#[trigger] escaped(b)[i] == '%' || '0' <= escaped(b)[i]
                <= '9' || 'A' <= escaped(b)[i] <= 'F'),
    decreases b.len(),
{
    let e = escaped(b);
    if b.len() > 0 {
        let h = hex_char(b[0] / 16);
        let l = hex_char(b[0] % 16);
        let rest = escaped(b.skip(1));
        lemma_escaped(b.skip(1));
        lemma_hex_char(b[0] / 16);
        lemma_hex_char(b[0] % 16);
        lemma_hex_pair(b[0]);
        assert(e[0] == '%' && e[1] == h && e[2] == l);
        assert(e.drop_first().drop_first().drop_first() == rest);
        lemma_ascii_scalar('%' as u32);
        lemma_ascii_scalar(h as u32);
        lemma_ascii_scalar(l as u32);
        let bytes = seq![37u8, h as u8, l as u8] + encode_utf8(rest);
        assert(encode_utf8(e) == bytes) by {
            assert(e.drop_first()[0] == h);
            assert(e.drop_first().drop_first()[0] == l);
            assert(encode_utf8(e.drop_first().drop_first()) == seq![l as u8] + encode_utf8(rest));
            assert(encode_utf8(e.drop_first()) == seq![h as u8] + (seq![l as u8] + encode_utf8(
                rest,
            )));
            assert(encode_utf8(e) == seq!['%' as u8] + (seq![h as u8] + (seq![l as u8]
                + encode_utf8(rest))));
        }
        assert(bytes.skip(3) == encode_utf8(rest));
        assert(bytes[0] == 37 && bytes[1] == h as u8 && bytes[2] == l as u8);
        assert(seq![b[0]] + b.skip(1) == b);
    }
}

/// A text whose bytes are all escaped is given back by decoding.
pub proof fn law_escaping_is_undone(t: Seq<char>)
    ensures
        deeplink::form_decoded(escaped(encode_utf8(t))) == t,
{
    lemma_escaped(encode_utf8(t));
    encode_utf8_valid_utf8(t);
    encode_utf8_decode_utf8(t);
}

proof fn lemma_split_sum(a: Seq<char>, c: char, b: Seq<char>)
    ensures
        text::split(a.push(c) + b, c) == text::split(a, c) + text::split(b, c),
    decreases a.len(),
{
    let s = a.push(c) + b;
    let n = text::first_index(a, c) as int;
    text::lemma_first_index(a, c);
    assert forall|j: int| 0 <= j < n implies s[j] != c by {
        assert(s[j] == a[j]);
    }
    assert(s[n] == c);
    text::lemma_first_index_is(s, c, n);
    assert(s.take(n) == a.take(n));
    if n < a.len() {
        let rest = a.skip(n + 1);
        lemma_split_sum(rest, c, b);
        assert(s.skip(n + 1) == rest.push(c) + b);
        assert(seq![a.take(n)] + (text::split(rest, c) + text::split(b, c)) == text::split(a, c)
            + text::split(b, c));
    } else {
        assert(a.take(n) == a);
        assert(s.skip(n + 1) == b);
    }
}

proof fn lemma_pairs_sum(x: Seq<Seq<char>>, y: Seq<Seq<char>>)
    ensures
        deeplink::pairs_of(x + y) == deeplink::pairs_of(x) + deeplink::pairs_of(y),
    decreases y.len(),
{
    if y.len() > 0 {
        lemma_pairs_sum(x, y.drop_last());
        assert((x + y).drop_last() == x + y.drop_last());
        assert((x + y).last() == y.last());
    } else {
        assert(x + y == x);
        assert(deeplink::pairs_of(x) + deeplink::pairs_of(y) == deeplink::pairs_of(x));
    }
}

/// The pairs of two queries joined by `&` are those of the first and then those of
/// the second.
pub proof fn law_joined_queries(a: Seq<char>, b: Seq<char>)
    ensures
        deeplink::query_pairs(a.push('&') + b) == deeplink::query_pairs(a)
            + deeplink::query_pairs(b),
{
    lemma_split_sum(a, '&', b);
    lemma_pairs_sum(text::split(a, '&'), text::split(b, '&'));
}

/// A query of one key and one value, with neither `=` nor `&` in the key and no
/// `&` in the value, has one pair: what the two stand for.
pub proof fn law_query_of_one_pair(key: Seq<char>, value: Seq<char>)
    requires
        forall|i: int| 0 <= i < key.len() ==> #[trigger] key[i] != '=' && key[i] != '&',
        forall|i: int| 0 <= i < value.len() ==> #[trigger] value[i] != '&',
    ensures
        deeplink::query_pairs(key.push('=') + value) == seq![
            (deeplink::form_decoded(key), deeplink::form_decoded(value)),
        ],
{
    let s = key.push('=') + value;
    let n = key.len() as int;
    assert(s[n] == '=');
    assert forall|j: int| 0 <= j < n implies s[j] != '=' by {
        assert(s[j] == key[j]);
    }
    text::lemma_first_index_is(s, '=', n);
    assert(s.take(n) == key);
    assert(s.skip(n + 1) == value);
    assert forall|j: int| 0 <= j < s.len() implies s[j] != '&' by {
        if j < n {
            assert(s[j] == key[j]);
        } else if j > n {
            assert(s[j] == value[j - n - 1]);
        }
    }
    text::lemma_first_index_is(s, '&', s.len() as int);
    let pieces = text::split(s, '&');
    let none = Seq::<(Seq<char>, Seq<char>)>::empty();
    assert(pieces == seq![s]);
    assert(pieces.drop_last() == Seq::<Seq<char>>::empty());
    assert(deeplink::pairs_of(pieces.drop_last()) == none);
    assert(deeplink::pairs_of(pieces) == none.push(deeplink::query_pair(s)));
}

/// A key and a value with all bytes escaped, joined by `=`.
pub open spec fn escaped_pair(p: (Seq<char>, Seq<char>)) -> Seq<char> {
    escaped(encode_utf8(p.0)).push('=') + escaped(encode_utf8(p.1))
}

/// A query that holds these pairs, with all bytes of the keys and values escaped.
pub open spec fn escaped_query(pairs: Seq<(Seq<char>, Seq<char>)>) -> Seq<char>
    decreases pairs.len(),
{
    if pairs.len() == 0 {
        Seq::empty()
    } else if pairs.len() == 1 {
        escaped_pair(pairs[0])
    } else {
        escaped_query(pairs.drop_last()).push('&') + escaped_pair(pairs.last())
    }
}

/// Any list of pairs comes back from its escaped query, whatever the keys and the
/// values hold.
pub proof fn law_escaped_pairs_come_back(pairs: Seq<(Seq<char>, Seq<char>)>)
    ensures
        deeplink::query_pairs(escaped_query(pairs)) == pairs,
    decreases pairs.len(),
{
    if pairs.len() > 0 {
        let (k, v) = pairs.last();
        law_escaped_pairs_come_back(pairs.drop_last());
        lemma_escaped(encode_utf8(k));
        lemma_escaped(encode_utf8(v));
        law_query_of_one_pair(escaped(encode_utf8(k)), escaped(encode_utf8(v)));
        law_escaping_is_undone(k);
        law_escaping_is_undone(v);
        law_joined_queries(escaped_query(pairs.drop_last()), escaped_pair(pairs.last()));
        assert(pairs.drop_last() + seq![pairs.last()] == pairs);
    } else {
        let none = Seq::<char>::empty();
        let pieces = seq![none];
        assert(text::split(none, '&') == pieces);
        assert(pieces.last() == none);
        assert(pieces.drop_last() == Seq::<Seq<char>>::empty());
        assert(deeplink::pairs_of(pieces.drop_last()) == pairs);
    }
}

/// The query of a link that sends `t` to `phone`.
pub open spec fn send_query(phone: Seq<char>, t: Seq<char>) -> Seq<char> {
    "phone="@ + phone + "&text="@ + escaped(encode_utf8(t))
}

/// What the query with the parameter `text` alone holds.
proof fn lemma_text_query(t: Seq<char>)
    ensures
        deeplink::query_pairs("text="@ + escaped(encode_utf8(t))) == seq![("text"@, t)],
{
    reveal_strlit("text=");
    reveal_strlit("text");
    lemma_escaped(encode_utf8(t));
    assert("text"@.push('=') == "text="@);
    law_query_of_one_pair("text"@, escaped(encode_utf8(t)));
    law_plain_text_is_kept("text"@);
    law_escaping_is_undone(t);
}

proof fn lemma_send_query(phone: Seq<char>, t: Seq<char>)
    requires
        phone.len() > 0,
        forall|i: int| 0 <= i < phone.len() ==> deeplink::is_digit(#[trigger] phone[i]),
        t.len() > 0,
    ensures
        deeplink::spec_send_link(deeplink::query_pairs(send_query(phone, t))) == (LinkModel::Send {
            phone: Some(phone),
            text: Some(t),
        }),
{
    reveal_strlit("phone=");
    reveal_strlit("&text=");
    reveal_strlit("text=");
    reveal_strlit("phone");
    let e = escaped(encode_utf8(t));
    let a = "phone="@ + phone;
    let p = ("phone"@, phone);
    assert("phone"@.push('=') == "phone="@);
    assert forall|i: int| 0 <= i < phone.len() implies #[trigger] phone[i] != '%' && phone[i] != '+'
        && phone[i] != '&' by {
        assert(deeplink::is_digit(phone[i]));
    }
    law_query_of_one_pair("phone"@, phone);
    law_plain_text_is_kept("phone"@);
    law_plain_text_is_kept(phone);
    lemma_text_query(t);
    law_joined_queries(a, "text="@ + e);
    assert(send_query(phone, t) == a.push('&') + ("text="@ + e));
    let pairs = seq![p] + seq![("text"@, t)];
    assert(deeplink::query_pairs(send_query(phone, t)) == pairs);
    assert(pairs.last() == ("text"@, t));
    assert(pairs.drop_last() == seq![p]);
    assert(seq![p].last() == p);
    lemma_digits_of(phone);
    assert(deeplink::phone_of(seq![p]) == Some(phone));
    lemma_text_names_no_phone();
}

proof fn lemma_text_names_no_phone()
    ensures
        !deeplink::is_phone_key("text"@),
{
    reveal_strlit("phone");
    reveal_strlit("text");
    reveal_strlit("to");
    reveal_strlit("abid");
    assert("text"@[0] == 't' && "phone"@[0] == 'p' && "abid"@[0] == 'a');
    assert("text"@.len() == 4 && "to"@.len() == 2);
}

/// A send link asks for what its query holds, if no white space ends the query.
pub proof fn law_send_link_is_its_query(q: Seq<char>)
    requires
        q.len() > 0,
        !text::spec_is_white_space(q.last()),
    ensures
        deeplink::spec_parse("whatsapp://"@ + ("send?"@ + q)) == Some(
            deeplink::spec_send_link(deeplink::query_pairs(q)),
        ),
{
    reveal_strlit("send?");
    reveal_strlit("send");
    let rest = "send?"@ + q;
    assert(deeplink::same_but_case("whatsapp://"@, "whatsapp://"@));
    law_scheme_in_any_case("whatsapp://"@, rest);
    assert(rest.last() == q.last());
    assert(rest[4] == '?');
    assert forall|j: int| 0 <= j < 4 implies rest[j] != '?' by {
        assert(rest[j] == "send?"@[j]);
    }
    text::lemma_first_index_is(rest, '?', 4);
    assert(rest.take(4) == "send"@);
    assert(rest.skip(5) == q);
    assert(deeplink::same_but_case("send"@, "send"@));
    law_send_in_any_case("send"@);
}

/// An escaped text that is not empty ends in no white space.
proof fn lemma_escaped_end(t: Seq<char>)
    requires
        t.len() > 0,
    ensures
        escaped(encode_utf8(t)).len() > 0,
        !text::spec_is_white_space(escaped(encode_utf8(t)).last()),
{
    let e = escaped(encode_utf8(t));
    lemma_escaped(encode_utf8(t));
    assert(encode_scalar(t[0] as u32).len() > 0);
    assert(encode_utf8(t).len() > 0);
    assert(e.last() == e[e.len() - 1]);
}

/// A link that sends an escaped text to a phone number gives back both, whatever
/// the text holds.
pub proof fn law_link_gives_back_phone_and_text(phone: Seq<char>, t: Seq<char>)
    requires
        phone.len() > 0,
        forall|i: int| 0 <= i < phone.len() ==> deeplink::is_digit(#[trigger] phone[i]),
        t.len() > 0,
    ensures
        deeplink::spec_parse("whatsapp://"@ + ("send?"@ + send_query(phone, t))) == Some(
            LinkModel::Send { phone: Some(phone), text: Some(t) },
        ),
{
    lemma_escaped_end(t);
    assert(send_query(phone, t).last() == escaped(encode_utf8(t)).last());
    law_send_link_is_its_query(send_query(phone, t));
    lemma_send_query(phone, t);
}

/// A link with an escaped text alone gives back the text and names no phone.
pub proof fn law_share_link_gives_back_text(t: Seq<char>)
    requires
        t.len() > 0,
    ensures
        deeplink::spec_parse(
            "whatsapp://"@ + ("send?"@ + ("text="@ + escaped(encode_utf8(t)))),
        ) == Some(LinkModel::Send { phone: None, text: Some(t) }),
{
    let e = escaped(encode_utf8(t));
    let q = "text="@ + e;
    let pairs = seq![("text"@, t)];
    lemma_escaped_end(t);
    assert(q.last() == e.last());
    law_send_link_is_its_query(q);
    lemma_text_query(t);
    lemma_text_names_no_phone();
    assert(pairs.last() == ("text"@, t));
    assert(pairs.drop_last() == Seq::<(Seq<char>, Seq<char>)>::empty());
    assert(deeplink::phone_of(pairs.drop_last()) is None);
}

// ---------------------------------------------------------------------------
// What a text stands for, character by character.
// ---------------------------------------------------------------------------

/// The value of a hexadecimal digit, in either case.
pub open spec fn digit_value(c: char) -> int {
    if 'a' <= c <= 'f' {
        c as u32 - 'a' as u32 + 10
    } else if 'A' <= c <= 'F' {
        c as u32 - 'A' as u32 + 10
    } else {
        c as u32 - '0' as u32
    }
}

proof fn lemma_ascii_head(s: Seq<char>)
    requires
        s.len() > 0,
        (s[0] as u32) < 0x80,
    ensures
        encode_utf8(s) == seq![s[0] as u8] + encode_utf8(s.drop_first()),
{
    let c = s[0];
    char_is_scalar(c);
    char_u32_cast(c, c as u32);
    assert(c as u8 == (c as u32) as u8);
    lemma_ascii_scalar(c as u32);
}

/// An escape is one byte, whose value its two hexadecimal digits give. Each digit
/// may be a capital or a small letter.
pub proof fn law_escape_is_one_byte(s: Seq<char>)
    requires
        s.len() > 0,
        escape_at(s, 0),
    ensures
        ({
            let value = 16 * digit_value(s[1]) + digit_value(s[2]);
            &&& 0 <= value < 256
            &&& deeplink::percent_decoded(encode_utf8(s)) == seq![value as u8]
                + deeplink::percent_decoded(encode_utf8(s.skip(3)))
        }),
{
    let (p, h, l) = (s[0], s[1], s[2]);
    let rest = s.skip(3);
    let s1 = s.drop_first();
    let s2 = s1.drop_first();
    assert(s1[0] == h && s2[0] == l);
    assert(s2.drop_first() == rest);
    lemma_ascii_head(s);
    lemma_ascii_head(s1);
    lemma_ascii_head(s2);
    let b = encode_utf8(s);
    assert(b == seq![37u8] + (seq![h as u8] + (seq![l as u8] + encode_utf8(rest))));
    assert(b[0] == 37 && b[1] == h as u8 && b[2] == l as u8);
    assert(b.skip(3) == encode_utf8(rest));
}

/// A `+` is a space, whatever follows it.
pub proof fn law_plus_is_one_space(s: Seq<char>)
    requires
        s.len() > 0,
        s[0] == '+',
    ensures
        deeplink::percent_decoded(encode_utf8(s)) == seq![32u8] + deeplink::percent_decoded(
            encode_utf8(s.drop_first()),
        ),
{
    lemma_ascii_head(s);
    assert(encode_utf8(s).skip(1) == encode_utf8(s.drop_first()));
}

/// Any character but `%` and `+` stands for itself, whatever follows it.
pub proof fn law_other_characters_are_kept(s: Seq<char>)
    requires
        s.len() > 0,
        s[0] != '%',
        s[0] != '+',
    ensures
        deeplink::percent_decoded(encode_utf8(s)) == encode_utf8(seq![s[0]])
            + deeplink::percent_decoded(encode_utf8(s.drop_first())),
{
    let v = s[0] as u32;
    let head = encode_scalar(v);
    char_is_scalar(s[0]);
    char_u32_cast(s[0], v);
    if v < 0x80 {
        lemma_ascii_scalar(v);
    } else {
        lemma_wide_scalar(v);
    }
    lemma_plain_bytes(head, encode_utf8(s.drop_first()));
    let one = seq![s[0]];
    assert(one.drop_first() == Seq::<char>::empty());
    assert(encode_utf8(one.drop_first()) == Seq::<u8>::empty());
    assert(encode_utf8(one) == head + Seq::<u8>::empty());
    assert(encode_utf8(one) == head);
}

/// A text whose escapes and other characters give the bytes of `t` stands for `t`.
pub proof fn law_decoded_bytes_are_the_text(s: Seq<char>, t: Seq<char>)
    requires
        deeplink::percent_decoded(encode_utf8(s)) == encode_utf8(t),
    ensures
        deeplink::form_decoded(s) == t,
{
    encode_utf8_valid_utf8(t);
    encode_utf8_decode_utf8(t);
}

/// The small hexadecimal digit of a value below sixteen.
pub open spec fn small_hex_char(d: u8) -> char {
    if d < 10 {
        ('0' as u32 + d) as char
    } else {
        ('a' as u32 + (d - 10)) as char
    }
}

/// Bytes with each one written as `%` and two hexadecimal digits, letters small.
pub open spec fn escaped_small(b: Seq<u8>) -> Seq<char>
    decreases b.len(),
{
    if b.len() == 0 {
        Seq::empty()
    } else {
        seq!['%', small_hex_char(b[0] / 16), small_hex_char(b[0] % 16)] + escaped_small(b.skip(1))
    }
}

proof fn lemma_escaped_small(b: Seq<u8>)
    ensures
        deeplink::percent_decoded(encode_utf8(escaped_small(b))) == b,
    decreases b.len(),
{
    let e = escaped_small(b);
    if b.len() > 0 {
        let h = small_hex_char(b[0] / 16);
        let l = small_hex_char(b[0] % 16);
        lemma_escaped_small(b.skip(1));
        assert(e[0] == '%' && e[1] == h && e[2] == l);
        assert(e.skip(3) == escaped_small(b.skip(1)));
        assert(escape_at(e, 0));
        law_escape_is_one_byte(e);
        assert(digit_value(h) == b[0] / 16 && digit_value(l) == b[0] % 16);
        assert(16 * (b[0] / 16) + b[0] % 16 == b[0]);
        assert(seq![b[0]] + b.skip(1) == b);
    }
}

/// A text whose bytes are all escaped with small letters is given back by decoding.
pub proof fn law_small_escapes_are_undone(t: Seq<char>)
    ensures
        deeplink::form_decoded(escaped_small(encode_utf8(t))) == t,
{
    lemma_escaped_small(encode_utf8(t));
    law_decoded_bytes_are_the_text(escaped_small(encode_utf8(t)), t);
}

// ---------------------------------------------------------------------------
// Queries.
// ---------------------------------------------------------------------------

/// A piece without `=` is a key with an empty value, and an empty piece is nothing.
pub proof fn law_query_of_one_key(key: Seq<char>)
    requires
        forall|i: int| 0 <= i < key.len() ==> #[trigger] key[i] != '=' && key[i] != '&',
    ensures
        key.len() > 0 ==> deeplink::query_pairs(key) == seq![
            (deeplink::form_decoded(key), Seq::<char>::empty()),
        ],
        key.len() == 0 ==> deeplink::query_pairs(key).len() == 0,
{
    text::lemma_first_index_is(key, '=', key.len() as int);
    text::lemma_first_index_is(key, '&', key.len() as int);
    let pieces = text::split(key, '&');
    let none = Seq::<(Seq<char>, Seq<char>)>::empty();
    assert(pieces == seq![key]);
    assert(pieces.last() == key);
    assert(pieces.drop_last() == Seq::<Seq<char>>::empty());
    assert(deeplink::pairs_of(pieces.drop_last()) == none);
}

/// The phone number that a value gives: its ASCII digits, in order.
pub proof fn law_digits_are_kept_in_order(s: Seq<char>)
    ensures
        deeplink::digits_of(s) == s.filter(|c: char| '0' <= c <= '9'),
    decreases s.len(),
{
    reveal(Seq::filter);
    if s.len() > 0 {
        law_digits_are_kept_in_order(s.drop_last());
    } else {
        assert(s.filter(|c: char| '0' <= c <= '9') == Seq::<char>::empty());
    }
}

/// A send link without parameters names neither a phone nor a text. A further
/// parameter `phone`, `to` or `abid` with digits in it sets the phone, a further
/// `text` that is not empty sets the text, and any other changes nothing.
pub proof fn law_send_link_parameters(
    pairs: Seq<(Seq<char>, Seq<char>)>,
    key: Seq<char>,
    value: Seq<char>,
)
    ensures
        deeplink::spec_send_link(Seq::empty()) == (LinkModel::Send { phone: None, text: None }),
        ({
            let digits = value.filter(|c: char| '0' <= c <= '9');
            deeplink::spec_send_link(pairs) matches LinkModel::Send { phone, text }
                && deeplink::spec_send_link(pairs.push((key, value))) matches LinkModel::Send {
                phone: next_phone,
                text: next_text,
            } && {
                &&& (key == "phone"@ || key == "to"@ || key == "abid"@) && digits.len() > 0
                    ==> next_phone == Some(digits) && next_text == text
                &&& key == "text"@ && value.len() > 0 ==> next_text == Some(value) && next_phone
                    == phone
                &&& !((key == "phone"@ || key == "to"@ || key == "abid"@) && digits.len() > 0)
                    && !(key == "text"@ && value.len() > 0) ==> next_phone == phone && next_text
                    == text
            }
        }),
{
    law_digits_are_kept_in_order(value);
    lemma_text_names_no_phone();
    assert(pairs.push((key, value)).drop_last() == pairs);
    assert(deeplink::phone_of(Seq::empty()) is None);
}

// ---------------------------------------------------------------------------
// Which strings are links, and which links send.
// ---------------------------------------------------------------------------

/// Whether `c` is the ASCII character `l`, or its capital.
pub open spec fn is_letter_of(c: char, l: char) -> bool {
    c == l || ('a' <= l <= 'z' && c as u32 + 32 == l as u32)
}

proof fn lemma_letter_of(c: char, l: char)
    requires
        !('A' <= l <= 'Z'),
        (l as u32) < 0x80,
    ensures
        deeplink::ascii_lower(c) == deeplink::ascii_lower(l) <==> is_letter_of(c, l),
{
    char_is_scalar(c);
    char_u32_cast(c, c as u32);
    char_u32_cast(l, l as u32);
    if 'A' <= c <= 'Z' {
        assert(deeplink::ascii_lower(c) as u32 == c as u32 + 32);
    }
}

/// Whether a text starts with `whatsapp://`, each letter small or a capital.
pub open spec fn has_scheme(t: Seq<char>) -> bool {
    &&& t.len() >= 11
    &&& is_letter_of(t[0], 'w') && is_letter_of(t[1], 'h') && is_letter_of(t[2], 'a')
    &&& is_letter_of(t[3], 't') && is_letter_of(t[4], 's') && is_letter_of(t[5], 'a')
    &&& is_letter_of(t[6], 'p') && is_letter_of(t[7], 'p')
    &&& t[8] == ':' && t[9] == '/' && t[10] == '/'
}

/// A string is a link exactly when, white space around it aside, it starts with
/// `whatsapp://` in any case; what follows is the rest.
pub proof fn law_scheme_decides(before: Seq<char>, t: Seq<char>, after: Seq<char>)
    requires
        text_laws::all_white(before),
        text_laws::has_firm_ends(t),
        text_laws::all_white(after),
    ensures
        has_scheme(t) ==> deeplink::after_scheme(before + t + after) == Some(t.skip(11)),
        !has_scheme(t) ==> deeplink::after_scheme(before + t + after) is None
            && deeplink::spec_parse(before + t + after) is None,
{
    reveal_strlit("whatsapp://");
    let w = "whatsapp://"@;
    text_laws::law_trimming_takes_the_white_space_around(before, t, after);
    if t.len() >= 11 {
        assert forall|i: int| 0 <= i < 11 implies (deeplink::ascii_lower(#[trigger] t.take(11)[i])
            == deeplink::ascii_lower(w[i]) <==> is_letter_of(t[i], w[i])) by {
            lemma_letter_of(t[i], w[i]);
        }
        assert(w[0] == 'w' && w[1] == 'h' && w[2] == 'a' && w[3] == 't' && w[4] == 's' && w[5]
            == 'a' && w[6] == 'p' && w[7] == 'p' && w[8] == ':' && w[9] == '/' && w[10] == '/');
        if has_scheme(t) {
            assert forall|i: int| 0 <= i < 11 implies is_letter_of(#[trigger] t[i], w[i]) by {}
            assert(deeplink::same_but_case(t.take(11), w));
        } else if deeplink::same_but_case(t.take(11), w) {
            assert forall|i: int| 0 <= i < 11 implies is_letter_of(#[trigger] t[i], w[i]) by {
                assert(deeplink::ascii_lower(t.take(11)[i]) == deeplink::ascii_lower(w[i]));
            }
            assert(is_letter_of(t[0], w[0]) && is_letter_of(t[1], w[1]) && is_letter_of(t[2], w[2])
                && is_letter_of(t[3], w[3]) && is_letter_of(t[4], w[4]) && is_letter_of(t[5], w[5])
                && is_letter_of(t[6], w[6]) && is_letter_of(t[7], w[7]) && is_letter_of(t[8], w[8])
                && is_letter_of(t[9], w[9]) && is_letter_of(t[10], w[10]));
        }
    }
}

/// Whether a text has neither a slash nor a backslash.
pub open spec fn has_no_slash(s: Seq<char>) -> bool {
    forall|i: int| 0 <= i < s.len() ==> #[trigger] s[i] != '/' && s[i] != '\\'
}

/// Whether a text is slashes and backslashes only.
pub open spec fn is_slashes(s: Seq<char>) -> bool {
    forall|i: int| 0 <= i < s.len() ==> #[trigger] s[i] == '/' || s[i] == '\\'
}

proof fn lemma_segment(segment: Seq<char>, tail: Seq<char>)
    requires
        has_no_slash(segment),
        tail.len() == 0 || tail[0] == '/' || tail[0] == '\\',
    ensures
        deeplink::before_separator(segment + tail) == segment,
    decreases segment.len(),
{
    let s = segment + tail;
    if segment.len() > 0 {
        let rest = segment.skip(1);
        assert(s[0] == segment[0]);
        assert forall|i: int| 0 <= i < rest.len() implies #[trigger] rest[i] != '/' && rest[i]
            != '\\' by {
            assert(rest[i] == segment[i + 1]);
        }
        lemma_segment(rest, tail);
        assert(s.skip(1) == rest + tail);
        assert(seq![segment[0]] + rest == segment);
    } else {
        assert(s == tail);
    }
}

proof fn lemma_first_segment(slashes: Seq<char>, segment: Seq<char>, tail: Seq<char>)
    requires
        is_slashes(slashes),
        has_no_slash(segment),
        segment.len() > 0 || tail.len() == 0,
        tail.len() == 0 || tail[0] == '/' || tail[0] == '\\',
    ensures
        deeplink::first_segment(slashes + segment + tail) == segment,
    decreases slashes.len(),
{
    let s = slashes + segment + tail;
    if slashes.len() > 0 {
        let rest = slashes.skip(1);
        assert(s[0] == slashes[0]);
        assert forall|i: int| 0 <= i < rest.len() implies #[trigger] rest[i] == '/' || rest[i]
            == '\\' by {
            assert(rest[i] == slashes[i + 1]);
        }
        lemma_first_segment(rest, segment, tail);
        assert(s.skip(1) == rest + segment + tail);
    } else {
        assert(s == segment + tail);
        lemma_segment(segment, tail);
        if segment.len() > 0 {
            assert(s[0] == segment[0]);
        }
    }
}

/// Whether a segment is `send`, each letter small or a capital.
pub open spec fn is_send(segment: Seq<char>) -> bool {
    &&& segment.len() == 4
    &&& is_letter_of(segment[0], 's') && is_letter_of(segment[1], 'e')
    &&& is_letter_of(segment[2], 'n') && is_letter_of(segment[3], 'd')
}

proof fn lemma_is_send(segment: Seq<char>)
    ensures
        deeplink::same_but_case(segment, "send"@) <==> is_send(segment),
{
    reveal_strlit("send");
    let w = "send"@;
    assert(w[0] == 's' && w[1] == 'e' && w[2] == 'n' && w[3] == 'd');
    if segment.len() == 4 {
        lemma_letter_of(segment[0], 's');
        lemma_letter_of(segment[1], 'e');
        lemma_letter_of(segment[2], 'n');
        lemma_letter_of(segment[3], 'd');
        if deeplink::same_but_case(segment, w) {
            assert(deeplink::ascii_lower(segment[0]) == deeplink::ascii_lower(w[0]));
            assert(deeplink::ascii_lower(segment[1]) == deeplink::ascii_lower(w[1]));
            assert(deeplink::ascii_lower(segment[2]) == deeplink::ascii_lower(w[2]));
            assert(deeplink::ascii_lower(segment[3]) == deeplink::ascii_lower(w[3]));
        }
        if is_send(segment) {
            assert forall|i: int| 0 <= i < 4 implies deeplink::ascii_lower(
                #[trigger] segment[i],
            ) == deeplink::ascii_lower(w[i]) by {}
        }
    }
}

/// The first path segment that is not empty decides: `send` in any case is a send
/// link with the parameters after the first `?`, anything else another link.
pub proof fn law_first_segment_decides(
    raw: Seq<char>,
    slashes: Seq<char>,
    segment: Seq<char>,
    tail: Seq<char>,
    query: Seq<char>,
    has_query: bool,
)
    requires
        is_slashes(slashes),
        has_no_slash(segment),
        segment.len() > 0 || tail.len() == 0,
        tail.len() == 0 || tail[0] == '/' || tail[0] == '\\',
        forall|i: int| 0 <= i < segment.len() ==> #[trigger] segment[i] != '?',
        forall|i: int| 0 <= i < tail.len() ==> #[trigger] tail[i] != '?',
        deeplink::after_scheme(raw) == Some(
            if has_query {
                (slashes + segment + tail).push('?') + query
            } else {
                slashes + segment + tail
            },
        ),
    ensures
        !is_send(segment) ==> deeplink::spec_parse(raw) == Some(LinkModel::Other),
        is_send(segment) && has_query ==> deeplink::spec_parse(raw) == Some(
            deeplink::spec_send_link(deeplink::query_pairs(query)),
        ),
        is_send(segment) && !has_query ==> deeplink::spec_parse(raw) == Some(
            LinkModel::Send { phone: None, text: None },
        ),
{
    let host = slashes + segment + tail;
    assert forall|i: int| 0 <= i < host.len() implies #[trigger] host[i] != '?' by {
        if i < slashes.len() {
            assert(host[i] == slashes[i]);
        } else if i < slashes.len() + segment.len() {
            assert(host[i] == segment[i - slashes.len()]);
        } else {
            assert(host[i] == tail[i - slashes.len() - segment.len()]);
        }
    }
    text_laws::law_cut_at_the_first(host, '?', query);
    lemma_first_segment(slashes, segment, tail);
    lemma_is_send(segment);
    if !has_query {
        let none = Seq::<char>::empty();
        law_query_of_one_key(none);
        assert(deeplink::query_pairs(none) == Seq::<(Seq<char>, Seq<char>)>::empty());
        law_send_link_parameters(Seq::empty(), none, none);
    }
}

/// The query of a link that sends `t` to `phone`, with the escapes in small letters.
pub open spec fn small_send_query(phone: Seq<char>, t: Seq<char>) -> Seq<char> {
    "phone="@ + phone + "&text="@ + escaped_small(encode_utf8(t))
}

proof fn lemma_small_characters(b: Seq<u8>)
    ensures
        escaped_small(b).len() == 3 * b.len(),
        forall|i: int|
            0 <= i < escaped_small(b).len() ==> (#[trigger] escaped_small(b)[i] == '%' || '0'
                <= escaped_small(b)[i] <= '9' || 'a' <= escaped_small(b)[i] <= 'f'),
    decreases b.len(),
{
    if b.len() > 0 {
        lemma_small_characters(b.skip(1));
        let rest = escaped_small(b.skip(1));
        let e = escaped_small(b);
        assert forall|i: int| 0 <= i < e.len() implies (#[trigger] e[i] == '%' || '0' <= e[i]
            <= '9' || 'a' <= e[i] <= 'f') by {
            if i >= 3 {
                assert(e[i] == rest[i - 3]);
            }
        }
    }
}

/// A send link gives back the phone number and the text also where the escapes are in
/// small letters.
pub proof fn law_small_link_gives_back_phone_and_text(phone: Seq<char>, t: Seq<char>)
    requires
        phone.len() > 0,
        forall|i: int| 0 <= i < phone.len() ==> deeplink::is_digit(#[trigger] phone[i]),
        t.len() > 0,
    ensures
        deeplink::spec_parse("whatsapp://"@ + ("send?"@ + small_send_query(phone, t))) == Some(
            LinkModel::Send { phone: Some(phone), text: Some(t) },
        ),
{
    reveal_strlit("phone=");
    reveal_strlit("&text=");
    reveal_strlit("text=");
    reveal_strlit("phone");
    reveal_strlit("text");
    let e = escaped_small(encode_utf8(t));
    let q = small_send_query(phone, t);
    let a = "phone="@ + phone;
    let p = ("phone"@, phone);
    lemma_small_characters(encode_utf8(t));
    assert(encode_scalar(t[0] as u32).len() > 0);
    assert(encode_utf8(t).len() > 0);
    assert(q.last() == e[e.len() - 1]);
    law_send_link_is_its_query(q);
    assert("phone"@.push('=') == "phone="@);
    assert("text"@.push('=') == "text="@);
    assert forall|i: int| 0 <= i < phone.len() implies #[trigger] phone[i] != '%' && phone[i] != '+'
        && phone[i] != '&' by {
        assert(deeplink::is_digit(phone[i]));
    }
    law_query_of_one_pair("phone"@, phone);
    law_plain_text_is_kept("phone"@);
    law_plain_text_is_kept(phone);
    law_query_of_one_pair("text"@, e);
    law_plain_text_is_kept("text"@);
    law_small_escapes_are_undone(t);
    law_joined_queries(a, "text="@ + e);
    assert(q == a.push('&') + ("text="@ + e));
    let pairs = seq![p] + seq![("text"@, t)];
    assert(deeplink::query_pairs(q) == pairs);
    assert(pairs.last() == ("text"@, t));
    assert(pairs.drop_last() == seq![p]);
    assert(seq![p].last() == p);
    lemma_digits_of(phone);
    assert(deeplink::phone_of(seq![p]) == Some(phone));
    lemma_text_names_no_phone();
}

} // verus!
