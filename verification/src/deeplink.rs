//! Parsing of `whatsapp://` deep links.
//!
//! Supported shapes:
//!
//! ```text
//! whatsapp://send?phone=15551234567&text=hi
//! whatsapp://send?text=hi            (no phone: a share link, no chat target)
//! whatsapp://chat/<jid>              (recognised, not implemented)
//! ```
//!
//! A phone number comes out as digits only, as `wa.me` links expect it. A
//! missing or empty phone is `None` and no error: a share link opens the app
//! with a draft instead of a chat.

use vstd::prelude::*;
use vstd::string::*;
use vstd::utf8::*;

use crate::text::{chars_of, same_text, split_once, split_string, string_of, trim};
use crate::text;

verus! {

/// What a `whatsapp://` URL asks the app to do.
#[derive(Debug, Clone, PartialEq, Eq)]
pub enum DeepLink {
    /// `whatsapp://send?phone=...&text=...`: open a chat, optionally pre-filled.
    Send {
        /// Digits only, country code included. Absent for share links.
        phone: Option<String>,
        /// The decoded `text` query parameter, if any.
        text: Option<String>,
    },
    /// A `whatsapp://` URL with an action that is not implemented. Opening the
    /// app, without navigating, is still the right response.
    Other,
}

/// The view of a `DeepLink`.
pub enum LinkModel {
    Send { phone: Option<Seq<char>>, text: Option<Seq<char>> },
    Other,
}

impl View for DeepLink {
    type V = LinkModel;

    open spec fn view(&self) -> LinkModel {
        match *self {
            DeepLink::Send { phone, text } => LinkModel::Send {
                phone: text::opt_string_view(phone),
                text: text::opt_string_view(text),
            },
            DeepLink::Other => LinkModel::Other,
        }
    }
}

// ---------------------------------------------------------------------------
// ASCII case.
// ---------------------------------------------------------------------------

/// An ASCII capital as its small letter, any other character as it is.
pub open spec fn ascii_lower(c: char) -> char {
    if 'A' <= c <= 'Z' {
        (c as u32 + 32) as char
    } else {
        c
    }
}

/// Whether two sequences are equal up to ASCII case.
pub open spec fn same_but_case(s: Seq<char>, t: Seq<char>) -> bool {
    &&& s.len() == t.len()
    &&& forall|i: int| 0 <= i < s.len() ==> ascii_lower(#[trigger] s[i]) == ascii_lower(t[i])
}

fn to_ascii_lower(c: char) -> (l: char)
    ensures
        l == ascii_lower(c),
{
    if 'A' <= c && c <= 'Z' {
        ((c as u8) + 32) as char
    } else {
        c
    }
}

/// Whether `chars[from..to]` and `t` are equal up to ASCII case.
fn matches_but_case(chars: &Vec<char>, from: usize, to: usize, t: &str) -> (same: bool)
    requires
        from <= to <= chars@.len(),
    ensures
        same == same_but_case(chars@.subrange(from as int, to as int), t@),
{
    let wanted: Vec<char> = chars_of(t);
    let ghost part = chars@.subrange(from as int, to as int);
    if to - from != wanted.len() {
        return false;
    }
    let mut i: usize = 0;
    while i < wanted.len()
        invariant
            i <= wanted@.len() == to - from,
            from <= to <= chars@.len(),
            wanted@ == t@,
            part == chars@.subrange(from as int, to as int),
            forall|j: int|
                0 <= j < i ==> ascii_lower(#[trigger] part[j]) == ascii_lower(wanted@[j]),
        decreases wanted@.len() - i,
    {
        assert(part[i as int] == chars@[from + i]);
        if to_ascii_lower(chars[from + i]) != to_ascii_lower(wanted[i]) {
            return false;
        }
        i += 1;
    }
    true
}

// ---------------------------------------------------------------------------
// The parts of a link.
// ---------------------------------------------------------------------------

/// What follows the scheme in a `whatsapp://` URL, white space around the URL
/// aside; `None` for any other string.
pub open spec fn after_scheme(raw: Seq<char>) -> Option<Seq<char>> {
    let t = text::trimmed(raw);
    let n = "whatsapp://"@.len() as int;
    if n <= t.len() && same_but_case(t.take(n), "whatsapp://"@) {
        Some(t.skip(n))
    } else {
        None
    }
}

/// The part of a link before the first `?`.
pub open spec fn host_part(rest: Seq<char>) -> Seq<char> {
    match text::spec_split_once(rest, '?') {
        Some((host, query)) => host,
        None => rest,
    }
}

/// The part of a link after the first `?`; empty if there is none.
pub open spec fn query_part(rest: Seq<char>) -> Seq<char> {
    match text::spec_split_once(rest, '?') {
        Some((host, query)) => query,
        None => Seq::empty(),
    }
}

/// Whether a character separates path segments.
pub open spec fn is_separator(c: char) -> bool {
    c == '/' || c == '\\'
}

/// The characters of `s` before the first separator.
pub open spec fn before_separator(s: Seq<char>) -> Seq<char>
    decreases s.len(),
{
    if s.len() == 0 || is_separator(s[0]) {
        Seq::empty()
    } else {
        seq![s[0]] + before_separator(s.skip(1))
    }
}

/// The first non-empty path segment of `host`; empty if it has none.
pub open spec fn first_segment(host: Seq<char>) -> Seq<char>
    decreases host.len(),
{
    if host.len() > 0 && is_separator(host[0]) {
        first_segment(host.skip(1))
    } else {
        before_separator(host)
    }
}

/// Whether the host part of a link asks for the send action.
pub open spec fn is_send_host(host: Seq<char>) -> bool {
    same_but_case(first_segment(host), "send"@)
}

/// What a `whatsapp://` URL asks for; `None` for any other string.
pub open spec fn spec_parse(raw: Seq<char>) -> Option<LinkModel> {
    match after_scheme(raw) {
        None => None,
        Some(rest) => if is_send_host(host_part(rest)) {
            Some(spec_send_link(query_pairs(query_part(rest))))
        } else {
            Some(LinkModel::Other)
        },
    }
}

/// What follows the scheme of a trimmed `whatsapp://` URL.
fn strip_scheme(raw: &str) -> (rest: Option<String>)
    ensures
        text::opt_string_view(rest) == after_scheme(raw@),
{
    let chars: Vec<char> = chars_of(trim(raw));
    let n: usize = "whatsapp://".unicode_len();
    if n <= chars.len() && matches_but_case(&chars, 0, n, "whatsapp://") {
        assert(chars@.subrange(0, n as int) == chars@.take(n as int));
        assert(chars@.subrange(n as int, chars@.len() as int) == chars@.skip(n as int));
        Some(string_of(&chars, n, chars.len()))
    } else {
        assert(n <= chars.len() ==> chars@.subrange(0, n as int) == chars@.take(n as int));
        None
    }
}

/// Whether the host part of a link asks for the send action.
fn asks_to_send(host: &str) -> (send: bool)
    ensures
        send == is_send_host(host@),
{
    let chars: Vec<char> = chars_of(host);
    let mut from: usize = 0;
    assert(chars@.skip(0) == chars@);
    while from < chars.len() && (chars[from] == '/' || chars[from] == '\\')
        invariant
            from <= chars@.len(),
            first_segment(chars@.skip(from as int)) == first_segment(chars@),
        decreases chars@.len() - from,
    {
        assert(chars@.skip(from as int).skip(1) == chars@.skip(from + 1));
        from += 1;
    }
    let mut to: usize = from;
    let ghost segment = first_segment(chars@);
    assert(chars@.subrange(from as int, from as int) + before_separator(chars@.skip(from as int))
        == segment);
    while to < chars.len() && chars[to] != '/' && chars[to] != '\\'
        invariant
            from <= to <= chars@.len(),
            chars@.subrange(from as int, to as int) + before_separator(chars@.skip(to as int))
                == segment,
        decreases chars@.len() - to,
    {
        assert(chars@.skip(to as int).skip(1) == chars@.skip(to + 1));
        assert(chars@.subrange(from as int, to as int) + (seq![chars@[to as int]]
            + before_separator(chars@.skip(to + 1))) == chars@.subrange(from as int, to + 1)
            + before_separator(chars@.skip(to + 1)));
        to += 1;
    }
    assert(chars@.subrange(from as int, to as int) == segment);
    matches_but_case(&chars, from, to, "send")
}

/// Whether this string is a `whatsapp://` URL, in any casing of the scheme.
pub fn is_whatsapp_url(raw: &str) -> (found: bool)
    ensures
        found == (after_scheme(raw@) is Some),
{
    strip_scheme(raw).is_some()
}

/// Parses a `whatsapp://` URL. Returns `None` for any other string.
pub fn parse(raw: &str) -> (link: Option<DeepLink>)
    ensures
        match link {
            Some(l) => spec_parse(raw@) == Some(l@),
            None => spec_parse(raw@) is None,
        },
{
    match strip_scheme(raw) {
        None => None,
        Some(rest) => {
            let (host, query): (String, String) = match split_once(&rest, '?') {
                Some((h, q)) => (h, q),
                None => {
                    let none: String = String::new();
                    (rest, none)
                },
            };
            if asks_to_send(&host) {
                let pairs: Vec<(String, String)> = parse_query(&query);
                Some(send_link(&pairs))
            } else {
                Some(DeepLink::Other)
            }
        },
    }
}

// ---------------------------------------------------------------------------
// The query.
// ---------------------------------------------------------------------------

/// The value of a hexadecimal digit.
pub open spec fn hex_digit(b: u8) -> Option<u8> {
    if 48 <= b <= 57 {
        Some((b - 48) as u8)
    } else if 65 <= b <= 70 {
        Some((b - 55) as u8)
    } else if 97 <= b <= 102 {
        Some((b - 87) as u8)
    } else {
        None
    }
}

/// The value of the two bytes after a `%`, where both are hexadecimal digits.
pub open spec fn hex_pair(high: u8, low: u8) -> Option<u8> {
    match (hex_digit(high), hex_digit(low)) {
        (Some(h), Some(l)) => Some((16 * h + l) as u8),
        _ => None,
    }
}

/// The bytes that a form-encoded sequence stands for: `%` with a hexadecimal
/// pair is one byte, `+` is a space, any other byte is itself.
pub open spec fn percent_decoded(b: Seq<u8>) -> Seq<u8>
    decreases b.len(),
{
    if b.len() == 0 {
        Seq::empty()
    } else if b[0] == 37 && b.len() >= 3 && hex_pair(b[1], b[2]) is Some {
        seq![hex_pair(b[1], b[2])->0] + percent_decoded(b.skip(3))
    } else if b[0] == 43 {
        seq![32u8] + percent_decoded(b.skip(1))
    } else {
        seq![b[0]] + percent_decoded(b.skip(1))
    }
}

/// The text that `String::from_utf8_lossy` gives for bytes that are not UTF-8.
pub uninterp spec fn lossy_utf8(bytes: Seq<u8>) -> Seq<char>;

/// The text of a byte sequence.
pub open spec fn text_of_bytes(bytes: Seq<u8>) -> Seq<char> {
    if valid_utf8(bytes) {
        decode_utf8(bytes)
    } else {
        lossy_utf8(bytes)
    }
}

/// The text that a form-encoded string stands for.
pub open spec fn form_decoded(s: Seq<char>) -> Seq<char> {
    text_of_bytes(percent_decoded(encode_utf8(s)))
}

/// The key and the value of one piece of a query.
pub open spec fn query_pair(piece: Seq<char>) -> (Seq<char>, Seq<char>) {
    match text::spec_split_once(piece, '=') {
        Some((k, v)) => (form_decoded(k), form_decoded(v)),
        None => (form_decoded(piece), Seq::empty()),
    }
}

/// The key-value pairs of the non-empty pieces, in order.
pub open spec fn pairs_of(pieces: Seq<Seq<char>>) -> Seq<(Seq<char>, Seq<char>)>
    decreases pieces.len(),
{
    if pieces.len() == 0 {
        Seq::empty()
    } else if pieces.last().len() == 0 {
        pairs_of(pieces.drop_last())
    } else {
        pairs_of(pieces.drop_last()).push(query_pair(pieces.last()))
    }
}

/// The key-value pairs of a query string.
pub open spec fn query_pairs(query: Seq<char>) -> Seq<(Seq<char>, Seq<char>)> {
    pairs_of(text::split(query, '&'))
}

/// The views of a list of pairs of strings.
pub open spec fn pair_views(pairs: Seq<(String, String)>) -> Seq<(Seq<char>, Seq<char>)> {
    pairs.map_values(|p: (String, String)| (p.0@, p.1@))
}

fn hex_value(b: u8) -> (v: Option<u8>)
    ensures
        v == hex_digit(b),
        v matches Some(d) ==> d < 16,
{
    if 48 <= b && b <= 57 {
        Some(b - 48)
    } else if 65 <= b && b <= 70 {
        Some(b - 55)
    } else if 97 <= b && b <= 102 {
        Some(b - 87)
    } else {
        None
    }
}

fn hex_pair_value(high: u8, low: u8) -> (v: Option<u8>)
    ensures
        v == hex_pair(high, low),
{
    match (hex_value(high), hex_value(low)) {
        (Some(h), Some(l)) => Some(16 * h + l),
        _ => None,
    }
}

/// The bytes that a form-encoded sequence stands for.
fn percent_decode(b: &[u8]) -> (out: Vec<u8>)
    ensures
        out@ == percent_decoded(b@),
{
    let mut out: Vec<u8> = Vec::new();
    let mut i: usize = 0;
    assert(b@.skip(0) == b@);
    assert(out@ + percent_decoded(b@) == percent_decoded(b@));
    while i < b.len()
        invariant
            i <= b@.len(),
            out@ + percent_decoded(b@.skip(i as int)) == percent_decoded(b@),
        decreases b@.len() - i,
    {
        let ghost rest = b@.skip(i as int);
        let ghost before = out@;
        let escaped: Option<u8> = if b[i] == 37 && b.len() - i >= 3 {
            hex_pair_value(b[i + 1], b[i + 2])
        } else {
            None
        };
        match escaped {
            Some(v) => {
                out.push(v);
                assert(rest.skip(3) == b@.skip(i + 3));
                assert(before + (seq![v] + percent_decoded(b@.skip(i + 3))) == out@
                    + percent_decoded(b@.skip(i + 3)));
                i += 3;
            },
            None => {
                let plain: u8 = if b[i] == 43 {
                    32
                } else {
                    b[i]
                };
                out.push(plain);
                assert(rest.skip(1) == b@.skip(i + 1));
                assert(before + (seq![plain] + percent_decoded(b@.skip(i + 1))) == out@
                    + percent_decoded(b@.skip(i + 1)));
                i += 1;
            },
        }
    }
    assert(b@.skip(i as int).len() == 0);
    assert(out@ + Seq::<u8>::empty() == out@);
    out
}

/// `String::from_utf8_lossy`: the text of `bytes` where they are UTF-8. Where
/// they are not, the text holds U+FFFD for the sequences that are not UTF-8;
/// how many, and where, is not stated here.
#[verifier::external_body]
fn utf8_lossy(bytes: &[u8]) -> (s: String)
    ensures
        s@ == if valid_utf8(bytes@) {
            decode_utf8(bytes@)
        } else {
            lossy_utf8(bytes@)
        },
{
    String::from_utf8_lossy(bytes).into_owned()
}

/// The text that a form-encoded string stands for.
pub fn form_decode(s: &str) -> (text: String)
    ensures
        text@ == form_decoded(s@),
{
    let bytes: Vec<u8> = percent_decode(s.as_bytes());
    utf8_lossy(&bytes)
}

/// The decoded key-value pairs of a query string. A `+` means a space, as in
/// HTML form encoding.
pub fn parse_query(query: &str) -> (pairs: Vec<(String, String)>)
    ensures
        pair_views(pairs@) == query_pairs(query@),
{
    let pieces: Vec<String> = split_string(query, '&');
    let ghost all = text::views(pieces@);
    let mut pairs: Vec<(String, String)> = Vec::new();
    let mut i: usize = 0;
    assert(pair_views(pairs@) == pairs_of(all.take(0)));
    while i < pieces.len()
        invariant
            i <= pieces@.len(),
            all == text::views(pieces@),
            pair_views(pairs@) == pairs_of(all.take(i as int)),
        decreases pieces@.len() - i,
    {
        assert(all.take(i + 1).drop_last() == all.take(i as int));
        assert(all.take(i + 1).last() == pieces@[i as int]@);
        let ghost before = pairs@;
        let piece: &str = pieces[i].as_str();
        if !piece.is_empty() {
            let pair: (String, String) = match split_once(piece, '=') {
                Some((k, v)) => (form_decode(&k), form_decode(&v)),
                None => (form_decode(piece), String::new()),
            };
            pairs.push(pair);
            assert(pair_views(pairs@) == pair_views(before).push((pair.0@, pair.1@)));
        }
        i += 1;
    }
    assert(all.take(i as int) == all);
    pairs
}

// ---------------------------------------------------------------------------
// The send action.
// ---------------------------------------------------------------------------

/// Whether a character is an ASCII digit.
pub open spec fn is_digit(c: char) -> bool {
    '0' <= c <= '9'
}

/// The ASCII digits of `s`, in order.
pub open spec fn digits_of(s: Seq<char>) -> Seq<char>
    decreases s.len(),
{
    if s.len() == 0 {
        Seq::empty()
    } else if is_digit(s.last()) {
        digits_of(s.drop_last()).push(s.last())
    } else {
        digits_of(s.drop_last())
    }
}

/// Whether a query key names the phone number.
pub open spec fn is_phone_key(key: Seq<char>) -> bool {
    key == "phone"@ || key == "to"@ || key == "abid"@
}

/// The digits of the last phone parameter that has any.
pub open spec fn phone_of(pairs: Seq<(Seq<char>, Seq<char>)>) -> Option<Seq<char>>
    decreases pairs.len(),
{
    if pairs.len() == 0 {
        None
    } else if is_phone_key(pairs.last().0) && digits_of(pairs.last().1).len() > 0 {
        Some(digits_of(pairs.last().1))
    } else {
        phone_of(pairs.drop_last())
    }
}

/// The last non-empty `text` parameter.
pub open spec fn text_of(pairs: Seq<(Seq<char>, Seq<char>)>) -> Option<Seq<char>>
    decreases pairs.len(),
{
    if pairs.len() == 0 {
        None
    } else if pairs.last().0 == "text"@ && pairs.last().1.len() > 0 {
        Some(pairs.last().1)
    } else {
        text_of(pairs.drop_last())
    }
}

/// The send link of a list of query parameters.
pub open spec fn spec_send_link(pairs: Seq<(Seq<char>, Seq<char>)>) -> LinkModel {
    LinkModel::Send { phone: phone_of(pairs), text: text_of(pairs) }
}

/// The ASCII digits of `s`, in order.
fn digits(s: &str) -> (d: String)
    ensures
        d@ == digits_of(s@),
{
    let chars: Vec<char> = chars_of(s);
    let mut d: String = String::new();
    let mut i: usize = 0;
    while i < chars.len()
        invariant
            i <= chars@.len(),
            d@ == digits_of(chars@.take(i as int)),
        decreases chars@.len() - i,
    {
        assert(chars@.take(i + 1).drop_last() == chars@.take(i as int));
        let c: char = chars[i];
        if '0' <= c && c <= '9' {
            d.push(c);
        }
        i += 1;
    }
    assert(chars@.take(i as int) == chars@);
    d
}

/// The send link of a list of query parameters: the phone number is the digits
/// of the last phone parameter that has any, the text is the last non-empty
/// `text` parameter.
pub fn send_link(pairs: &Vec<(String, String)>) -> (link: DeepLink)
    ensures
        link@ == spec_send_link(pair_views(pairs@)),
{
    let mut phone: Option<String> = None;
    let mut text: Option<String> = None;
    let ghost all = pair_views(pairs@);
    let mut i: usize = 0;
    while i < pairs.len()
        invariant
            i <= pairs@.len(),
            all == pair_views(pairs@),
            text::opt_string_view(phone) == phone_of(all.take(i as int)),
            text::opt_string_view(text) == text_of(all.take(i as int)),
        decreases pairs@.len() - i,
    {
        assert(all.take(i + 1).drop_last() == all.take(i as int));
        assert(all.take(i + 1).last() == (pairs@[i as int].0@, pairs@[i as int].1@));
        let key: &str = pairs[i].0.as_str();
        let value: &str = pairs[i].1.as_str();
        proof {
            reveal_strlit("phone");
            reveal_strlit("to");
            reveal_strlit("abid");
            reveal_strlit("text");
            assert("text"@[0] == 't' && "phone"@[0] == 'p' && "abid"@[0] == 'a');
            assert("text"@.len() == 4 && "to"@.len() == 2);
        }
        if same_text(key, "phone") || same_text(key, "to") || same_text(key, "abid") {
            let d: String = digits(value);
            if !d.as_str().is_empty() {
                phone = Some(d);
            }
        } else if same_text(key, "text") {
            if !value.is_empty() {
                text = Some(value.to_owned());
            }
        }
        i += 1;
    }
    assert(all.take(i as int) == all);
    DeepLink::Send { phone, text }
}

} // verus!
