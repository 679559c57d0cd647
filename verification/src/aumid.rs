//! The texts and bytes of an AppUserModelID registration.
//!
//! Windows renders a toast only for an id that is registered under the current
//! user's registry key. The id and the name shown for it are registered at every
//! launch, as NUL-terminated UTF-16.

use vstd::prelude::*;
use vstd::string::*;

use crate::text;
use crate::text::{chars_of, joined};

verus! {

/// The UTF-16 code units of a character.
pub open spec fn units_of(c: char) -> Seq<u16> {
    let v = c as u32 as int;
    if v < 0x1_0000 {
        seq![v as u16]
    } else {
        seq![(0xD800 + (v - 0x1_0000) / 0x400) as u16, (0xDC00 + (v - 0x1_0000) % 0x400) as u16]
    }
}

/// The UTF-16 encoding of a text.
pub open spec fn utf16(s: Seq<char>) -> Seq<u16>
    decreases s.len(),
{
    if s.len() == 0 {
        Seq::empty()
    } else {
        utf16(s.drop_last()) + units_of(s.last())
    }
}

/// The UTF-16 encoding of a text, with a NUL at its end.
pub open spec fn spec_wide(s: Seq<char>) -> Seq<u16> {
    utf16(s).push(0)
}

/// The UTF-16 encoding of a text, with a NUL at its end.
pub fn wide(s: &str) -> (units: Vec<u16>)
    ensures
        units@ == utf16(s@).push(0),
        units@ == spec_wide(s@),
{
    let chars: Vec<char> = chars_of(s);
    let mut units: Vec<u16> = Vec::new();
    let mut i: usize = 0;
    while i < chars.len()
        invariant
            i <= chars@.len(),
            units@ == utf16(chars@.take(i as int)),
        decreases chars@.len() - i,
    {
        assert(chars@.take(i + 1).drop_last() == chars@.take(i as int));
        let ghost before = units@;
        let c: u32 = chars[i] as u32;
        if c < 0x1_0000 {
            units.push(c as u16);
        } else {
            units.push((0xD800 + (c - 0x1_0000) / 0x400) as u16);
            units.push((0xDC00 + (c - 0x1_0000) % 0x400) as u16);
        }
        proof {
            vstd::utf8::char_is_scalar(chars@[i as int]);
        }
        assert(units@ == before + units_of(chars@[i as int]));
        i += 1;
    }
    assert(chars@.take(i as int) == chars@);
    units.push(0);
    units
}

/// The bytes of UTF-16 code units, low byte first, as the registry stores them.
pub open spec fn unit_bytes(units: Seq<u16>) -> Seq<u8> {
    Seq::new(
        2 * units.len(),
        |i: int|
            if i % 2 == 0 {
                (units[i / 2] % 256) as u8
            } else {
                (units[i / 2] / 256) as u8
            },
    )
}

/// The bytes of UTF-16 code units, low byte first, as the registry stores them.
pub fn registry_bytes(units: &Vec<u16>) -> (bytes: Vec<u8>)
    ensures
        bytes@ == unit_bytes(units@),
{
    let mut bytes: Vec<u8> = Vec::new();
    let mut i: usize = 0;
    while i < units.len()
        invariant
            i <= units@.len(),
            bytes@ == unit_bytes(units@.take(i as int)),
        decreases units@.len() - i,
    {
        let ghost before = bytes@;
        bytes.push((units[i] % 256) as u8);
        bytes.push((units[i] / 256) as u8);
        i += 1;
        assert(bytes@ == unit_bytes(units@.take(i as int)));
    }
    assert(units@.take(i as int) == units@);
    bytes
}

/// The registry key of an AppUserModelID.
pub open spec fn spec_registry_key(aumid: Seq<char>) -> Seq<char> {
    "Software\\Classes\\AppUserModelId\\"@ + aumid
}

/// The registry key, below that of the current user, of an AppUserModelID.
pub fn registry_key(aumid: &str) -> (key: String)
    ensures
        key@ == "Software\\Classes\\AppUserModelId\\"@ + aumid@,
        key@ == spec_registry_key(aumid@),
{
    joined("Software\\Classes\\AppUserModelId\\", aumid)
}

/// The name shown for the app.
pub open spec fn spec_display_name(product_name: Option<Seq<char>>) -> Seq<char> {
    match product_name {
        Some(n) => n,
        None => "whatRust"@,
    }
}

/// The name shown for the app: its product name, if it has one.
pub fn display_name(product_name: Option<&str>) -> (name: &str)
    ensures
        name@ == match text::opt_str_view(product_name) {
            Some(n) => n,
            None => "whatRust"@,
        },
        name@ == spec_display_name(text::opt_str_view(product_name)),
{
    match product_name {
        Some(n) => n,
        None => "whatRust",
    }
}

// ---------------------------------------------------------------------------
// Laws.
// ---------------------------------------------------------------------------

/// The encoding of a text without NUL has no NUL: in `wide` only the last unit
/// ends it.
pub proof fn law_only_the_end_is_nul(s: Seq<char>)
    requires
        forall|i: int| 0 <= i < s.len() ==> #[trigger] s[i] != '\0',
    ensures
        forall|i: int| 0 <= i < utf16(s).len() ==> #[trigger] utf16(s)[i] != 0,
    decreases s.len(),
{
    if s.len() > 0 {
        let init = s.drop_last();
        assert(forall|i: int| 0 <= i < init.len() ==> init[i] == s[i]);
        law_only_the_end_is_nul(init);
        assert(s[s.len() - 1] != '\0');
        vstd::utf8::char_is_scalar(s.last());
        if s.last() as u32 == 0 {
            vstd::utf8::char_u32_cast(s.last(), 0);
        }
        assert forall|i: int| 0 <= i < utf16(s).len() implies #[trigger] utf16(s)[i] != 0 by {
            if i < utf16(init).len() {
                assert(utf16(s)[i] == utf16(init)[i]);
            } else {
                assert(utf16(s)[i] == units_of(s.last())[i - utf16(init).len()]);
            }
        }
    }
}

/// Different texts have different encodings.
pub proof fn law_utf16_is_injective(s: Seq<char>, t: Seq<char>)
    requires
        utf16(s) == utf16(t),
    ensures
        s == t,
    decreases s.len(),
{
    if s.len() == 0 || t.len() == 0 {
        if s.len() > 0 {
            assert(utf16(s).len() > 0);
        }
        if t.len() > 0 {
            assert(utf16(t).len() > 0);
        }
        assert(s == t);
    } else {
        let u = utf16(s);
        let a = s.last();
        let b = t.last();
        let ua = units_of(a);
        let ub = units_of(b);
        let n = u.len() as int;
        assert(u[n - 1] == ua[ua.len() - 1]);
        assert(u[n - 1] == ub[ub.len() - 1]);
        if ua.len() == 2 {
            assert(u[n - 2] == ua[0]);
        }
        if ub.len() == 2 {
            assert(u[n - 2] == ub[0]);
        }
        vstd::utf8::char_is_scalar(a);
        vstd::utf8::char_is_scalar(b);
        assert(a as u32 == b as u32);
        vstd::utf8::char_u32_cast(a, a as u32);
        vstd::utf8::char_u32_cast(b, b as u32);
        assert(a == b);
        assert(utf16(s.drop_last()) == u.take(n - ua.len()));
        assert(utf16(t.drop_last()) == u.take(n - ub.len()));
        law_utf16_is_injective(s.drop_last(), t.drop_last());
        assert(s == s.drop_last().push(a));
        assert(t == t.drop_last().push(b));
    }
}

/// The scalar value that a pair of surrogates stands for.
pub open spec fn surrogate_value(high: u16, low: u16) -> int {
    0x1_0000 + (high - 0xD800) * 0x400 + (low - 0xDC00)
}

/// The encoding is that of the characters one after another: a character below
/// 0x10000 is one unit, its own number; any other is a high and a low surrogate
/// that stand for it.
pub proof fn law_utf16_by_character(s: Seq<char>, c: char)
    ensures
        utf16(Seq::empty()).len() == 0,
        c as u32 <= 0xFFFF ==> utf16(s.push(c)) == utf16(s).push(c as u16),
        c as u32 > 0xFFFF ==> {
            let u = utf16(s.push(c));
            let n = utf16(s).len() as int;
            &&& u.len() == n + 2
            &&& u.take(n) == utf16(s)
            &&& 0xD800 <= u[n] <= 0xDBFF
            &&& 0xDC00 <= u[n + 1] <= 0xDFFF
            &&& surrogate_value(u[n], u[n + 1]) == c as u32
        },
{
    vstd::utf8::char_is_scalar(c);
    assert(s.push(c).drop_last() == s);
    assert(s.push(c).last() == c);
    let v = c as u32 as int;
    let u = utf16(s.push(c));
    let n = utf16(s).len() as int;
    if v < 0x1_0000 {
        assert(c as u16 == v as u16);
        assert(u == utf16(s).push(v as u16));
    } else {
        let a = (0xD800 + (v - 0x1_0000) / 0x400) as u16;
        let b = (0xDC00 + (v - 0x1_0000) % 0x400) as u16;
        assert(u == utf16(s) + seq![a, b]);
        assert(u[n] == a && u[n + 1] == b);
        assert(u.take(n) == utf16(s));
        assert((v - 0x1_0000) / 0x400 * 0x400 + (v - 0x1_0000) % 0x400 == v - 0x1_0000);
    }
}

/// The NUL stands at the end and adds one unit.
pub proof fn law_wide_ends_with_nul(s: Seq<char>)
    ensures
        spec_wide(s).len() == utf16(s).len() + 1,
        spec_wide(s)[utf16(s).len() as int] == 0,
        spec_wide(s).take(utf16(s).len() as int) == utf16(s),
{
    assert(spec_wide(s).take(utf16(s).len() as int) == utf16(s));
}

/// Each unit is two bytes, the low one first.
pub proof fn law_unit_is_two_bytes(units: Seq<u16>, i: int)
    requires
        0 <= i < units.len(),
    ensures
        unit_bytes(units).len() == 2 * units.len(),
        unit_bytes(units)[2 * i] + 256 * unit_bytes(units)[2 * i + 1] == units[i],
{
    assert((2 * i) / 2 == i && (2 * i + 1) / 2 == i);
    assert((2 * i) % 2 == 0 && (2 * i + 1) % 2 == 1);
}

/// The registry key ends with the id, whatever it is, and what stands before it is
/// always the same.
pub proof fn law_registry_key(aumid: Seq<char>, other: Seq<char>)
    ensures
        ({
            let k = spec_registry_key(aumid);
            let n = "Software\\Classes\\AppUserModelId\\"@.len() as int;
            &&& k.len() == n + aumid.len()
            &&& k.skip(n) == aumid
            &&& k.take(n) == "Software\\Classes\\AppUserModelId\\"@
            &&& spec_registry_key(other).take(n) == k.take(n)
        }),
{
    let n = "Software\\Classes\\AppUserModelId\\"@.len() as int;
    assert(spec_registry_key(aumid).skip(n) == aumid);
    assert(spec_registry_key(aumid).take(n) == "Software\\Classes\\AppUserModelId\\"@);
    assert(spec_registry_key(other).take(n) == "Software\\Classes\\AppUserModelId\\"@);
}

/// A product name is shown as it is, and without one `whatRust`.
pub proof fn law_product_name_is_shown(name: Seq<char>)
    ensures
        spec_display_name(Some(name)) == name,
        spec_display_name(None) == "whatRust"@,
{
}

} // verus!
