//! Identifiers of the per-account webview stores.
//!
//! An identifier is 16 bytes in the shape of an RFC 4122 version 4 UUID. The
//! platform raises an exception on the all-zero identifier, so none is ever
//! made.

use vstd::prelude::*;

verus! {

/// `x` rotated left by `k` bits, for `0 < k < 64`.
pub open spec fn rotated_left(x: u64, k: u64) -> u64 {
    (x << k) | (x >> ((64 - k) as u64))
}

/// The `i`th byte of `x`, counted from the low end.
pub open spec fn low_byte(x: u64, i: u64) -> u8 {
    ((x >> ((8 * i) as u64)) & 0xff) as u8
}

/// The first eight bytes of an identifier, before the version is set.
pub open spec fn high_word(nanos: u64, counter: u64) -> u64 {
    rotated_left(nanos, 17) ^ vstd::wrapping::u64_specs::wrapping_mul(
        counter,
        0x9E37_79B9_7F4A_7C15,
    )
}

/// The last eight bytes of an identifier, before the variant is set.
pub open spec fn low_word(nanos: u64, counter: u64) -> u64 {
    vstd::wrapping::u64_specs::wrapping_add(
        rotated_left(counter, 31),
        vstd::wrapping::u64_specs::wrapping_mul(nanos, 0xD6E8_FEB8_6659_FD93),
    )
}

/// The bytes of two words, low byte first, with the version and the variant set.
pub open spec fn uuid_of_words(hi: u64, lo: u64) -> Seq<u8> {
    Seq::new(
        16,
        |i: int|
            if i == 6 {
                (low_byte(hi, 6) & 0x0F) | 0x40
            } else if i < 8 {
                low_byte(hi, i as u64)
            } else if i == 8 {
                (low_byte(lo, 0) & 0x3F) | 0x80
            } else {
                low_byte(lo, (i - 8) as u64)
            },
    )
}

/// The identifier made of a clock reading and a counter.
pub open spec fn store_uuid(nanos: u64, counter: u64) -> Seq<u8> {
    uuid_of_words(high_word(nanos, counter), low_word(nanos, counter))
}

/// Whether an identifier has the version and variant bits of a version 4 UUID.
pub open spec fn is_v4_shaped(b: Seq<u8>) -> bool {
    &&& b.len() == 16
    &&& b[6] & 0xF0 == 0x40
    &&& b[8] & 0xC0 == 0x80
}

/// Whether an identifier is all zeros.
pub open spec fn is_nil(b: Seq<u8>) -> bool {
    forall|i: int| 0 <= i < b.len() ==> b[i] == 0
}

fn rotate_left(x: u64, k: u64) -> (r: u64)
    requires
        0 < k < 64,
    ensures
        r == rotated_left(x, k),
{
    (x << k) | (x >> (64 - k))
}

fn byte_at(x: u64, i: u64) -> (b: u8)
    requires
        i < 8,
    ensures
        b == low_byte(x, i),
{
    ((x >> (8 * i)) & 0xff) as u8
}

/// The identifier made of a clock reading and a counter. It has the shape of a
/// version 4 UUID and is never all zeros.
pub fn make_store_uuid(nanos: u64, counter: u64) -> (b: [u8; 16])
    ensures
        b@ == store_uuid(nanos, counter),
        is_v4_shaped(b@),
        !is_nil(b@),
{
    let hi: u64 = rotate_left(nanos, 17) ^ counter.wrapping_mul(0x9E37_79B9_7F4A_7C15);
    let lo: u64 = rotate_left(counter, 31).wrapping_add(nanos.wrapping_mul(0xD6E8_FEB8_6659_FD93));
    let version: u8 = (byte_at(hi, 6) & 0x0F) | 0x40;
    let variant: u8 = (byte_at(lo, 0) & 0x3F) | 0x80;
    let b: [u8; 16] = [
        byte_at(hi, 0),
        byte_at(hi, 1),
        byte_at(hi, 2),
        byte_at(hi, 3),
        byte_at(hi, 4),
        byte_at(hi, 5),
        version,
        byte_at(hi, 7),
        variant,
        byte_at(lo, 1),
        byte_at(lo, 2),
        byte_at(lo, 3),
        byte_at(lo, 4),
        byte_at(lo, 5),
        byte_at(lo, 6),
        byte_at(lo, 7),
    ];
    proof {
        assert(b@ == store_uuid(nanos, counter));
        law_store_uuid_is_v4_and_not_nil(nanos, counter);
    }
    b
}

/// The source of the counters that keep apart the identifiers made by one
/// process, also those made at one clock reading.
#[derive(Debug)]
pub struct StoreIds {
    pub counter: u64,
}

impl StoreIds {
    /// A source that has given no counter yet.
    pub fn new() -> (ids: Self)
        ensures
            ids.counter == 0,
    {
        StoreIds { counter: 0 }
    }

    /// The next counter; after the last one they start again.
    pub fn take(&mut self) -> (counter: u64)
        ensures
            counter == old(self).counter,
            final(self).counter == vstd::wrapping::u64_specs::wrapping_add(old(self).counter, 1),
    {
        let counter: u64 = self.counter;
        self.counter = counter.wrapping_add(1);
        counter
    }
}

/// `SystemTime::elapsed` on the Unix epoch: the nanoseconds since then, `None`
/// where the clock stands before it. Nothing is claimed of the reading.
#[verifier::external_body]
fn nanos_since_epoch() -> (reading: Option<u128>) {
    match std::time::UNIX_EPOCH.elapsed() {
        Ok(d) => Some(d.as_nanos()),
        Err(_) => None,
    }
}

/// What an identifier takes from a clock reading: its low 64 bits, and zero for
/// a clock before the epoch.
pub open spec fn spec_clock_word(reading: Option<u128>) -> u64 {
    match reading {
        Some(n) => (n % 0x1_0000_0000_0000_0000) as u64,
        None => 0,
    }
}

/// What an identifier takes from a clock reading: its low 64 bits, and zero for
/// a clock before the epoch.
pub fn clock_word(reading: Option<u128>) -> (nanos: u64)
    ensures
        nanos == spec_clock_word(reading),
{
    match reading {
        Some(n) => (n % 0x1_0000_0000_0000_0000) as u64,
        None => 0,
    }
}

/// Makes an identifier of a clock reading and the next counter.
pub fn store_uuid_at(reading: Option<u128>, ids: &mut StoreIds) -> (b: [u8; 16])
    ensures
        b@ == store_uuid(spec_clock_word(reading), old(ids).counter),
        is_v4_shaped(b@),
        !is_nil(b@),
        final(ids).counter == vstd::wrapping::u64_specs::wrapping_add(old(ids).counter, 1),
{
    let counter: u64 = ids.take();
    make_store_uuid(clock_word(reading), counter)
}

/// Makes an identifier of the current time and the next counter.
///
/// What the clock reads is open, so the contract says which identifiers can
/// come out: those that `store_uuid_at` makes of some reading and this counter.
pub fn gen_store_uuid(ids: &mut StoreIds) -> (b: [u8; 16])
    ensures
        exists|reading: Option<u128>|
            b@ == store_uuid(#[trigger] spec_clock_word(reading), old(ids).counter),
        is_v4_shaped(b@),
        !is_nil(b@),
        final(ids).counter == vstd::wrapping::u64_specs::wrapping_add(old(ids).counter, 1),
{
    let reading: Option<u128> = nanos_since_epoch();
    store_uuid_at(reading, ids)
}

// ---------------------------------------------------------------------------
// Laws.
// ---------------------------------------------------------------------------

/// Every identifier has the shape of a version 4 UUID and is not all zeros.
pub proof fn law_store_uuid_is_v4_and_not_nil(nanos: u64, counter: u64)
    ensures
        is_v4_shaped(store_uuid(nanos, counter)),
        !is_nil(store_uuid(nanos, counter)),
{
    let b = store_uuid(nanos, counter);
    let v = low_byte(high_word(nanos, counter), 6);
    let w = low_byte(low_word(nanos, counter), 0);
    assert(((v & 0x0F) | 0x40u8) & 0xF0 == 0x40) by (bit_vector);
    assert(((w & 0x3F) | 0x80u8) & 0xC0 == 0x80) by (bit_vector);
    assert(((v & 0x0F) | 0x40u8) != 0) by (bit_vector);
    assert(b[6] != 0);
}

/// Whether two high words agree but in the bits that the version takes.
spec fn high_words_agree(h1: u64, h2: u64) -> bool {
    (h1 ^ h2) & 0xff0f_ffff_ffff_ffff == 0
}

/// Whether two low words agree but in the bits that the variant takes.
spec fn low_words_agree(l1: u64, l2: u64) -> bool {
    (l1 ^ l2) & 0xffff_ffff_ffff_ff3f == 0
}

/// The bytes of an identifier, one by one.
proof fn lemma_bytes_of_words(hi: u64, lo: u64)
    ensures
        uuid_of_words(hi, lo)[0] == low_byte(hi, 0),
        uuid_of_words(hi, lo)[1] == low_byte(hi, 1),
        uuid_of_words(hi, lo)[2] == low_byte(hi, 2),
        uuid_of_words(hi, lo)[3] == low_byte(hi, 3),
        uuid_of_words(hi, lo)[4] == low_byte(hi, 4),
        uuid_of_words(hi, lo)[5] == low_byte(hi, 5),
        uuid_of_words(hi, lo)[6] == (low_byte(hi, 6) & 0x0F) | 0x40,
        uuid_of_words(hi, lo)[7] == low_byte(hi, 7),
        uuid_of_words(hi, lo)[8] == (low_byte(lo, 0) & 0x3F) | 0x80,
        uuid_of_words(hi, lo)[9] == low_byte(lo, 1),
        uuid_of_words(hi, lo)[10] == low_byte(lo, 2),
        uuid_of_words(hi, lo)[11] == low_byte(lo, 3),
        uuid_of_words(hi, lo)[12] == low_byte(lo, 4),
        uuid_of_words(hi, lo)[13] == low_byte(lo, 5),
        uuid_of_words(hi, lo)[14] == low_byte(lo, 6),
        uuid_of_words(hi, lo)[15] == low_byte(lo, 7),
{
}

/// Equal identifiers come of words that agree.
#[verifier::spinoff_prover]
proof fn lemma_equal_words(h1: u64, l1: u64, h2: u64, l2: u64)
    requires
        uuid_of_words(h1, l1) == uuid_of_words(h2, l2),
    ensures
        high_words_agree(h1, h2),
        low_words_agree(l1, l2),
{
    lemma_bytes_of_words(h1, l1);
    lemma_bytes_of_words(h2, l2);
    assert(high_words_agree(h1, h2)) by (bit_vector)
        requires
            low_byte(h1, 0) == low_byte(h2, 0),
            low_byte(h1, 1) == low_byte(h2, 1),
            low_byte(h1, 2) == low_byte(h2, 2),
            low_byte(h1, 3) == low_byte(h2, 3),
            low_byte(h1, 4) == low_byte(h2, 4),
            low_byte(h1, 5) == low_byte(h2, 5),
            (low_byte(h1, 6) & 0x0F) | 0x40 == (low_byte(h2, 6) & 0x0F) | 0x40,
            low_byte(h1, 7) == low_byte(h2, 7),
    ;
    assert(low_words_agree(l1, l2)) by (bit_vector)
        requires
            (low_byte(l1, 0) & 0x3F) | 0x80 == (low_byte(l2, 0) & 0x3F) | 0x80,
            low_byte(l1, 1) == low_byte(l2, 1),
            low_byte(l1, 2) == low_byte(l2, 2),
            low_byte(l1, 3) == low_byte(l2, 3),
            low_byte(l1, 4) == low_byte(l2, 4),
            low_byte(l1, 5) == low_byte(l2, 5),
            low_byte(l1, 6) == low_byte(l2, 6),
            low_byte(l1, 7) == low_byte(l2, 7),
    ;
}

proof fn lemma_equal_identifiers(n1: u64, c1: u64, n2: u64, c2: u64)
    requires
        store_uuid(n1, c1) == store_uuid(n2, c2),
    ensures
        high_words_agree(high_word(n1, c1), high_word(n2, c2)),
        low_words_agree(low_word(n1, c1), low_word(n2, c2)),
{
    lemma_equal_words(
        high_word(n1, c1),
        low_word(n1, c1),
        high_word(n2, c2),
        low_word(n2, c2),
    );
}

/// An integer whose product with the odd multiplier is a multiple of 2^52 is one
/// itself.
proof fn lemma_multiplier_is_invertible(d: int, q: int)
    requires
        d * 0x9E37_79B9_7F4A_7C15 == q * 0x10_0000_0000_0000,
    ensures
        d % 0x10_0000_0000_0000 == 0,
{
    // 4085654635377469 is the inverse of the multiplier modulo 2^52.
    let z = q * 4085654635377469 - d * 10342700773199193759;
    assert(0x9E37_79B9_7F4A_7C15 * 4085654635377469 == 1 + 10342700773199193759
        * 0x10_0000_0000_0000);
    assert(d == z * 0x10_0000_0000_0000);
}

/// Two integers whose low 64 bits agree in the low 52 bits differ by a multiple
/// of 2^52.
proof fn lemma_same_low_bits(x: int, y: int)
    requires
        (x % 0x1_0000_0000_0000_0000) % 0x10_0000_0000_0000 == (y % 0x1_0000_0000_0000_0000)
            % 0x10_0000_0000_0000,
    ensures
        x - y == ((x - y) / 0x10_0000_0000_0000) * 0x10_0000_0000_0000,
{
    vstd::arithmetic::div_mod::lemma_mod_mod(x, 0x10_0000_0000_0000, 0x1000);
    vstd::arithmetic::div_mod::lemma_mod_mod(y, 0x10_0000_0000_0000, 0x1000);
    assert((x - y) % 0x10_0000_0000_0000 == 0);
}

/// The wrapping product with the multiplier, as a remainder.
proof fn lemma_wrapped_product(c: u64)
    ensures
        vstd::wrapping::u64_specs::wrapping_mul(c, 0x9E37_79B9_7F4A_7C15) == (c
            * 0x9E37_79B9_7F4A_7C15) % 0x1_0000_0000_0000_0000,
{
}

/// Integers that differ by a multiple of 2^52 have the same low 52 bits.
proof fn lemma_equal_remainders(x: int, y: int)
    requires
        (x - y) % 0x10_0000_0000_0000 == 0,
    ensures
        x % 0x10_0000_0000_0000 == y % 0x10_0000_0000_0000,
{
}

/// The low 52 bits of a counter can be read back from those of its product with
/// the odd multiplier.
proof fn lemma_multiplier_keeps_low_bits(c1: u64, c2: u64)
    requires
        vstd::wrapping::u64_specs::wrapping_mul(c1, 0x9E37_79B9_7F4A_7C15) % 0x10_0000_0000_0000
            == vstd::wrapping::u64_specs::wrapping_mul(c2, 0x9E37_79B9_7F4A_7C15)
            % 0x10_0000_0000_0000,
    ensures
        c1 % 0x10_0000_0000_0000 == c2 % 0x10_0000_0000_0000,
{
    let m: int = 0x9E37_79B9_7F4A_7C15;
    let x: int = c1 * m;
    let y: int = c2 * m;
    lemma_wrapped_product(c1);
    lemma_wrapped_product(c2);
    lemma_same_low_bits(x, y);
    assert(x - y == (c1 - c2) * m) by (nonlinear_arith)
        requires
            x == c1 * m,
            y == c2 * m,
    ;
    lemma_multiplier_is_invertible(c1 - c2, (x - y) / 0x10_0000_0000_0000);
    lemma_equal_remainders(c1 as int, c2 as int);
}

/// Identifiers made at one clock reading with different counters differ.
pub proof fn law_counters_keep_identifiers_apart(nanos: u64, c1: u64, c2: u64)
    requires
        c1 != c2,
    ensures
        store_uuid(nanos, c1) != store_uuid(nanos, c2),
{
    if store_uuid(nanos, c1) == store_uuid(nanos, c2) {
        let h1 = high_word(nanos, c1);
        let h2 = high_word(nanos, c2);
        let l1 = low_word(nanos, c1);
        let l2 = low_word(nanos, c2);
        let r = rotated_left(nanos, 17);
        let p1 = vstd::wrapping::u64_specs::wrapping_mul(c1, 0x9E37_79B9_7F4A_7C15);
        let p2 = vstd::wrapping::u64_specs::wrapping_mul(c2, 0x9E37_79B9_7F4A_7C15);
        let t = vstd::wrapping::u64_specs::wrapping_mul(nanos, 0xD6E8_FEB8_6659_FD93);
        let x1 = rotated_left(c1, 31);
        let x2 = rotated_left(c2, 31);
        lemma_equal_identifiers(nanos, c1, nanos, c2);
        assert(p1 % 0x10_0000_0000_0000 == p2 % 0x10_0000_0000_0000) by (bit_vector)
            requires
                h1 == r ^ p1,
                h2 == r ^ p2,
                high_words_agree(h1, h2),
        ;
        lemma_multiplier_keeps_low_bits(c1, c2);
        assert(x1 + t == l1 + 0 || x1 + t == l1 + 0x1_0000_0000_0000_0000);
        assert(x2 + t == l2 + 0 || x2 + t == l2 + 0x1_0000_0000_0000_0000);
        assert(c1 == c2) by (bit_vector)
            requires
                c1 % 0x10_0000_0000_0000 == c2 % 0x10_0000_0000_0000,
                x1 == rotated_left(c1, 31),
                x2 == rotated_left(c2, 31),
                x1 + t == l1 + 0 || x1 + t == l1 + 0x1_0000_0000_0000_0000,
                x2 + t == l2 + 0 || x2 + t == l2 + 0x1_0000_0000_0000_0000,
                low_words_agree(l1, l2),
        ;
    }
}

/// The difference of two readings whose products with the odd multiplier differ by
/// `a`, all modulo 2^64. The factor is the inverse of the multiplier.
#[verifier::opaque]
spec fn gap(a: int) -> u64 {
    ((a * 0xCFEE444D8B59A89B) % 0x1_0000_0000_0000_0000) as u64
}

/// Whether `n1` is `n2` plus `x`, modulo 2^64.
spec fn apart_by(n1: u64, n2: u64, x: u64) -> bool {
    n2 + x == n1 + 0 || n2 + x == n1 + 0x1_0000_0000_0000_0000
}

#[verifier::spinoff_prover]
proof fn lemma_gap(n1: u64, n2: u64, a: int)
    requires
        (n1 * 0xD6E8_FEB8_6659_FD93 - n2 * 0xD6E8_FEB8_6659_FD93 - a) % 0x1_0000_0000_0000_0000
            == 0,
    ensures
        apart_by(n1, n2, gap(a)),
{
    reveal(gap);
    let w: int = 0x1_0000_0000_0000_0000;
    let d: int = n1 - n2;
    let q: int = (d * 0xD6E8_FEB8_6659_FD93 - a) / w;
    let s: int = (a * 0xCFEE444D8B59A89B) / w;
    assert(d * 0xD6E8_FEB8_6659_FD93 - a == q * w);
    assert(0xD6E8_FEB8_6659_FD93 * 0xCFEE444D8B59A89B == 1 + 12578109465933073204 * w);
    assert(d - a * 0xCFEE444D8B59A89B == (q * 0xCFEE444D8B59A89B - d * 12578109465933073204) * w);
    assert(a * 0xCFEE444D8B59A89B == gap(a) + s * w);
    assert(d - gap(a) == (q * 0xCFEE444D8B59A89B - d * 12578109465933073204 + s) * w);
}

/// `n1` minus `n2`, modulo 2^64.
spec fn difference(n1: u64, n2: u64) -> u64 {
    if n1 >= n2 {
        (n1 - n2) as u64
    } else {
        (n1 - n2 + 0x1_0000_0000_0000_0000) as u64
    }
}

proof fn lemma_difference(n1: u64, n2: u64, x: u64)
    ensures
        apart_by(n1, n2, x) <==> x == difference(n1, n2),
{
}

/// Whether `x` is the gap of a number that is `diff` but in the bits that the
/// variant takes.
spec fn is_gap_near(x: u64, diff: int) -> bool {
    ||| x == gap(diff)
    ||| x == gap(diff + 64)
    ||| x == gap(diff - 64)
    ||| x == gap(diff + 128)
    ||| x == gap(diff - 128)
    ||| x == gap(diff + 192)
    ||| x == gap(diff - 192)
}

/// Words that agree but in the bits of the variant differ by few amounts.
proof fn lemma_agreeing_words(l1: u64, l2: u64)
    by (bit_vector)
    requires
        low_words_agree(l1, l2),
    ensures
        l1 == l2 + 0 || l1 == l2 + 64 || l1 + 64 == l2 + 0 || l1 == l2 + 128 || l1 + 128 == l2 + 0
            || l1 == l2 + 192 || l1 + 192 == l2 + 0,
{
}

proof fn lemma_congruent_products(r1: int, m1: int, l1: int, r2: int, m2: int, l2: int, diff: int)
    requires
        (r1 + m1 - l1) % 0x1_0000_0000_0000_0000 == 0,
        (r2 + m2 - l2) % 0x1_0000_0000_0000_0000 == 0,
        (r1 + diff - r2) % 0x1_0000_0000_0000_0000 == 0,
    ensures
        (m1 - m2 - (diff + (l1 - l2))) % 0x1_0000_0000_0000_0000 == 0,
{
    let w: int = 0x1_0000_0000_0000_0000;
    let a: int = (r1 + m1 - l1) / w;
    let b: int = (r2 + m2 - l2) / w;
    let c: int = (r1 + diff - r2) / w;
    assert(m1 - m2 - (diff + (l1 - l2)) == (a - b - c) * w);
}

/// How far two readings are apart whose low words agree, where the rotated counter
/// of the second is that of the first plus `diff`.
proof fn lemma_low_words(n1: u64, c1: u64, n2: u64, c2: u64, diff: int)
    requires
        low_words_agree(low_word(n1, c1), low_word(n2, c2)),
        (rotated_left(c1, 31) + diff - rotated_left(c2, 31)) % 0x1_0000_0000_0000_0000 == 0,
    ensures
        is_gap_near(difference(n1, n2), diff),
{
    let l1 = low_word(n1, c1);
    let l2 = low_word(n2, c2);
    lemma_low_word(n1, c1);
    lemma_low_word(n2, c2);
    lemma_congruent_products(
        rotated_left(c1, 31) as int,
        n1 * 0xD6E8_FEB8_6659_FD93,
        l1 as int,
        rotated_left(c2, 31) as int,
        n2 * 0xD6E8_FEB8_6659_FD93,
        l2 as int,
        diff,
    );
    lemma_near_gap(n1, n2, l1, l2, diff);
}

proof fn lemma_near_gap(n1: u64, n2: u64, l1: u64, l2: u64, diff: int)
    requires
        low_words_agree(l1, l2),
        (n1 * 0xD6E8_FEB8_6659_FD93 - n2 * 0xD6E8_FEB8_6659_FD93 - (diff + (l1 - l2)))
            % 0x1_0000_0000_0000_0000 == 0,
    ensures
        is_gap_near(difference(n1, n2), diff),
{
    lemma_agreeing_words(l1, l2);
    lemma_gap(n1, n2, diff + (l1 - l2));
    lemma_difference(n1, n2, gap(diff + (l1 - l2)));
}

/// The low word as a remainder.
#[verifier::spinoff_prover]
proof fn lemma_low_word(n: u64, c: u64)
    ensures
        (rotated_left(c, 31) + n * 0xD6E8_FEB8_6659_FD93 - low_word(n, c))
            % 0x1_0000_0000_0000_0000 == 0,
{
    let t = vstd::wrapping::u64_specs::wrapping_mul(n, 0xD6E8_FEB8_6659_FD93);
    assert(t == (n * 0xD6E8_FEB8_6659_FD93) % 0x1_0000_0000_0000_0000);
    assert((n * 0xD6E8_FEB8_6659_FD93 - t) % 0x1_0000_0000_0000_0000 == 0);
}

proof fn lemma_gaps_at_one_counter(x: u64)
    requires
        is_gap_near(x, 0),
    ensures
        x == 0 || x == 18127291290367960768 || x == 319452783341590848
            || x == 17807838507026369920 || x == 638905566683181696 || x == 17488385723684779072
            || x == 958358350024772544,
{
    reveal(gap);
    assert(gap(0) == 0);
    assert(gap(64) == 18127291290367960768);
    assert(gap(-64) == 319452783341590848);
    assert(gap(128) == 17807838507026369920);
    assert(gap(-128) == 638905566683181696);
    assert(gap(192) == 17488385723684779072);
    assert(gap(-192) == 958358350024772544);
}

proof fn lemma_high_words_at_one_counter(n1: u64, n2: u64, p: u64, x: u64)
    by (bit_vector)
    requires
        x == 0 || x == 18127291290367960768 || x == 319452783341590848
            || x == 17807838507026369920 || x == 638905566683181696 || x == 17488385723684779072
            || x == 958358350024772544,
        apart_by(n1, n2, x),
        n1 != n2,
    ensures
        !high_words_agree(rotated_left(n1, 17) ^ p, rotated_left(n2, 17) ^ p),
{
}

/// Identifiers made with one counter at different clock readings differ: those of
/// the first accounts that two runs of the program add among them.
pub proof fn law_readings_keep_identifiers_apart(n1: u64, n2: u64, counter: u64)
    requires
        n1 != n2,
    ensures
        store_uuid(n1, counter) != store_uuid(n2, counter),
{
    if store_uuid(n1, counter) == store_uuid(n2, counter) {
        let p = vstd::wrapping::u64_specs::wrapping_mul(counter, 0x9E37_79B9_7F4A_7C15);
        lemma_equal_identifiers(n1, counter, n2, counter);
        lemma_low_words(n1, counter, n2, counter, 0);
        let x = difference(n1, n2);
        lemma_difference(n1, n2, x);
        lemma_gaps_at_one_counter(x);
        lemma_high_words_at_one_counter(n1, n2, p, x);
    }
}

proof fn lemma_gaps_at_next_counter(x: u64)
    requires
        is_gap_near(x, 2147483648),
    ensures
        x == 14243993150791090176 || x == 13924540367449499328 || x == 14563445934132681024
            || x == 13605087584107908480 || x == 14882898717474271872 || x == 13285634800766317632
            || x == 15202351500815862720,
{
    reveal(gap);
    assert(gap(2147483648) == 14243993150791090176);
    assert(gap(2147483712) == 13924540367449499328);
    assert(gap(2147483584) == 14563445934132681024);
    assert(gap(2147483776) == 13605087584107908480);
    assert(gap(2147483520) == 14882898717474271872);
    assert(gap(2147483840) == 13285634800766317632);
    assert(gap(2147483456) == 15202351500815862720);
}

proof fn lemma_high_words_at_next_counter(n1: u64, n2: u64, p1: u64, p2: u64, x: u64)
    by (bit_vector)
    requires
        x == 14243993150791090176 || x == 13924540367449499328 || x == 14563445934132681024
            || x == 13605087584107908480 || x == 14882898717474271872 || x == 13285634800766317632
            || x == 15202351500815862720,
        apart_by(n1, n2, x),
        apart_by(p2, p1, 0x9E37_79B9_7F4A_7C15),
    ensures
        !high_words_agree(rotated_left(n1, 17) ^ p1, rotated_left(n2, 17) ^ p2),
{
}

proof fn lemma_gaps_at_carry(x: u64)
    requires
        is_gap_near(x, 2147483649),
    ensures
        x == 10780237187230836891 || x == 10460784403889246043 || x == 11099689970572427739
            || x == 10141331620547655195 || x == 11419142753914018587 || x == 9821878837206064347
            || x == 11738595537255609435,
{
    reveal(gap);
    assert(gap(2147483649) == 10780237187230836891);
    assert(gap(2147483713) == 10460784403889246043);
    assert(gap(2147483585) == 11099689970572427739);
    assert(gap(2147483777) == 10141331620547655195);
    assert(gap(2147483521) == 11419142753914018587);
    assert(gap(2147483841) == 9821878837206064347);
    assert(gap(2147483457) == 11738595537255609435);
}

proof fn lemma_high_words_at_carry(n1: u64, n2: u64, p1: u64, p2: u64, x: u64)
    by (bit_vector)
    requires
        x == 10780237187230836891 || x == 10460784403889246043 || x == 11099689970572427739
            || x == 10141331620547655195 || x == 11419142753914018587 || x == 9821878837206064347
            || x == 11738595537255609435,
        apart_by(n1, n2, x),
        apart_by(p2, p1, 0x9E37_79B9_7F4A_7C15),
        p2 & 0x1_ffff_ffff == 0,
    ensures
        !high_words_agree(rotated_left(n1, 17) ^ p1, rotated_left(n2, 17) ^ p2),
{
}

proof fn lemma_gaps_at_wrap(x: u64)
    requires
        is_gap_near(x, 1),
    ensures
        x == 14982988110149298331 || x == 14663535326807707483 || x == 15302440893490889179
            || x == 14344082543466116635 || x == 15621893676832480027 || x == 14024629760124525787
            || x == 15941346460174070875,
{
    reveal(gap);
    assert(gap(1) == 14982988110149298331);
    assert(gap(65) == 14663535326807707483);
    assert(gap(-63) == 15302440893490889179);
    assert(gap(129) == 14344082543466116635);
    assert(gap(-127) == 15621893676832480027);
    assert(gap(193) == 14024629760124525787);
    assert(gap(-191) == 15941346460174070875);
}

proof fn lemma_high_words_at_wrap(n1: u64, n2: u64, p1: u64, p2: u64, x: u64)
    by (bit_vector)
    requires
        x == 14982988110149298331 || x == 14663535326807707483 || x == 15302440893490889179
            || x == 14344082543466116635 || x == 15621893676832480027 || x == 14024629760124525787
            || x == 15941346460174070875,
        apart_by(n1, n2, x),
        apart_by(p2, p1, 0x9E37_79B9_7F4A_7C15),
        p2 == 0,
    ensures
        !high_words_agree(rotated_left(n1, 17) ^ p1, rotated_left(n2, 17) ^ p2),
{
}

/// The product of a multiple of 2^33 is one too.
proof fn lemma_multiple_of_carry(c: u64)
    requires
        c % 0x2_0000_0000 == 0,
    ensures
        vstd::wrapping::u64_specs::wrapping_mul(c, 0x9E37_79B9_7F4A_7C15) % 0x2_0000_0000 == 0,
{
    let j: int = c as int / 0x2_0000_0000;
    let x: int = c * 0x9E37_79B9_7F4A_7C15;
    lemma_wrapped_product(c);
    assert(x == (j * 0x9E37_79B9_7F4A_7C15) * 0x2_0000_0000);
    vstd::arithmetic::div_mod::lemma_mod_mod(x, 0x2_0000_0000, 0x8000_0000);
}

/// The product of the next counter is that of a counter plus the multiplier.
#[verifier::spinoff_prover]
proof fn lemma_next_product(c: u64, next: u64)
    requires
        next == vstd::wrapping::u64_specs::wrapping_add(c, 1),
    ensures
        apart_by(
            vstd::wrapping::u64_specs::wrapping_mul(next, 0x9E37_79B9_7F4A_7C15),
            vstd::wrapping::u64_specs::wrapping_mul(c, 0x9E37_79B9_7F4A_7C15),
            0x9E37_79B9_7F4A_7C15,
        ),
{
    let w: int = 0x1_0000_0000_0000_0000;
    let k: int = 0x9E37_79B9_7F4A_7C15;
    let q1: int = (c * k) / w;
    let q2: int = (next * k) / w;
    let p1: int = (c * k) % w;
    let p2: int = (next * k) % w;
    lemma_wrapped_product(c);
    lemma_wrapped_product(next);
    assert(c * k == q1 * w + p1);
    assert(next * k == q2 * w + p2);
    if c == u64::MAX {
        assert(p1 + k - p2 == (q2 - q1 + k) * w);
    } else {
        assert(p1 + k - p2 == (q2 - q1) * w);
    }
}

/// The next counter, where its low 33 bits do not start over.
#[verifier::spinoff_prover]
proof fn lemma_successive(n1: u64, n2: u64, c: u64, next: u64)
    requires
        next == vstd::wrapping::u64_specs::wrapping_add(c, 1),
        c % 0x2_0000_0000 != 0x1_ffff_ffff,
    ensures
        store_uuid(n1, c) != store_uuid(n2, next),
{
    if store_uuid(n1, c) == store_uuid(n2, next) {
        let p1 = vstd::wrapping::u64_specs::wrapping_mul(c, 0x9E37_79B9_7F4A_7C15);
        let p2 = vstd::wrapping::u64_specs::wrapping_mul(next, 0x9E37_79B9_7F4A_7C15);
        let r1 = rotated_left(c, 31);
        let r2 = rotated_left(next, 31);
        assert(r1 + 0x8000_0000 == r2 + 0 || r1 + 0x8000_0000 == r2 + 0x1_0000_0000_0000_0000) by (bit_vector)
            requires
                c % 0x2_0000_0000 != 0x1_ffff_ffff,
                next == c + 1,
                r1 == rotated_left(c, 31),
                r2 == rotated_left(next, 31),
        ;
        let x = difference(n1, n2);
        lemma_difference(n1, n2, x);
        lemma_equal_identifiers(n1, c, n2, next);
        lemma_next_product(c, next);
        lemma_low_words(n1, c, n2, next, 2147483648);
        lemma_gaps_at_next_counter(x);
        lemma_high_words_at_next_counter(n1, n2, p1, p2, x);
    }
}

/// The next counter, where only its low 33 bits start over.
#[verifier::spinoff_prover]
proof fn lemma_successive_at_carry(n1: u64, n2: u64, c: u64, next: u64)
    requires
        next == vstd::wrapping::u64_specs::wrapping_add(c, 1),
        c % 0x2_0000_0000 == 0x1_ffff_ffff,
        c != u64::MAX,
    ensures
        store_uuid(n1, c) != store_uuid(n2, next),
{
    if store_uuid(n1, c) == store_uuid(n2, next) {
        let p1 = vstd::wrapping::u64_specs::wrapping_mul(c, 0x9E37_79B9_7F4A_7C15);
        let p2 = vstd::wrapping::u64_specs::wrapping_mul(next, 0x9E37_79B9_7F4A_7C15);
        let r1 = rotated_left(c, 31);
        let r2 = rotated_left(next, 31);
        assert(r1 + 0x8000_0001 == r2 + 0 || r1 + 0x8000_0001 == r2 + 0x1_0000_0000_0000_0000) by (bit_vector)
            requires
                c % 0x2_0000_0000 == 0x1_ffff_ffff,
                c != 0xffff_ffff_ffff_ffff,
                next == c + 1,
                r1 == rotated_left(c, 31),
                r2 == rotated_left(next, 31),
        ;
        let x = difference(n1, n2);
        lemma_difference(n1, n2, x);
        lemma_equal_identifiers(n1, c, n2, next);
        lemma_next_product(c, next);
        lemma_multiple_of_carry(next);
        assert(p2 & 0x1_ffff_ffff == 0) by (bit_vector)
            requires
                p2 % 0x2_0000_0000 == 0,
        ;
        lemma_low_words(n1, c, n2, next, 2147483649);
        lemma_gaps_at_carry(x);
        lemma_high_words_at_carry(n1, n2, p1, p2, x);
    }
}

/// The counter that follows the last one.
#[verifier::spinoff_prover]
proof fn lemma_successive_at_wrap(n1: u64, n2: u64, c: u64, next: u64)
    requires
        c == u64::MAX,
        next == 0,
    ensures
        store_uuid(n1, c) != store_uuid(n2, next),
{
    if store_uuid(n1, c) == store_uuid(n2, next) {
        let p1 = vstd::wrapping::u64_specs::wrapping_mul(c, 0x9E37_79B9_7F4A_7C15);
        let p2 = vstd::wrapping::u64_specs::wrapping_mul(next, 0x9E37_79B9_7F4A_7C15);
        assert(rotated_left(0xffff_ffff_ffff_ffff, 31) == 0xffff_ffff_ffff_ffff && rotated_left(
            0,
            31,
        ) == 0) by (bit_vector);
        let x = difference(n1, n2);
        lemma_difference(n1, n2, x);
        lemma_equal_identifiers(n1, c, n2, next);
        lemma_next_product(c, next);
        lemma_low_words(n1, c, n2, next, 1);
        lemma_gaps_at_wrap(x);
        lemma_high_words_at_wrap(n1, n2, p1, p2, x);
    }
}

/// Two identifiers made one after the other differ, whatever the clock reads.
pub proof fn law_successive_identifiers_differ(n1: u64, n2: u64, counter: u64)
    ensures
        store_uuid(n1, counter) != store_uuid(
            n2,
            vstd::wrapping::u64_specs::wrapping_add(counter, 1),
        ),
{
    let next = vstd::wrapping::u64_specs::wrapping_add(counter, 1);
    if counter == u64::MAX {
        lemma_successive_at_wrap(n1, n2, counter, next);
    } else if counter % 0x2_0000_0000 == 0x1_ffff_ffff {
        lemma_successive_at_carry(n1, n2, counter, next);
    } else {
        lemma_successive(n1, n2, counter, next);
    }
}

/// The bytes of a word are its digits in base 256, the lowest first.
proof fn lemma_bytes(x: u64)
    ensures
        low_byte(x, 0) == x % 0x100,
        low_byte(x, 1) == x / 0x100 % 0x100,
        low_byte(x, 2) == x / 0x1_0000 % 0x100,
        low_byte(x, 3) == x / 0x100_0000 % 0x100,
        low_byte(x, 4) == x / 0x1_0000_0000 % 0x100,
        low_byte(x, 5) == x / 0x100_0000_0000 % 0x100,
        low_byte(x, 6) == x / 0x1_0000_0000_0000 % 0x100,
        low_byte(x, 7) == x / 0x100_0000_0000_0000 % 0x100,
{
    assert(low_byte(x, 0) == x % 0x100 && low_byte(x, 1) == x / 0x100 % 0x100 && low_byte(x, 2)
        == x / 0x1_0000 % 0x100 && low_byte(x, 3) == x / 0x100_0000 % 0x100 && low_byte(x, 4) == x
        / 0x1_0000_0000 % 0x100 && low_byte(x, 5) == x / 0x100_0000_0000 % 0x100 && low_byte(x, 6)
        == x / 0x1_0000_0000_0000 % 0x100 && low_byte(x, 7) == x / 0x100_0000_0000_0000 % 0x100)
        by (bit_vector);
}

/// The first eight bytes of an identifier are the digits in base 256 of the reading,
/// its bits moved up by 17 around the end, exclusively joined with a multiple of the
/// counter. The last eight are those of the counter, its bits moved up by 31 around
/// the end, plus a multiple of the reading. The version 4 stands in the upper half of
/// the byte at 6, and the variant in the upper two bits of the byte at 8.
pub proof fn law_identifier_formula(nanos: u64, counter: u64, hi: u64, lo: u64, p: u64)
    requires
        p == (counter * 0x9E37_79B9_7F4A_7C15) % 0x1_0000_0000_0000_0000,
        hi == (((nanos % 0x8000_0000_0000) * 0x2_0000 + nanos / 0x8000_0000_0000) as u64) ^ p,
        lo == ((counter % 0x2_0000_0000) * 0x8000_0000 + counter / 0x2_0000_0000 + nanos
            * 0xD6E8_FEB8_6659_FD93) % 0x1_0000_0000_0000_0000,
    ensures
        ({
            let b = store_uuid(nanos, counter);
            &&& b.len() == 16
            &&& b[0] == hi % 0x100
            &&& b[1] == hi / 0x100 % 0x100
            &&& b[2] == hi / 0x1_0000 % 0x100
            &&& b[3] == hi / 0x100_0000 % 0x100
            &&& b[4] == hi / 0x1_0000_0000 % 0x100
            &&& b[5] == hi / 0x100_0000_0000 % 0x100
            &&& b[6] == 0x40 + hi / 0x1_0000_0000_0000 % 0x10
            &&& b[7] == hi / 0x100_0000_0000_0000 % 0x100
            &&& b[8] == 0x80 + lo % 0x40
            &&& b[9] == lo / 0x100 % 0x100
            &&& b[10] == lo / 0x1_0000 % 0x100
            &&& b[11] == lo / 0x100_0000 % 0x100
            &&& b[12] == lo / 0x1_0000_0000 % 0x100
            &&& b[13] == lo / 0x100_0000_0000 % 0x100
            &&& b[14] == lo / 0x1_0000_0000_0000 % 0x100
            &&& b[15] == lo / 0x100_0000_0000_0000 % 0x100
        }),
{
    let r = rotated_left(nanos, 17);
    let t = rotated_left(counter, 31);
    assert(r == (nanos % 0x8000_0000_0000) * 0x2_0000 + nanos / 0x8000_0000_0000) by (bit_vector)
        requires
            r == rotated_left(nanos, 17),
    ;
    assert(t == (counter % 0x2_0000_0000) * 0x8000_0000 + counter / 0x2_0000_0000) by (bit_vector)
        requires
            t == rotated_left(counter, 31),
    ;
    lemma_wrapped_product(counter);
    assert(hi == high_word(nanos, counter));
    lemma_low_word(nanos, counter);
    lemma_same_remainder(t + nanos * 0xD6E8_FEB8_6659_FD93, low_word(nanos, counter) as int);
    assert(lo == low_word(nanos, counter));
    lemma_bytes(hi);
    lemma_bytes(lo);
    let v = low_byte(hi, 6);
    let w = low_byte(lo, 0);
    assert((v & 0x0F) | 0x40 == 0x40 + v % 0x10) by (bit_vector);
    assert((w & 0x3F) | 0x80 == 0x80 + w % 0x40) by (bit_vector);
    lemma_byte_halves(hi, lo);
}

proof fn lemma_byte_halves(hi: u64, lo: u64)
    by (bit_vector)
    ensures
        (hi / 0x1_0000_0000_0000 % 0x100) % 0x10 == hi / 0x1_0000_0000_0000 % 0x10,
        (lo % 0x100) % 0x40 == lo % 0x40,
{
}

proof fn lemma_same_remainder(x: int, y: int)
    requires
        (x - y) % 0x1_0000_0000_0000_0000 == 0,
        0 <= y < 0x1_0000_0000_0000_0000,
    ensures
        x % 0x1_0000_0000_0000_0000 == y,
{
}

/// A reading below 2^64 nanoseconds is taken as it is, one above modulo 2^64, and a
/// clock before the epoch as zero.
pub proof fn law_clock_word(reading: u128)
    ensures
        reading < 0x1_0000_0000_0000_0000 ==> spec_clock_word(Some(reading)) == reading,
        reading >= 0x1_0000_0000_0000_0000 ==> spec_clock_word(Some(reading)) == spec_clock_word(
            Some((reading - 0x1_0000_0000_0000_0000) as u128),
        ),
        spec_clock_word(None) == 0,
{
}

} // verus!
