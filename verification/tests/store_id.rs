use whatrust::store_id::{
    clock_word, gen_store_uuid, make_store_uuid, store_uuid_at, StoreIds,
};

fn reference(nanos: u64, counter: u64) -> [u8; 16] {
    let hi = nanos.rotate_left(17) ^ counter.wrapping_mul(0x9E37_79B9_7F4A_7C15);
    let lo = counter
        .rotate_left(31)
        .wrapping_add(nanos.wrapping_mul(0xD6E8_FEB8_6659_FD93));
    let mut b = [0u8; 16];
    b[..8].copy_from_slice(&hi.to_le_bytes());
    b[8..].copy_from_slice(&lo.to_le_bytes());
    b[6] = (b[6] & 0x0F) | 0x40;
    b[8] = (b[8] & 0x3F) | 0x80;
    b
}

#[test]
fn zero_gives_the_bare_version_bits() {
    let b = make_store_uuid(0, 0);
    assert_eq!(b, [0, 0, 0, 0, 0, 0, 0x40, 0, 0x80, 0, 0, 0, 0, 0, 0, 0]);
}

#[test]
fn identifiers_follow_the_formula() {
    for nanos in [0, 1, 0x0123_4567_89AB_CDEF, 1_700_000_000_123_456_789, u64::MAX] {
        for counter in [0, 1, 2, 0xFFFF_FFFF, u64::MAX] {
            assert_eq!(make_store_uuid(nanos, counter), reference(nanos, counter));
        }
    }
}

#[test]
fn counters_keep_identifiers_apart() {
    let nanos = 1_700_000_000_123_456_789;
    let mut seen: Vec<[u8; 16]> = Vec::new();
    for counter in 0..200 {
        let b = make_store_uuid(nanos, counter);
        assert!(!seen.contains(&b));
        seen.push(b);
    }
}

#[test]
fn counter_moves_on() {
    let mut ids = StoreIds::new();
    assert_eq!(ids.take(), 0);
    assert_eq!(ids.take(), 1);
    let b = gen_store_uuid(&mut ids);
    assert_eq!(b[6] & 0xF0, 0x40);
    assert_eq!(ids.counter, 3);
    ids.counter = u64::MAX;
    assert_eq!(ids.take(), u64::MAX);
    assert_eq!(ids.counter, 0);
}

#[test]
fn clock_reading_is_cut_to_a_word() {
    assert_eq!(clock_word(None), 0);
    assert_eq!(clock_word(Some(5)), 5);
    assert_eq!(clock_word(Some((1u128 << 64) + 7)), 7);
}

#[test]
fn identifier_takes_the_clock_in() {
    // The reading is not zero, so the identifier is not the one of a zero reading.
    let mut ids = StoreIds::new();
    assert_ne!(gen_store_uuid(&mut ids), make_store_uuid(0, 0));
}

#[test]
fn identifier_at_a_reading_is_exact() {
    let mut ids = StoreIds::new();
    let now = 1_700_000_000_123_456_789u128;
    assert_eq!(store_uuid_at(Some(now), &mut ids), reference(now as u64, 0));
    assert_eq!(store_uuid_at(None, &mut ids), reference(0, 1));
    let far = (1u128 << 64) + 7;
    assert_eq!(store_uuid_at(Some(far), &mut ids), reference(7, 2));
    assert_eq!(ids.counter, 3);
}

#[test]
fn readings_keep_identifiers_apart() {
    let base = 1_700_000_000_123_456_789u64;
    for bit in 0..64 {
        assert_ne!(make_store_uuid(base, 0), make_store_uuid(base ^ (1 << bit), 0));
    }
}

#[test]
fn successive_identifiers_differ() {
    // The readings for which the last eight bytes agree.
    for (counter, gap) in [
        (0, 4_202_750_922_918_461_440u64),
        (41, 4_202_750_922_918_461_440),
        (0x1_FFFF_FFFF, 7_666_506_886_478_714_725),
        (u64::MAX, 3_463_755_963_560_253_285),
    ] {
        let next = u64::wrapping_add(counter, 1);
        let n2 = 1_700_000_000_123_456_789u64;
        let n1 = n2.wrapping_sub(gap);
        let a = make_store_uuid(n1, counter);
        let b = make_store_uuid(n2, next);
        assert_eq!(a[8..], b[8..]);
        assert_ne!(a, b);
    }
}
