use whatrust::aumid::{display_name, registry_bytes, registry_key, wide};

#[test]
fn wide_is_utf16_with_a_final_nul() {
    assert_eq!(wide(""), vec![0]);
    assert_eq!(wide("aé"), vec![0x61, 0xE9, 0]);
    assert_eq!(wide("\u{1F600}"), vec![0xD83D, 0xDE00, 0]);
    for s in ["com.karem.whatrust", "whatRust — ü", "\u{FFFF}\u{10000}\u{10FFFF}"] {
        let expected: Vec<u16> = s.encode_utf16().chain(std::iter::once(0)).collect();
        assert_eq!(wide(s), expected);
    }
}

#[test]
fn registry_bytes_are_low_byte_first() {
    assert_eq!(registry_bytes(&vec![0x61, 0x1234, 0]), vec![0x61, 0, 0x34, 0x12, 0, 0]);
    assert_eq!(registry_bytes(&vec![]), vec![]);
}

#[test]
fn registry_key_is_below_the_classes() {
    assert_eq!(
        registry_key("com.karem.whatrust"),
        "Software\\Classes\\AppUserModelId\\com.karem.whatrust"
    );
}

#[test]
fn display_name_falls_back() {
    assert_eq!(display_name(None), "whatRust");
    assert_eq!(display_name(Some("Other")), "Other");
}
