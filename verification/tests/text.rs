use whatrust::text::{
    after_prefix, chars_of, decimal_string, find_char, has_prefix, is_white_space, joined,
    same_text, split_once, split_string, string_of, trim,
};

#[test]
fn white_space_is_that_of_std() {
    for c in '\u{0}'..=char::MAX {
        assert_eq!(is_white_space(c), c.is_whitespace());
    }
}

#[test]
fn trim_is_that_of_std() {
    for s in ["", " ", "a", " a b\t", "\u{3000}x\u{85}", "\u{200b}x", "\r\n", "é "] {
        assert_eq!(trim(s), s.trim());
    }
}

#[test]
fn trimming_twice_is_trimming_once() {
    assert_eq!(trim(trim("  a  ")), "a");
}

#[test]
fn decimals_are_those_of_std() {
    for n in [0, 1, 9, 10, 99, 100, 4_000_000_001, u32::MAX] {
        assert_eq!(decimal_string(n), n.to_string());
    }
}

#[test]
fn strings_are_compared_and_joined() {
    assert!(same_text("é", "é"));
    assert!(!same_text("é", "e"));
    assert!(!same_text("a", "ab"));
    assert_eq!(joined("a", "é"), "aé");
    assert_eq!(string_of(&chars_of("aébc"), 1, 3), "éb");
}

#[test]
fn prefixes_are_taken_off() {
    assert!(has_prefix("wa-x", "wa-"));
    assert!(!has_prefix("wa", "wa-"));
    assert_eq!(after_prefix("wa-é", "wa-"), Some("é"));
    assert_eq!(after_prefix("x", "wa-"), None);
}

#[test]
fn splitting_is_that_of_std() {
    for s in ["", "a", "&", "a&b", "&a&&é&", "a=b"] {
        let expected: Vec<String> = s.split('&').map(String::from).collect();
        assert_eq!(split_string(s, '&'), expected);
        let once = s.split_once('&').map(|(a, b)| (a.to_string(), b.to_string()));
        assert_eq!(split_once(s, '&'), once);
    }
    assert_eq!(find_char(&chars_of("abca"), 'a', 1), 3);
    assert_eq!(find_char(&chars_of("abc"), 'x', 0), 3);
}
