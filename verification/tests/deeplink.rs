use whatrust::deeplink::{form_decode, is_whatsapp_url, parse, parse_query, send_link, DeepLink};

#[test]
fn recognizes_whatsapp_urls_case_insensitively() {
    assert!(is_whatsapp_url("whatsapp://send?phone=123"));
    assert!(is_whatsapp_url("WHATSAPP://send"));
    assert!(is_whatsapp_url("  WhatsApp://send?text=hi  "));
    assert!(!is_whatsapp_url("https://web.whatsapp.com"));
    // Bare scheme with no target: recognised as a whatsapp URL (opens/focuses
    // the app) but parses to `Other`.
    assert!(is_whatsapp_url("whatsapp://"));
    assert!(!is_whatsapp_url(""));
}

#[test]
fn parse_send_with_phone_and_text() {
    match parse("whatsapp://send?phone=+1 (555) 123-4567&text=Hello%20there") {
        Some(DeepLink::Send { phone, text }) => {
            assert_eq!(phone.as_deref(), Some("15551234567"));
            assert_eq!(text.as_deref(), Some("Hello there"));
        }
        other => panic!("expected Send, got {other:?}"),
    }
}

#[test]
fn parse_send_text_only_is_valid_share_link() {
    match parse("whatsapp://send?text=check%20this") {
        Some(DeepLink::Send { phone, text }) => {
            assert_eq!(phone, None);
            assert_eq!(text.as_deref(), Some("check this"));
        }
        other => panic!("expected Send, got {other:?}"),
    }
}

#[test]
fn parse_send_with_plus_encoding() {
    // Form-encoding: '+' is a space.
    match parse("whatsapp://send?text=a+b") {
        Some(DeepLink::Send { text, .. }) => assert_eq!(text.as_deref(), Some("a b")),
        other => panic!("expected Send, got {other:?}"),
    }
}

#[test]
fn parse_bare_send_opens_app_without_chat() {
    match parse("whatsapp://send") {
        Some(DeepLink::Send { phone, text }) => {
            assert_eq!(phone, None);
            assert_eq!(text, None);
        }
        other => panic!("expected Send, got {other:?}"),
    }
}

#[test]
fn parse_host_case_insensitive_and_pathed() {
    assert!(matches!(
        parse("WHATSAPP://Send?phone=42"),
        Some(DeepLink::Send { .. })
    ));
    // Internal-style path links: recognised, opened as plain focus.
    assert!(matches!(
        parse("whatsapp://chat/12345678"),
        Some(DeepLink::Other)
    ));
}

#[test]
fn parse_non_whatsapp_is_none() {
    assert!(parse("https://example.com").is_none());
    assert!(parse("whatsapp:send").is_none()); // missing '//'
    assert!(parse("").is_none());
}

#[test]
fn malformed_percent_escape_does_not_panic() {
    match parse("whatsapp://send?text=100%") {
        Some(DeepLink::Send { text, .. }) => assert_eq!(text.as_deref(), Some("100%")),
        other => panic!("expected Send, got {other:?}"),
    }
}

fn send(phone: Option<&str>, text: Option<&str>) -> Option<DeepLink> {
    Some(DeepLink::Send {
        phone: phone.map(String::from),
        text: text.map(String::from),
    })
}

#[test]
fn bare_scheme_is_other() {
    assert_eq!(parse("whatsapp://"), Some(DeepLink::Other));
    assert_eq!(parse("whatsapp://sender?phone=1"), Some(DeepLink::Other));
}

#[test]
fn first_path_segment_decides() {
    assert_eq!(parse("whatsapp:////send?phone=1"), send(Some("1"), None));
    assert_eq!(parse("whatsapp://\\sEnD/x?phone=1"), send(Some("1"), None));
    assert_eq!(parse("whatsapp://x/send?phone=1"), Some(DeepLink::Other));
}

#[test]
fn phone_has_other_names() {
    assert_eq!(parse("whatsapp://send?to=12"), send(Some("12"), None));
    assert_eq!(parse("whatsapp://send?abid=34"), send(Some("34"), None));
    assert_eq!(parse("whatsapp://send?PHONE=34"), send(None, None));
}

#[test]
fn last_usable_parameter_wins() {
    assert_eq!(
        parse("whatsapp://send?phone=12&phone=34&phone=none&text=a&text=b&text="),
        send(Some("34"), Some("b"))
    );
}

#[test]
fn phone_without_digits_is_absent() {
    assert_eq!(parse("whatsapp://send?phone=abc"), send(None, None));
    // Only ASCII digits count.
    assert_eq!(parse("whatsapp://send?phone=\u{0663}"), send(None, None));
}

#[test]
fn question_mark_splits_once() {
    assert_eq!(
        parse("whatsapp://send?text=why?&phone=5"),
        send(Some("5"), Some("why?"))
    );
}

#[test]
fn multibyte_start_is_no_link() {
    assert!(parse("écrire://send?phone=1").is_none());
    assert!(!is_whatsapp_url("whatsapp:/é"));
}

#[test]
fn white_space_around_a_link_is_ignored() {
    assert_eq!(
        parse("\u{3000}\twhatsapp://send?text=a \n"),
        parse("whatsapp://send?text=a")
    );
}

#[test]
fn escaped_text_is_given_back() {
    let text = "Grüße & 100% = ünïcode + \u{1F600}?";
    let mut link = String::from("whatsapp://send?phone=4915551234&text=");
    for b in text.bytes() {
        link.push_str(&format!("%{b:02X}"));
    }
    assert_eq!(parse(&link), send(Some("4915551234"), Some(text)));
}

#[test]
fn escapes_take_digits_of_both_cases() {
    assert_eq!(form_decode("%2f%2F"), "//");
    assert_eq!(form_decode("%c3%A9"), "é");
    assert_eq!(form_decode("a%2Bb"), "a+b");
}

#[test]
fn broken_escapes_are_kept() {
    assert_eq!(form_decode("%"), "%");
    assert_eq!(form_decode("%4"), "%4");
    assert_eq!(form_decode("%zz%41"), "%zzA");
    assert_eq!(form_decode("%%41"), "%A");
}

#[test]
fn plus_after_a_percent_sign_is_a_space() {
    assert_eq!(form_decode("%+A"), "% A");
    assert_eq!(form_decode("%-A"), "%-A");
    assert_eq!(form_decode("%A+"), "%A ");
    assert_eq!(form_decode("%++%2B"), "%  +");
    assert_eq!(
        parse_query("t=%+5"),
        vec![("t".to_string(), "% 5".to_string())]
    );
}

#[test]
fn bytes_that_are_not_utf8_are_replaced() {
    assert_eq!(form_decode("a%FFb"), "a\u{FFFD}b");
    assert_eq!(form_decode("%C3"), "\u{FFFD}");
}

#[test]
fn query_is_split_into_pairs() {
    let pair = |k: &str, v: &str| (k.to_string(), v.to_string());
    assert_eq!(
        parse_query("&a=1&&b&=c&d=e=f&"),
        vec![pair("a", "1"), pair("b", ""), pair("", "c"), pair("d", "e=f")]
    );
    assert_eq!(parse_query(""), vec![]);
    assert_eq!(parse_query("%61+b=%3D"), vec![pair("a b", "=")]);
}

#[test]
fn send_link_takes_decoded_pairs() {
    let pairs = vec![
        ("phone".to_string(), "+49 (30) 12".to_string()),
        ("text".to_string(), "a+b%20".to_string()),
        ("other".to_string(), "x".to_string()),
    ];
    assert_eq!(Some(send_link(&pairs)), send(Some("493012"), Some("a+b%20")));
    assert_eq!(Some(send_link(&vec![])), send(None, None));
}

#[test]
fn joined_queries_keep_their_pairs() {
    for (a, b) in [("x=1", "y=2&z"), ("", "q=%26"), ("a&b", ""), ("=", "=")] {
        let mut both = parse_query(a);
        both.extend(parse_query(b));
        assert_eq!(parse_query(&format!("{a}&{b}")), both);
    }
}

#[test]
fn escaped_pairs_come_back() {
    let pairs: Vec<(String, String)> = vec![
        ("text".to_string(), "a&b=c".to_string()),
        ("=&%+".to_string(), "".to_string()),
        ("".to_string(), "\u{1F600}".to_string()),
    ];
    let escape = |s: &str| -> String { s.bytes().map(|b| format!("%{b:02X}")).collect() };
    let parts: Vec<String> = pairs
        .iter()
        .map(|(k, v)| format!("{}={}", escape(k), escape(v)))
        .collect();
    assert_eq!(parse_query(&parts.join("&")), pairs);
}
