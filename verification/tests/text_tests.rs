use yabaictl::text::{label_for, parse_label_index, parse_u32, reserved_label, str_contains, str_eq, u32_to_string};

#[test]
fn label_index_parses_plain_labels() {
    assert_eq!(parse_label_index("s1"), Some(1));
    assert_eq!(parse_label_index("s10"), Some(10));
    assert_eq!(parse_label_index("s007"), Some(7));
    assert_eq!(parse_label_index("s4294967295"), Some(u32::MAX));
}

#[test]
fn label_index_rejects_other_strings() {
    assert_eq!(parse_label_index(""), None);
    assert_eq!(parse_label_index("s"), None);
    assert_eq!(parse_label_index("reserved"), None);
    assert_eq!(parse_label_index("x5"), None);
    assert_eq!(parse_label_index("s5x"), None);
    assert_eq!(parse_label_index("s-1"), None);
    assert_eq!(parse_label_index("s4294967296"), None);
    assert_eq!(parse_label_index("s99999999999999999999"), None);
}

#[test]
fn rendering_round_trips() {
    assert_eq!(u32_to_string(0), "0");
    assert_eq!(u32_to_string(7), "7");
    assert_eq!(u32_to_string(10), "10");
    assert_eq!(u32_to_string(4294967295), "4294967295");
    assert_eq!(label_for(1), "s1");
    assert_eq!(label_for(11), "s11");
    assert_eq!(parse_label_index(label_for(10).as_str()), Some(10));
}

#[test]
fn reserved_label_text() {
    assert_eq!(reserved_label(), "reserved");
}

#[test]
fn parse_u32_values() {
    assert_eq!(parse_u32("0"), Some(0));
    assert_eq!(parse_u32("10"), Some(10));
    assert_eq!(parse_u32(""), None);
    assert_eq!(parse_u32("+3"), None);
    assert_eq!(parse_u32("3a"), None);
    assert_eq!(parse_u32("4294967295"), Some(u32::MAX));
    assert_eq!(parse_u32("4294967296"), None);
}

#[test]
fn string_equality_and_search() {
    assert!(str_eq("abc", "abc"));
    assert!(!str_eq("abc", "abd"));
    assert!(!str_eq("abc", "ab"));
    assert!(str_eq("", ""));
    assert!(str_contains("cannot focus an already focused space.", "already focused"));
    assert!(str_contains("abc", ""));
    assert!(!str_contains("abc", "abcd"));
    assert!(!str_contains("abcd", "bd"));
    assert!(str_contains("aaab", "aab"));
}
