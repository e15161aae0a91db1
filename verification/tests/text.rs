use rustdesk_account_server::encoding::concat_bytes;
use rustdesk_account_server::text::{
    chars_of, has_control, lower_eq, str_byte_len, str_eq, string_from_chars, strip_prefix, trim,
};

#[test]
fn trim_matches_std_trim() {
    for text in [
        "",
        "   ",
        " a ",
        "\t\n x y \r\n",
        "\u{a0}\u{2003}word\u{3000}",
        "\u{85}inner space\u{2029}",
        "no-trim",
        "\u{200b}zero-width\u{200b}",
    ] {
        assert_eq!(trim(text), text.trim(), "{text:?}");
    }
}

#[test]
fn control_characters_are_category_cc() {
    assert!(has_control("a\nb"));
    assert!(has_control("\u{7f}"));
    assert!(has_control("\u{9f}"));
    assert!(!has_control("\u{a0}é漢"));
    for c in ['\0', '\u{1f}', '\u{80}', 'a', ' ', '\u{200b}'] {
        assert_eq!(has_control(&c.to_string()), c.is_control(), "{c:?}");
    }
}

#[test]
fn string_helpers() {
    assert_eq!(str_byte_len("é漢a"), "é漢a".len());
    assert!(str_eq("abc", "abc"));
    assert!(!str_eq("abc", "abd"));
    assert!(!str_eq("abc", "ab"));
    assert!(lower_eq("TrUe", "true"));
    assert!(!lower_eq("trueish", "true"));
    assert!(!lower_eq("ÿes", "yes"));
    assert_eq!(strip_prefix("Bearer x", "Bearer "), Some("x".to_owned()));
    assert_eq!(strip_prefix("Bear", "Bearer "), None);
    let chars = chars_of("héllo");
    assert_eq!(chars, vec!['h', 'é', 'l', 'l', 'o']);
    assert_eq!(string_from_chars(&chars), "héllo");
    assert_eq!(concat_bytes(&[1, 2], &[3]), vec![1, 2, 3]);
}
