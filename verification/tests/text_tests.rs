use deepcanvas_core::text::{
    contains, decimal_string, index_of_char, is_whitespace, split_lines, starts_with, str_eq, str_less, to_uppercase,
    trim,
};

#[test]
fn trim_removes_surrounding_white_space() {
    assert_eq!(trim("  DC-142\n"), "DC-142");
    assert_eq!(trim("\t\r\n "), "");
    assert_eq!(trim("a b"), "a b");
    assert_eq!(trim("\u{3000}x\u{00A0}"), "x");
}

#[test]
fn split_lines_follows_str_lines() {
    let cases = ["", "a", "a\n", "a\nb", "a\r\nb\r\n", "\n\n", "a\r", "x\n\ny"];
    for c in cases {
        let expected: Vec<String> = c.lines().map(|l| l.to_string()).collect();
        assert_eq!(split_lines(c), expected, "input {:?}", c);
    }
}

#[test]
fn decimal_string_writes_digits() {
    assert_eq!(decimal_string(0), "0");
    assert_eq!(decimal_string(409), "409");
    assert_eq!(decimal_string(u64::MAX), u64::MAX.to_string());
}

#[test]
fn string_comparisons() {
    assert!(str_eq("assistant", "assistant"));
    assert!(!str_eq("assistant", "assistant "));
    assert!(starts_with("keyring:abc", "keyring:"));
    assert!(!starts_with("key", "keyring:"));
    assert!(contains("/usr/local/Cellar/deep", "/Cellar/"));
    assert!(!contains("/usr/local/bin", "/Cellar/"));
    assert!(contains("abc", ""));
    assert!(str_less("model-alpha", "model-beta"));
    assert!(str_less("a", "ab"));
    assert!(!str_less("b", "ab"));
    assert!(!str_less("same", "same"));
    assert!(str_less("Z", "a"));
    assert_eq!(index_of_char("org/proj", '/'), 3);
    assert_eq!(index_of_char("orgproj", '/'), 7);
}

#[test]
fn trim_removes_unicode_white_space() {
    assert_eq!(trim("\u{3000}\u{a0}x y\u{2028}\u{85}"), "x y");
    assert_eq!(trim("\u{200b}x"), "\u{200b}x");
    assert!(is_whitespace('\u{205f}'));
    assert!(!is_whitespace('x'));
    assert_eq!(to_uppercase("dc-142ß"), "DC-142SS");
}
