use lacon_core::text::{basename_of, char_is_whitespace, decimal_string, signed_decimal_string, split_words, str_contains};

#[test]
fn whitespace_matches_std_for_every_char() {
    for v in 0u32..=0x10FFFF {
        if let Some(c) = char::from_u32(v) {
            assert_eq!(char_is_whitespace(c), c.is_whitespace(), "U+{v:04X}");
        }
    }
}

#[test]
fn split_words_matches_split_whitespace() {
    for s in ["", "  a  b\tc\n", "x", "\u{3000}wide\u{00A0}nbsp ", "a\u{2028}b"] {
        let expected: Vec<String> = s.split_whitespace().map(str::to_owned).collect();
        assert_eq!(split_words(s), expected, "input {s:?}");
    }
}

#[test]
fn decimal_renderings_match_to_string() {
    for n in [0u64, 7, 10, 99, 1234567890, u64::MAX] {
        assert_eq!(decimal_string(n), n.to_string());
    }
    for i in [0i32, -1, 42, i32::MIN, i32::MAX] {
        assert_eq!(signed_decimal_string(i), i.to_string());
    }
}

#[test]
fn basename_and_contains() {
    assert_eq!(basename_of("/a/b/c"), "c");
    assert_eq!(basename_of("dir/"), "");
    assert_eq!(basename_of("plain"), "plain");
    assert!(str_contains("xx[lacon: truncated, 3", "[lacon: truncated, "));
    assert!(!str_contains("abc", "abd"));
    assert!(str_contains("abc", ""));
}
