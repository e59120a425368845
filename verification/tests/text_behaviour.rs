use folio::text::{
    ascii_digit, char_count, chars_of, contains, control, decimal_string, ends_with,
    normalize_whitespace, replace_char, starts_with, string_of, string_of_range, take_chars, trim,
    white,
};

#[test]
fn white_agrees_with_std_on_every_char() {
    for u in 0u32..=0x10FFFF {
        if let Some(c) = char::from_u32(u) {
            assert_eq!(white(c), c.is_whitespace(), "U+{u:04X}");
        }
    }
}

#[test]
fn control_agrees_with_std_on_every_char() {
    for u in 0u32..=0x10FFFF {
        if let Some(c) = char::from_u32(u) {
            assert_eq!(control(c), c.is_control(), "U+{u:04X}");
        }
    }
}

#[test]
fn ascii_digit_agrees_with_std() {
    for u in 0u32..0x300 {
        if let Some(c) = char::from_u32(u) {
            assert_eq!(ascii_digit(c), c.is_ascii_digit());
        }
    }
}

#[test]
fn normalize_collapses_runs_and_trims() {
    assert_eq!(normalize_whitespace("  Attention \n\t is   all\u{2003}you need  "), "Attention is all you need");
    assert_eq!(normalize_whitespace(""), "");
    assert_eq!(normalize_whitespace(" \n\t "), "");
    assert_eq!(normalize_whitespace("one"), "one");
}

#[test]
fn normalize_twice_is_normalize_once() {
    for s in ["  a  b ", "\u{a0}x\u{3000}y\n", "", "plain", " \t"] {
        let once = normalize_whitespace(s);
        assert_eq!(normalize_whitespace(&once), once);
        assert!(!once.starts_with(' ') && !once.ends_with(' '));
        assert!(!once.contains("  "));
    }
}

#[test]
fn normalize_matches_split_whitespace() {
    for s in ["a\u{85}b", " x  y  z ", "\u{2028}p\u{1680}q"] {
        let expected = s.split_whitespace().collect::<Vec<_>>().join(" ");
        assert_eq!(normalize_whitespace(s), expected);
    }
}

#[test]
fn trim_drops_unicode_white_space_at_both_ends() {
    assert_eq!(trim("  hello world \n"), "hello world");
    assert_eq!(trim("\u{3000}x\u{a0}"), "x");
    assert_eq!(trim(""), "");
    assert_eq!(trim("   "), "");
}

#[test]
fn decimal_string_writes_numbers() {
    assert_eq!(decimal_string(0), "0");
    assert_eq!(decimal_string(7), "7");
    assert_eq!(decimal_string(1234567890), "1234567890");
    assert_eq!(decimal_string(u64::MAX), u64::MAX.to_string());
}

#[test]
fn searching_in_strings() {
    assert!(contains("Error 429 Too Many Requests", "429"));
    assert!(!contains("Error 500", "429"));
    assert!(contains("abc", ""));
    assert!(starts_with("✅  Select", "✅"));
    assert!(!starts_with("a", "ab"));
    assert!(ends_with("note.md", ".md"));
    assert!(!ends_with("note.txt", ".md"));
}

#[test]
fn taking_and_counting_chars() {
    assert_eq!(take_chars("2023-05-01T00:00:00Z", 4), "2023");
    assert_eq!(take_chars("é中", 5), "é中");
    assert_eq!(char_count("héllo"), 5);
    assert_eq!(char_count(""), 0);
}

#[test]
fn replacing_a_char() {
    assert_eq!(replace_char("machine learning systems", ' ', "-"), "machine-learning-systems");
    assert_eq!(replace_char("none", ' ', "-"), "none");
    assert_eq!(replace_char("a b", ' ', ""), "ab");
}

#[test]
fn building_strings() {
    let v = chars_of("héllo");
    assert_eq!(v, vec!['h', 'é', 'l', 'l', 'o']);
    assert_eq!(string_of(&v), "héllo");
    assert_eq!(string_of_range(&v, 1, 3), "él");
}
