use shell_core::text::{
    ascii_whitespace, chars_of, parse_i32, split_ascii_whitespace, split_first_word, str_eq, trim,
    whitespace,
};

#[test]
fn whitespace_agrees_with_std_on_every_char() {
    for code in 0u32..=0x10FFFF {
        if let Some(c) = char::from_u32(code) {
            assert_eq!(whitespace(c), c.is_whitespace(), "U+{code:04X}");
        }
    }
}

#[test]
fn ascii_whitespace_agrees_with_std_on_every_char() {
    for code in 0u32..=0x10FFFF {
        if let Some(c) = char::from_u32(code) {
            assert_eq!(ascii_whitespace(c), c.is_ascii_whitespace(), "U+{code:04X}");
        }
    }
}

#[test]
fn ascii_whitespace_is_the_five_separators() {
    for c in [' ', '\t', '\n', '\x0C', '\r'] {
        assert!(ascii_whitespace(c));
    }
    for c in ['\x0B', '\u{A0}', '\u{85}', 'a', '0', '\0'] {
        assert!(!ascii_whitespace(c));
    }
}

#[test]
fn whitespace_holds_more_than_the_separators() {
    for c in ['\x0B', '\u{85}', '\u{A0}', '\u{1680}', '\u{2000}', '\u{200A}', '\u{2028}',
        '\u{2029}', '\u{202F}', '\u{205F}', '\u{3000}']
    {
        assert!(whitespace(c));
    }
    for c in ['\u{200B}', '\u{180E}', '\u{FEFF}', 'x', '\x08', '\x0E', '\x1F'] {
        assert!(!whitespace(c));
    }
}

#[test]
fn chars_of_gives_the_characters_in_order() {
    assert_eq!(chars_of(""), Vec::<char>::new());
    assert_eq!(chars_of("héllo"), vec!['h', 'é', 'l', 'l', 'o']);
}

#[test]
fn str_eq_compares_contents() {
    assert!(str_eq("", ""));
    assert!(str_eq("exit", "exit"));
    assert!(!str_eq("exit", "Exit"));
    assert!(!str_eq("exit", "exit "));
    assert!(!str_eq("exi", "exit"));
}

#[test]
fn trim_cuts_white_space_on_both_sides_only() {
    assert_eq!(trim(""), "");
    assert_eq!(trim("   "), "");
    assert_eq!(trim("abc"), "abc");
    assert_eq!(trim("  hello   world \t\n"), "hello   world");
    assert_eq!(trim("\u{3000}a\u{A0}b\u{2003}"), "a\u{A0}b");
    assert_eq!(trim("\u{200B} x "), "\u{200B} x");
}

#[test]
fn trim_agrees_with_std() {
    for s in ["", " ", "a", " a", "a ", " a b ", "\t\r\n x \x0B\x0C", "\u{85}é\u{1680}", "  '  q  '  "] {
        assert_eq!(trim(s), s.trim());
    }
}

#[test]
fn split_ascii_whitespace_gives_the_words_in_order() {
    assert_eq!(split_ascii_whitespace(""), Vec::<String>::new());
    assert_eq!(split_ascii_whitespace(" \t\r\n\x0C"), Vec::<String>::new());
    assert_eq!(split_ascii_whitespace("one"), vec!["one"]);
    assert_eq!(split_ascii_whitespace("  one\ttwo \n three  "), vec!["one", "two", "three"]);
}

#[test]
fn split_ascii_whitespace_splits_at_the_five_separators_only() {
    assert_eq!(split_ascii_whitespace("a\u{A0}b c\x0Bd"), vec!["a\u{A0}b", "c\x0Bd"]);
}

#[test]
fn split_ascii_whitespace_agrees_with_std() {
    for s in ["", "a", " a", "a ", "a  b", "\ta\nb\rc\x0Cd ", "é ü", " 'x y' \"z\" ", "a\u{2003}b"] {
        let expected: Vec<String> = s.split_ascii_whitespace().map(str::to_string).collect();
        assert_eq!(split_ascii_whitespace(s), expected);
    }
}

#[test]
fn split_first_word_gives_the_first_word_or_nothing() {
    assert_eq!(split_first_word(""), None);
    assert_eq!(split_first_word("  \t "), None);
    assert_eq!(split_first_word("echo"), Some("echo".to_string()));
    assert_eq!(split_first_word("  echo   hi"), Some("echo".to_string()));
    assert_eq!(split_first_word("\u{A0}ls -l"), Some("\u{A0}ls".to_string()));
}

#[test]
fn parse_i32_reads_signed_decimals() {
    assert_eq!(parse_i32("0"), Some(0));
    assert_eq!(parse_i32("7"), Some(7));
    assert_eq!(parse_i32("42"), Some(42));
    assert_eq!(parse_i32("+42"), Some(42));
    assert_eq!(parse_i32("-42"), Some(-42));
    assert_eq!(parse_i32("-0"), Some(0));
    assert_eq!(parse_i32("007"), Some(7));
    assert_eq!(parse_i32("0000000000000000000000012"), Some(12));
}

#[test]
fn parse_i32_knows_the_range() {
    assert_eq!(parse_i32("2147483647"), Some(i32::MAX));
    assert_eq!(parse_i32("+2147483647"), Some(i32::MAX));
    assert_eq!(parse_i32("2147483648"), None);
    assert_eq!(parse_i32("-2147483648"), Some(i32::MIN));
    assert_eq!(parse_i32("-2147483649"), None);
    assert_eq!(parse_i32("99999999999999999999999999"), None);
    assert_eq!(parse_i32("-99999999999999999999999999"), None);
}

#[test]
fn parse_i32_refuses_other_text() {
    for s in ["", "+", "-", "+-1", "--1", "abc", "12a", "a12", " 1", "1 ", "1_000", "1.0", "0x10",
        "١٢", "１２", "1e3"]
    {
        assert_eq!(parse_i32(s), None, "{s:?}");
    }
}

#[test]
fn parse_i32_agrees_with_std() {
    for s in ["", "0", "-", "+", "-1", "+1", "2147483647", "2147483648", "-2147483648",
        "-2147483649", "00", "-00", "+00", "9999999999", "12x", "x12", " 12", "12 ", "٣", "1\u{0}"]
    {
        assert_eq!(parse_i32(s), s.parse::<i32>().ok(), "{s:?}");
    }
    for n in [-100000i32, -1, 0, 1, 99, 65536, i32::MAX, i32::MIN] {
        assert_eq!(parse_i32(&n.to_string()), Some(n));
    }
}
