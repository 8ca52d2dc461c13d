use picol::text::{
    int_to_string, is_char, is_whitespace, nat_to_string, parse_i32, scan_run, split_whitespace,
    to_chars, CharClass,
};

#[test]
fn parse_i32_accepts_what_the_standard_parser_accepts() {
    let cases = [
        "0", "7", "-7", "+7", "007", "-0", "2147483647", "-2147483648", "2147483648",
        "-2147483649", "99999999999999999999", "", "+", "-", " 1", "1 ", "1_000", "0x10", "1.5",
        "--1", "+-1", "\u{0661}", "12a",
    ];
    for text in cases {
        assert_eq!(parse_i32(text), text.parse::<i32>().ok(), "{:?}", text);
    }
}

#[test]
fn parse_i32_exact_values() {
    assert_eq!(parse_i32("42"), Some(42));
    assert_eq!(parse_i32("-2147483648"), Some(i32::MIN));
    assert_eq!(parse_i32("2147483647"), Some(i32::MAX));
    assert_eq!(parse_i32("2147483648"), None);
}

#[test]
fn int_to_string_is_decimal() {
    for v in [0, 1, 9, 10, 11, 99, 100, 12345, -1, -10, i32::MAX, i32::MIN, -2147483647] {
        assert_eq!(int_to_string(v), v.to_string());
    }
    assert_eq!(nat_to_string(4294967295), "4294967295");
    assert_eq!(nat_to_string(0), "0");
}

#[test]
fn int_round_trip() {
    for v in [0, 5, -5, 1000, i32::MAX, i32::MIN] {
        assert_eq!(parse_i32(&int_to_string(v)), Some(v));
    }
}

#[test]
fn whitespace_is_the_unicode_property() {
    for n in 0..=0x10ffffu32 {
        if let Some(c) = char::from_u32(n) {
            assert_eq!(is_whitespace(c), c.is_whitespace(), "U+{:04X}", n);
        }
    }
}

#[test]
fn name_characters_are_alphanumeric_or_underscore() {
    assert!(CharClass::Name.has('a'));
    assert!(CharClass::Name.has('Z'));
    assert!(CharClass::Name.has('0'));
    assert!(CharClass::Name.has('_'));
    assert!(CharClass::Name.has('\u{e9}'));
    assert!(!CharClass::Name.has('-'));
    assert!(!CharClass::Name.has(' '));
    assert!(!CharClass::Name.has('$'));
}

#[test]
fn character_classes() {
    assert!(CharClass::Space.has(' ') && CharClass::Space.has('\t') && CharClass::Space.has('\r'));
    assert!(!CharClass::Space.has('\n') && !CharClass::Space.has(';'));
    assert!(CharClass::Terminator.has('\n') && CharClass::Terminator.has(';'));
    assert!(CharClass::Terminator.has(' ') && !CharClass::Terminator.has('a'));
    assert!(CharClass::Line.has('a') && !CharClass::Line.has('\n'));
    assert!(CharClass::Blank.has('\u{3000}') && !CharClass::Blank.has('a'));
    assert!(CharClass::Word.has('a') && !CharClass::Word.has(' '));
}

#[test]
fn split_whitespace_splits_like_the_standard_library() {
    for text in ["", " ", "a", " a ", "a b", "  a \t\n b\u{3000}c  ", "x\u{a0}y", "\u{e9}t\u{e9} z"] {
        let expected: Vec<String> = text.split_whitespace().map(|w| w.to_string()).collect();
        assert_eq!(split_whitespace(text), expected, "{:?}", text);
    }
    assert_eq!(split_whitespace(" a  bc "), vec!["a".to_string(), "bc".to_string()]);
}

#[test]
fn scan_run_finds_the_end_of_a_run() {
    let text = to_chars("  ab  ");
    assert_eq!(scan_run(&text, 0, CharClass::Space), 2);
    assert_eq!(scan_run(&text, 2, CharClass::Space), 2);
    assert_eq!(scan_run(&text, 2, CharClass::Name), 4);
    assert_eq!(scan_run(&text, 4, CharClass::Space), 6);
    assert_eq!(scan_run(&text, 6, CharClass::Space), 6);
}

#[test]
fn to_chars_and_is_char() {
    assert_eq!(to_chars("a\u{e9}\u{4e2d}"), vec!['a', '\u{e9}', '\u{4e2d}']);
    assert!(is_char("1", '1'));
    assert!(!is_char("", '1'));
    assert!(!is_char("11", '1'));
    assert!(!is_char("2", '1'));
}
