use ptp_fast_event_consumer::text::{
    contains, eq_ignore_ascii_case, i64_text, parse_u64, same, starts_with, trim, u64_text,
};

#[test]
fn same_compares_every_character() {
    assert!(same("", ""));
    assert!(same("Uhr\u{e4}", "Uhr\u{e4}"));
    assert!(!same("abc", "abd"));
    assert!(!same("abc", "ab"));
}

#[test]
fn starts_with_needs_the_whole_prefix() {
    assert!(starts_with("decimal64.3", "decimal"));
    assert!(starts_with("anything", ""));
    assert!(!starts_with("dec", "decimal"));
    assert!(!starts_with("xdecimal", "decimal"));
}

#[test]
fn contains_finds_the_needle_anywhere() {
    assert!(contains("a/clock-class", "clock-class"));
    assert!(contains("clock-class/b", "clock-class"));
    assert!(contains("aab", "ab"));
    assert!(contains("", ""));
    assert!(!contains("clock-clas", "clock-class"));
    assert!(!contains("CLOCK-CLASS", "clock-class"));
}

#[test]
fn case_is_ignored_in_ascii_only() {
    assert!(eq_ignore_ascii_case("ENUMeration", "enumeration"));
    assert!(!eq_ignore_ascii_case("enumerations", "enumeration"));
    assert!(!eq_ignore_ascii_case("\u{c4}", "\u{e4}"));
    assert!(!eq_ignore_ascii_case("[", "{"));
}

#[test]
fn trim_agrees_with_the_standard_library() {
    for text in [
        "",
        "   ",
        " a b\t\n",
        "\u{b}\u{c}x\r",
        "\u{85}x\u{a0}",
        "\u{1680}x\u{2000}\u{200a}",
        "\u{2028}\u{2029}x\u{202f}\u{205f}\u{3000}",
        "\u{200b}x\u{feff}",
        "plain",
    ] {
        assert_eq!(trim(text), text.trim());
    }
    for code in 0u32..0x11000 {
        if let Some(c) = char::from_u32(code) {
            let text = c.to_string();
            assert_eq!(trim(&text).is_empty(), c.is_whitespace());
        }
    }
}

#[test]
fn parse_agrees_with_the_standard_library() {
    for text in [
        "",
        "+",
        "-1",
        "0",
        "007",
        "+6",
        "++6",
        "248",
        " 6",
        "6 ",
        "6.0",
        "18446744073709551615",
        "18446744073709551616",
        "99999999999999999999999",
        "000000000000000000000000000001",
        "\u{663}",
    ] {
        assert_eq!(parse_u64(text), text.parse::<u64>().ok(), "{}", text);
    }
}

#[test]
fn numbers_are_written_in_decimal() {
    assert_eq!(u64_text(0), "0");
    assert_eq!(u64_text(65535), "65535");
    assert_eq!(u64_text(u64::MAX), "18446744073709551615");
    assert_eq!(i64_text(-7), "-7");
    assert_eq!(i64_text(42), "42");
    assert_eq!(i64_text(i64::MIN), "-9223372036854775808");
}

#[test]
fn numbers_read_back() {
    for n in [0u64, 9, 10, 248, 1234567890, u64::MAX] {
        assert_eq!(parse_u64(&u64_text(n)), Some(n));
    }
}
