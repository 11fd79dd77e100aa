use fluxmux::text::{
    chars_of, decimal_string, equals_ignoring_ascii_case, find_in, has_prefix, joined, lines_of,
    matches_at, parse_bounded, slice_of, split_on, split_once_at, to_lowercase, trimmed, unquoted,
};

#[test]
fn trims_whitespace_on_both_sides() {
    assert_eq!(trimmed("  temp > 30 \t\n"), "temp > 30");
    assert_eq!(trimmed("\u{3000}x\u{a0}"), "x");
    assert_eq!(trimmed("   "), "");
    assert_eq!(trimmed(""), "");
    assert_eq!(trimmed("a b"), "a b");
}

#[test]
fn trimming_agrees_with_the_standard_library() {
    for s in ["", " ", "\r\n x \u{2028}", "\u{1680}a\u{205f}", "\u{200b}z", "x\u{85}"] {
        assert_eq!(trimmed(s), s.trim());
    }
}

#[test]
fn splits_once_at_the_first_occurrence() {
    assert_eq!(
        split_once_at("a>=b>=c", ">="),
        Some(("a".to_string(), "b>=c".to_string()))
    );
    assert_eq!(split_once_at("abc", "="), None);
    assert_eq!(split_once_at("=x", "="), Some(("".to_string(), "x".to_string())));
    assert_eq!(split_once_at("x=", "="), Some(("x".to_string(), "".to_string())));
    assert_eq!(split_once_at("héllo:wörld", ":"), Some(("héllo".to_string(), "wörld".to_string())));
}

#[test]
fn splits_on_every_separator() {
    assert_eq!(split_on("a,b,,c", ','), vec!["a", "b", "", "c"]);
    assert_eq!(split_on("", ','), vec![""]);
    assert_eq!(split_on(",", ','), vec!["", ""]);
    assert_eq!(split_on("abc", ','), vec!["abc"]);
}

#[test]
fn splitting_agrees_with_the_standard_library() {
    for s in ["", "a", "a,b", ",a,", ",,", "x,y,z,"] {
        let expected: Vec<String> = s.split(',').map(String::from).collect();
        assert_eq!(split_on(s, ','), expected);
    }
}

#[test]
fn finds_patterns_in_characters() {
    let s = chars_of("hello world");
    assert_eq!(s.len(), 11);
    assert_eq!(find_in(&s, &chars_of("o w")), Some(4));
    assert_eq!(find_in(&s, &chars_of("xyz")), None);
    assert_eq!(find_in(&s, &chars_of("")), Some(0));
    assert!(matches_at(&s, &chars_of("world"), 6));
    assert!(!matches_at(&s, &chars_of("world"), 7));
    assert!(!matches_at(&s, &chars_of("world!"), 6));
    assert_eq!(slice_of("hello world", 6, 11), "world");
}

#[test]
fn recognises_prefixes() {
    assert!(has_prefix("--schema", "--"));
    assert!(has_prefix("--", "--"));
    assert!(!has_prefix("-", "--"));
    assert!(has_prefix("anything", ""));
}

#[test]
fn takes_quotes_off() {
    assert_eq!(unquoted("\"bob\""), Some("bob".to_string()));
    assert_eq!(unquoted("\"\""), Some("".to_string()));
    assert_eq!(unquoted("\""), None);
    assert_eq!(unquoted("bob"), None);
    assert_eq!(unquoted("\"bob"), None);
    assert_eq!(unquoted("bob\""), None);
}

#[test]
fn compares_without_ascii_case() {
    assert!(equals_ignoring_ascii_case("STDIN", "stdin"));
    assert!(equals_ignoring_ascii_case("StdOut:", "stdout:"));
    assert!(!equals_ignoring_ascii_case("stdin", "stdout"));
    assert!(!equals_ignoring_ascii_case("stdin", "stdin:"));
    assert!(!equals_ignoring_ascii_case("\u{212a}", "k"));
}

#[test]
fn reads_unsigned_decimals() {
    assert_eq!(parse_bounded("0", u64::MAX), Some(0));
    assert_eq!(parse_bounded("42", u64::MAX), Some(42));
    assert_eq!(parse_bounded("+42", u64::MAX), Some(42));
    assert_eq!(parse_bounded("007", u64::MAX), Some(7));
    assert_eq!(parse_bounded("18446744073709551615", u64::MAX), Some(u64::MAX));
    assert_eq!(parse_bounded("18446744073709551616", u64::MAX), None);
    assert_eq!(parse_bounded("4294967295", 4294967295), Some(4294967295));
    assert_eq!(parse_bounded("4294967296", 4294967295), None);
    assert_eq!(parse_bounded("", u64::MAX), None);
    assert_eq!(parse_bounded("+", u64::MAX), None);
    assert_eq!(parse_bounded("-1", u64::MAX), None);
    assert_eq!(parse_bounded("1x", u64::MAX), None);
    assert_eq!(parse_bounded(" 1", u64::MAX), None);
    assert_eq!(parse_bounded("1.0", u64::MAX), None);
}

#[test]
fn decimal_parsing_agrees_with_the_standard_library() {
    for s in ["0", "+0", "12", "+", "", "９", "3000000000", "99999999999999999999", "1_000"] {
        assert_eq!(parse_bounded(s, u32::MAX as u64), s.parse::<u32>().ok().map(u64::from));
        assert_eq!(parse_bounded(s, u64::MAX), s.parse::<u64>().ok());
    }
}

#[test]
fn writes_decimals() {
    assert_eq!(decimal_string(0), "0");
    assert_eq!(decimal_string(9), "9");
    assert_eq!(decimal_string(10), "10");
    assert_eq!(decimal_string(1000), "1000");
    assert_eq!(decimal_string(u64::MAX), "18446744073709551615");
}

#[test]
fn decimal_round_trip() {
    for n in [0u64, 1, 9, 10, 99, 100, 12345, u32::MAX as u64, u64::MAX] {
        assert_eq!(parse_bounded(&decimal_string(n), u64::MAX), Some(n));
    }
}

#[test]
fn lowers_case_with_unicode_mappings() {
    assert_eq!(to_lowercase("JSON"), "json");
    assert_eq!(to_lowercase("Ünï"), "ünï");
    assert_eq!(to_lowercase("msgpac\u{212a}"), "msgpack");
}

#[test]
fn joins_with_separator() {
    let parts = vec!["a".to_string(), "b".to_string(), "c".to_string()];
    assert_eq!(joined(&parts, ", "), "a, b, c");
    assert_eq!(joined(&vec!["x".to_string()], ", "), "x");
    assert_eq!(joined(&Vec::new(), ", "), "");
}

#[test]
fn splits_lines_like_the_standard_library() {
    for s in ["", "a", "a\n", "a\nb", "a\r\nb\r\n", "\n", "\n\n", "a\r", "a\r\n\r\nb", "x\n\ny\n", "\r\n"] {
        let expected: Vec<String> = s.lines().map(String::from).collect();
        assert_eq!(lines_of(s), expected, "lines of {:?}", s);
    }
}
