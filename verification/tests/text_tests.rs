use pwrzv::text::{
    chars_of, contains_lit, eq_lit, lines_of, parse_micro_chars, parse_u64_chars, split_char,
    starts_with_lit, tokens_of, trim_of,
};

fn chars(s: &str) -> Vec<char> {
    chars_of(s)
}

#[test]
fn test_tokens_of_splits_on_whitespace() {
    let v = chars("  one\ttwo  three\n");
    let toks = tokens_of(&v);
    let words: Vec<String> = toks.iter().map(|t| t.iter().collect()).collect();
    assert_eq!(words, vec!["one", "two", "three"]);

    assert!(tokens_of(&chars("   \t\n")).is_empty());
}

#[test]
fn test_lines_of_matches_str_lines() {
    for sample in ["a\nb\nc", "a\nb\n", "", "one\r\ntwo\r\n", "lone\r"] {
        let v = chars(sample);
        let got: Vec<String> = lines_of(&v).iter().map(|l| l.iter().collect()).collect();
        let want: Vec<String> = sample.lines().map(|l| l.to_string()).collect();
        assert_eq!(got, want, "lines of {sample:?}");
    }
}

#[test]
fn test_split_char_keeps_empty_pieces() {
    let v = chars("a,,b,");
    let got: Vec<String> = split_char(&v, ',').iter().map(|l| l.iter().collect()).collect();
    assert_eq!(got, vec!["a", "", "b", ""]);
}

#[test]
fn test_parse_u64_chars() {
    assert_eq!(parse_u64_chars(&chars("12345")), Some(12345));
    assert_eq!(parse_u64_chars(&chars("+7")), Some(7));
    assert_eq!(parse_u64_chars(&chars("18446744073709551615")), Some(u64::MAX));
    assert_eq!(parse_u64_chars(&chars("18446744073709551616")), None);
    assert_eq!(parse_u64_chars(&chars("")), None);
    assert_eq!(parse_u64_chars(&chars("12a")), None);
    assert_eq!(parse_u64_chars(&chars("-5")), None);
}

#[test]
fn test_parse_micro_chars() {
    assert_eq!(parse_micro_chars(&chars("1.23")), Some(1_230_000));
    assert_eq!(parse_micro_chars(&chars("-0.5")), Some(-500_000));
    assert_eq!(parse_micro_chars(&chars("+42")), Some(42_000_000));
    assert_eq!(parse_micro_chars(&chars(".25")), Some(250_000));
    assert_eq!(parse_micro_chars(&chars("3.")), Some(3_000_000));
    // Deeper digits than the fixed point carries are truncated
    assert_eq!(parse_micro_chars(&chars("0.1234567")), Some(123_456));
    assert_eq!(parse_micro_chars(&chars(".")), None);
    assert_eq!(parse_micro_chars(&chars("")), None);
    assert_eq!(parse_micro_chars(&chars("1e3")), None);
    assert_eq!(parse_micro_chars(&chars("1.2.3")), None);
}

#[test]
fn test_match_helpers() {
    let v = chars("MemTotal: 100 kB");
    assert!(starts_with_lit(&v, "MemTotal:"));
    assert!(!starts_with_lit(&v, "MemFree:"));
    assert!(contains_lit(&v, "100"));
    assert!(!contains_lit(&v, "200"));
    assert!(eq_lit(&chars("lo"), "lo"));
    assert!(!eq_lit(&chars("lo0"), "lo"));
}

#[test]
fn test_trim_of() {
    let got: String = trim_of(&chars("  padded value \t")).iter().collect();
    assert_eq!(got, "padded value");
    assert!(trim_of(&chars(" \t ")).is_empty());
}
