use sysmon::text::{
    chars_of, has_prefix, has_run, parse_decimal, same_ignoring_ascii_case, split_words,
    string_of, trimmed, white_space,
};

fn words_of(s: &str) -> Vec<String> {
    split_words(&chars_of(s)).iter().map(|w| string_of(w)).collect()
}

#[test]
fn splits_on_unicode_whitespace() {
    assert_eq!(words_of("  a bc\td\n"), vec!["a", "bc", "d"]);
    assert_eq!(words_of("x\u{00A0}y\u{3000}z"), vec!["x", "y", "z"]);
    assert!(words_of("").is_empty());
    assert!(words_of(" \t ").is_empty());
    let s = "cpu0 1  2\u{2003}3";
    let ours = words_of(s);
    let std_words: Vec<&str> = s.split_whitespace().collect();
    assert_eq!(ours, std_words);
}

#[test]
fn whitespace_matches_std() {
    for c in ['\t', '\n', '\u{0B}', '\u{0C}', '\r', ' ', '\u{85}', '\u{A0}', '\u{1680}', '\u{2000}',
        '\u{200A}', '\u{2028}', '\u{2029}', '\u{202F}', '\u{205F}', '\u{3000}', 'a', '\u{200B}',
        '\u{180E}', '0'] {
        assert_eq!(white_space(c), c.is_whitespace(), "{c:?}");
    }
}

#[test]
fn trims_like_std() {
    for s in ["  Tdie \n", "", "   ", "a b", "\u{A0}x\u{2029}"] {
        assert_eq!(string_of(&trimmed(&chars_of(s))), s.trim());
    }
}

#[test]
fn prefixes_runs_and_case() {
    assert!(has_prefix(&chars_of("Core 1"), &chars_of("Core")));
    assert!(!has_prefix(&chars_of("Cor"), &chars_of("Core")));
    assert!(has_prefix(&chars_of("x"), &chars_of("")));
    assert!(has_run(&chars_of("Package id 0"), &chars_of("Package")));
    assert!(has_run(&chars_of("k10temp"), &chars_of("temp")));
    assert!(!has_run(&chars_of("k10tem"), &chars_of("temp")));
    assert!(has_run(&chars_of(""), &chars_of("")));
    assert!(same_ignoring_ascii_case(&chars_of("TdIe"), &chars_of("tdie")));
    assert!(!same_ignoring_ascii_case(&chars_of("Tdie "), &chars_of("tdie")));
    assert!(!same_ignoring_ascii_case(&chars_of("É"), &chars_of("é")));
}

#[test]
fn parses_like_std() {
    for s in ["0", "42", "+7", "+", "", "-1", "007", "1_000", " 1", "18446744073709551615",
        "18446744073709551616", "4294967296", "١٢"] {
        let ours = parse_decimal(&chars_of(s), u64::MAX);
        assert_eq!(ours, s.parse::<u64>().ok(), "{s:?}");
    }
    assert_eq!(parse_decimal(&chars_of("4294967296"), u32::MAX as u64), None);
    assert_eq!(parse_decimal(&chars_of("4294967295"), u32::MAX as u64), Some(4294967295));
}
