use rsground::strs::{decimal, ends_with, parse_u8, replace, split_once, starts_with, strip_prefix, trim_start_matches};

#[test]
fn decimal_numbers() {
    assert_eq!(decimal(0), "0");
    assert_eq!(decimal(7), "7");
    assert_eq!(decimal(1234567890), "1234567890");
}

#[test]
fn u8_parsing_matches_std() {
    for s in ["0", "255", "256", "+7", "+", "", "-1", "007", "12a", " 1"] {
        assert_eq!(parse_u8(s), s.parse::<u8>().ok(), "input {s:?}");
    }
}

#[test]
fn replace_matches_std() {
    for (s, p, r) in [("a\"b\"", "\"", "\\\""), ("aaa", "aa", "b"), ("xyz", "q", "w"), ("", "a", "b")] {
        assert_eq!(replace(s, p, r), s.replace(p, r));
    }
}

#[test]
fn prefixes_and_splits() {
    assert!(starts_with("hello", "he") && !starts_with("he", "hello"));
    assert!(ends_with("name (fork)", " (fork)") && !ends_with("fork", " (fork)"));
    assert_eq!(strip_prefix("p=secret", "p="), Some("secret".to_owned()));
    assert_eq!(strip_prefix("q=x", "p="), None);
    assert_eq!(split_once("a\n\nb\n\nc", "\n\n"), Some(("a".to_owned(), "b\n\nc".to_owned())));
    assert_eq!(split_once("abc", "::"), None);
}

#[test]
fn leading_repetitions_are_trimmed() {
    assert_eq!(trim_start_matches("ababc", "ab"), "c");
    assert_eq!(trim_start_matches("abc", ""), "abc");
    assert_eq!(trim_start_matches("xab", "ab"), "xab");
    assert_eq!(trim_start_matches("abab", "ab"), "");
}
