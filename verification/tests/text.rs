use rsground::text::{truncated_text, Truncate};

#[test]
fn long_texts_are_cut_with_an_ellipsis() {
    assert_eq!(truncated_text("abcdef", 3), "abc...");
    assert_eq!(truncated_text("abc", 3), "abc");
    assert_eq!(truncated_text("", 0), "");
    assert_eq!(truncated_text("ab", 0), "...");
    assert_eq!(truncated_text("éa", 2), "é...");
}

#[test]
fn a_truncated_value_shows_at_most_its_length() {
    let long = "x".repeat(300);
    let shown = long.clone().truncate::<256>().fmt();
    assert_eq!(shown.len(), 259);
    assert!(shown.ends_with("..."));
    assert_eq!(&shown[..256], &long[..256]);
    assert_eq!("short".to_owned().truncate::<256>().fmt(), "short");
}
