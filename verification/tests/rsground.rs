use rsground::rsground::{analyzer_version_text, session_update, split_by_char, CodeResponse, SessionRetrievalError, Version};

#[test]
fn versions_are_parsed() {
    assert_eq!(Version::from_string("1.2.3"), Some(Version { major: 1, minor: 2, patch: 3 }));
    assert_eq!(Version::from_string("0.10.255.7"), Some(Version { major: 0, minor: 10, patch: 255 }));
    assert_eq!(Version::from_string("+1.02.3"), Some(Version { major: 1, minor: 2, patch: 3 }));
}

#[test]
fn bad_versions_are_refused() {
    assert_eq!(Version::from_string("1.2"), None);
    assert_eq!(Version::from_string("1.2.256"), None);
    assert_eq!(Version::from_string("1..3"), None);
    assert_eq!(Version::from_string("1.2.x"), None);
    assert_eq!(Version::from_string("-1.2.3"), None);
    assert_eq!(Version::from_string(""), None);
}

#[test]
fn split_keeps_empty_pieces() {
    assert_eq!(split_by_char("a..b", '.'), vec!["a", "", "b"]);
    assert_eq!(split_by_char("", '.'), vec![""]);
    assert_eq!(split_by_char(".", '.'), vec!["", ""]);
}

#[test]
fn code_response_fields() {
    let r = CodeResponse::new(true, 101, "error".to_owned(), String::new());
    assert!(r.errored());
    assert_eq!(r.exit_code(), 101);
    assert_eq!(r.compiler_output(), "error");
    assert_eq!(r.code_output(), "");
}

#[test]
fn sessions_keep_the_dependencies_after_the_first_empty_line() {
    let manifest = "[package]\nname = \"host\"\n\n[dependencies]\nrand = \"0.8\"\n\nmore";
    let s = session_update("untitled".to_owned(), "fn main() {}".to_owned(), manifest).ok().expect("has an empty line");
    assert_eq!(s.name, "untitled");
    assert_eq!(s.code, "fn main() {}");
    assert_eq!(s.crates, "[dependencies]\nrand = \"0.8\"\n\nmore");
    assert!(matches!(session_update("n".to_owned(), "c".to_owned(), "[package]\nname = 1\n"), Err(SessionRetrievalError::Error)));
}

#[test]
fn analyzer_versions_lose_their_line_breaks() {
    assert_eq!(analyzer_version_text(true, b"rust-analyzer 1.0\n".to_vec()), Some("rust-analyzer 1.0".to_owned()));
    assert_eq!(analyzer_version_text(false, b"rust-analyzer 1.0\n".to_vec()), None);
    assert_eq!(analyzer_version_text(true, vec![0xff, 0xfe]), None);
}
