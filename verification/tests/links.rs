use rsground::links::{base_url, crates_list_url, get_auth_link, url_encode};

#[test]
fn url_encoding_keeps_unreserved_bytes() {
    assert_eq!(url_encode("aZ09-._~"), "aZ09-._~");
    assert_eq!(url_encode("a b&c"), "a%20b%26c");
    assert_eq!(url_encode("ñ"), "%C3%B1");
}

#[test]
fn auth_link_is_encoded() {
    assert_eq!(
        get_auth_link("id 1", "http://h/api/auth/callback"),
        "https://github.com/login/oauth/authorize?client_id=id%201&redirect_uri=http%3A%2F%2Fh%2Fapi%2Fauth%2Fcallback"
    );
}

#[test]
fn crates_url_variants() {
    assert_eq!(crates_list_url(None, None), "https://crates.io/api/v1/crates");
    assert_eq!(crates_list_url(Some("serde json"), None), "https://crates.io/api/v1/crates?q=serde%20json&");
    assert_eq!(crates_list_url(Some("tokio"), Some(3)), "https://crates.io/api/v1/crates?q=tokio&page=3");
    assert_eq!(crates_list_url(None, Some(12)), "https://crates.io/api/v1/cratespage=12");
}

#[test]
fn base_urls_join_scheme_and_host() {
    assert_eq!(base_url("https", "example.org:8080"), "https://example.org:8080");
}
