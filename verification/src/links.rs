//! URLs the backend sends users or requests to.
use vstd::prelude::*;

use crate::strs::{decimal, decimal_digits, push_str};
use crate::text::utf8;

verus! {

/// The bytes `urlencoding` keeps as they are: ASCII letters and digits and
/// `-`, `.`, `_`, `~`.
pub open spec fn is_unreserved(b: u8) -> bool {
    (48 <= b <= 57) || (65 <= b <= 90) || (97 <= b <= 122) || b == 45 || b == 46 || b == 95
        || b == 126
}

/// The upper-case hexadecimal digit of `d < 16`.
pub open spec fn hex_digit(d: u8) -> char {
    if d < 10 {
        ((48 + d) as u8) as char
    } else {
        ((55 + d) as u8) as char
    }
}

/// Percent-encoding of UTF-8 bytes: unreserved bytes stay, every other byte
/// becomes `%` and two upper-case hexadecimal digits.
pub open spec fn url_encoded(bytes: Seq<u8>) -> Seq<char>
    decreases bytes.len(),
{
    if bytes.len() == 0 {
        seq![]
    } else {
        let b = bytes[0];
        let head = if is_unreserved(b) {
            seq![b as char]
        } else {
            seq!['%', hex_digit(b / 16), hex_digit(b % 16)]
        };
        head + url_encoded(bytes.drop_first())
    }
}

/// Wraps `urlencoding::encode`, which percent-encodes every byte of the
/// UTF-8 text except ASCII letters, digits and `-`, `.`, `_`, `~`, with
/// upper-case hexadecimal digits.
#[verifier::external_body]
pub fn url_encode(s: &str) -> (r: String)
    ensures
        r@ == url_encoded(utf8(s@)),
{
    urlencoding::encode(s).into_owned()
}

/// The GitHub authorization link for the app `app_id` that returns to
/// `callback`.
pub open spec fn auth_link_spec(app_id: Seq<char>, callback: Seq<char>) -> Seq<char> {
    "https://github.com/login/oauth/authorize?client_id="@ + url_encoded(utf8(app_id))
        + "&redirect_uri="@ + url_encoded(utf8(callback))
}

/// The GitHub authorization link for the app `app_id` that returns to
/// `callback`, both URL-encoded.
pub fn get_auth_link(app_id: &str, callback: &str) -> (r: String)
    ensures
        r@ == auth_link_spec(app_id@, callback@),
{
    let mut r = String::new();
    push_str(&mut r, "https://github.com/login/oauth/authorize?client_id=");
    let id = url_encode(app_id);
    push_str(&mut r, id.as_str());
    push_str(&mut r, "&redirect_uri=");
    let cb = url_encode(callback);
    push_str(&mut r, cb.as_str());
    r
}

/// The crates.io search URL built the way the backend builds it: the query
/// part `q=...` and the page part `page=...` joined by `&` after `?`, with
/// the text `?&` removed.
pub open spec fn crates_url_spec(query: Option<Seq<char>>, page: Option<u32>) -> Seq<char> {
    let base = "https://crates.io/api/v1/crates"@;
    let q = match query {
        Some(q) => "q="@ + url_encoded(utf8(q)),
        None => Seq::<char>::empty(),
    };
    let p = match page {
        Some(n) => "page="@ + decimal_digits(n as nat),
        None => Seq::<char>::empty(),
    };
    if q.len() == 0 {
        base + p
    } else {
        base + "?"@ + q + "&"@ + p
    }
}

/// The crates.io search URL for an optional query and page.
pub fn crates_list_url(query: Option<&str>, page: Option<u32>) -> (r: String)
    ensures
        r@ == crates_url_spec(
            match query {
                Some(q) => Some(q@),
                None => None,
            },
            page,
        ),
{
    let mut r = String::new();
    push_str(&mut r, "https://crates.io/api/v1/crates");
    let q = match query {
        Some(q) => {
            let mut s = String::new();
            push_str(&mut s, "q=");
            let enc = url_encode(q);
            push_str(&mut s, enc.as_str());
            s
        },
        None => String::new(),
    };
    let p = match page {
        Some(n) => {
            let mut s = String::new();
            push_str(&mut s, "page=");
            let d = decimal(n as usize);
            push_str(&mut s, d.as_str());
            s
        },
        None => String::new(),
    };
    if q.as_str().unicode_len() > 0 {
        push_str(&mut r, "?");
        push_str(&mut r, q.as_str());
        push_str(&mut r, "&");
    }
    push_str(&mut r, p.as_str());
    r
}

/// The base URL of a request: its scheme, `://` and its host.
pub fn base_url(scheme: &str, host: &str) -> (r: String)
    ensures
        r@ == scheme@ + "://"@ + host@,
{
    let mut r = String::new();
    push_str(&mut r, scheme);
    push_str(&mut r, "://");
    push_str(&mut r, host);
    r
}

} // verus!
