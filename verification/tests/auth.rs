use rsground::auth::{get_auth_token, get_user_info, middleware_token, rename_claims, unexpired, RgUserData, TOKEN_LIFETIME_SECS};
use rsground::http_errors::HttpErrors;

fn claims(exp: i64) -> RgUserData {
    RgUserData { id: "id".to_owned(), name: "name".to_owned(), is_guest: false, exp }
}

#[test]
fn new_claims_last_twelve_hours() {
    let c = RgUserData::new_at("a".to_owned(), "b".to_owned(), true, 1_000);
    assert_eq!(c.exp, 1_000 + 43_200);
    assert_eq!(TOKEN_LIFETIME_SECS, 43_200);
    assert_eq!(c.id, "a");
    assert_eq!(c.name, "b");
    assert!(c.is_guest);
    let now = RgUserData::new("x".to_owned(), "y".to_owned(), false);
    assert!(now.exp > 1_700_000_000);
}

#[test]
fn expired_claims_are_refused() {
    assert!(unexpired(claims(100), 99).is_some());
    assert!(unexpired(claims(100), 100).is_none());
    assert!(unexpired(claims(100), 101).is_none());
}

#[test]
fn bearer_token_is_extracted() {
    assert_eq!(get_auth_token("Bearer abc.def"), Some("abc.def".to_owned()));
    assert_eq!(get_auth_token("Bearer "), Some(String::new()));
    assert_eq!(get_auth_token("Basic abc"), None);
    assert_eq!(get_auth_token("bearer abc"), None);
}

#[test]
fn user_info_errors() {
    assert!(matches!(get_user_info(false, None, 0), Err(HttpErrors::NoTokenProvided)));
    assert!(matches!(get_user_info(true, None, 0), Err(HttpErrors::InvalidJWT)));
    assert!(matches!(get_user_info(true, Some(claims(10)), 10), Err(HttpErrors::InvalidJWT)));
    match get_user_info(true, Some(claims(10)), 9) {
        Ok(u) => assert_eq!(u.id, "id"),
        Err(_) => panic!("valid claims refused"),
    }
}

#[test]
fn status_codes() {
    assert_eq!(HttpErrors::GithubNameChange.status_code(), 403);
    assert_eq!(HttpErrors::InvalidJWT.status_code(), 401);
    assert_eq!(HttpErrors::NoTokenProvided.status_code(), 401);
    assert_eq!(HttpErrors::NotAccessible.status_code(), 401);
    assert_eq!(HttpErrors::InvalidPassword.status_code(), 401);
    assert_eq!(HttpErrors::ProjectDoesNotExist.status_code(), 404);
    assert_eq!(HttpErrors::CodeExchange("x".to_owned()).status_code(), 500);
}

#[test]
fn the_middleware_strips_every_bearer_prefix() {
    assert_eq!(middleware_token("Bearer abc"), Some("abc".to_owned()));
    assert_eq!(middleware_token("Bearer Bearer abc"), Some("abc".to_owned()));
    assert_eq!(middleware_token("Bearer "), Some("".to_owned()));
    assert_eq!(middleware_token("Basic abc"), None);
    assert_eq!(middleware_token("bearer abc"), None);
}

#[test]
fn only_guests_rename() {
    let github = RgUserData { id: "octo".to_owned(), name: "octo".to_owned(), is_guest: false, exp: 0 };
    assert!(matches!(rename_claims(&github, "new".to_owned()), Err(HttpErrors::GithubNameChange)));
    let guest = RgUserData { id: "g-1".to_owned(), name: "old".to_owned(), is_guest: true, exp: 0 };
    let renamed = rename_claims(&guest, "new".to_owned()).ok().expect("guests rename");
    assert_eq!(renamed.id, "g-1");
    assert_eq!(renamed.name, "new");
    assert!(!renamed.is_guest);
    assert!(renamed.exp >= TOKEN_LIFETIME_SECS);
}
