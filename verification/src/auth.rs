//! The claims carried by a session token, their lifetime, and how a request
//! presents the token.
use vstd::prelude::*;

use crate::http_errors::HttpErrors;
use crate::strs::{has_prefix, strip_prefix, trim_start_matches, trim_start_spec};

verus! {

/// How long a freshly issued token is valid: twelve hours, in seconds.
pub const TOKEN_LIFETIME_SECS: i64 = 43200;

/// The largest timestamp chrono can represent is below this bound (its
/// dates end at year 262142).
pub const MAX_TIMESTAMP: i64 = 9_000_000_000_000;

/// The claims of a session token.
#[derive(Debug, Clone)]
pub struct RgUserData {
    pub id: String,
    pub name: String,
    pub is_guest: bool,
    /// Expiry, in seconds since the Unix epoch.
    pub exp: i64,
}

/// Reads the current time as seconds since the Unix epoch, with
/// `chrono::Utc::now()` and `DateTime::timestamp`.
///
/// `Utc::now` panics for a clock set before the Unix epoch, and chrono dates
/// end at year 262142, so the value lies between 0 and `MAX_TIMESTAMP`.
/// Nothing else is promised: the value comes from the system clock.
#[verifier::external_body]
pub fn utc_now_timestamp() -> (r: i64)
    ensures
        0 <= r <= MAX_TIMESTAMP,
{
    chrono::Utc::now().timestamp()
}

impl RgUserData {
    /// Claims issued at `now` (seconds since the epoch): they expire twelve
    /// hours later.
    pub fn new_at(id: String, name: String, is_guest: bool, now: i64) -> (r: Self)
        requires
            now <= i64::MAX - TOKEN_LIFETIME_SECS,
        ensures
            r.id == id,
            r.name == name,
            r.is_guest == is_guest,
            r.exp == now + TOKEN_LIFETIME_SECS,
    {
        RgUserData { id, name, is_guest, exp: now + TOKEN_LIFETIME_SECS }
    }

    /// Claims issued now, valid for twelve hours.
    pub fn new(id: String, name: String, is_guest: bool) -> (r: Self)
        ensures
            r.id == id,
            r.name == name,
            r.is_guest == is_guest,
            TOKEN_LIFETIME_SECS <= r.exp <= MAX_TIMESTAMP + TOKEN_LIFETIME_SECS,
    {
        let now = utc_now_timestamp();
        Self::new_at(id, name, is_guest, now)
    }

    /// The claims are still valid at `now`: the expiry lies strictly after it.
    pub open spec fn valid_at(&self, now: i64) -> bool {
        now < self.exp
    }
}

/// Decoded claims are accepted only before they expire.
pub fn unexpired(claims: RgUserData, now: i64) -> (r: Option<RgUserData>)
    ensures
        claims.valid_at(now) ==> r == Some(claims),
        !claims.valid_at(now) ==> r is None,
{
    if now >= claims.exp {
        None
    } else {
        Some(claims)
    }
}

/// The token of an `Authorization` header value: the text after
/// `Bearer `, or `None` for another scheme.
pub fn get_auth_token(authorization: &str) -> (r: Option<String>)
    ensures
        has_prefix(authorization@, "Bearer "@) ==> (r matches Some(t) && t@
            == authorization@.skip(7)),
        !has_prefix(authorization@, "Bearer "@) ==> r is None,
{
    proof {
        reveal_strlit("Bearer ");
    }
    strip_prefix(authorization, "Bearer ")
}

/// The user behind a request, from whether a token was presented, what the
/// token decoded to, and the current time: `NoTokenProvided` without a
/// token, `InvalidJWT` for a token that did not decode or has expired.
pub fn get_user_info(token_found: bool, decoded: Option<RgUserData>, now: i64) -> (r: Result<
    RgUserData,
    HttpErrors,
>)
    ensures
        !token_found ==> r matches Err(HttpErrors::NoTokenProvided),
        token_found ==> match decoded {
            Some(c) => if c.valid_at(now) {
                r matches Ok(u) && u == c
            } else {
                r matches Err(HttpErrors::InvalidJWT)
            },
            None => r matches Err(HttpErrors::InvalidJWT),
        },
{
    if !token_found {
        return Err(HttpErrors::NoTokenProvided);
    }
    match decoded {
        Some(c) => match unexpired(c, now) {
            Some(u) => Ok(u),
            None => Err(HttpErrors::InvalidJWT),
        },
        None => Err(HttpErrors::InvalidJWT),
    }
}

/// The token the request middleware checks in an `Authorization` header
/// value: the value starts with `Bearer `, and every leading `Bearer ` is
/// removed; `None` for another scheme.
pub fn middleware_token(authorization: &str) -> (r: Option<String>)
    ensures
        has_prefix(authorization@, "Bearer "@) ==> (r matches Some(t) && t@ == trim_start_spec(
            authorization@,
            "Bearer "@,
        )),
        !has_prefix(authorization@, "Bearer "@) ==> r is None,
{
    proof {
        reveal_strlit("Bearer ");
    }
    if crate::strs::starts_with(authorization, "Bearer ") {
        Some(trim_start_matches(authorization, "Bearer "))
    } else {
        None
    }
}

/// The claims that replace `claims` when their user takes the name
/// `new_name`: only a guest may rename (`GithubNameChange` otherwise); the
/// new claims keep the id, carry the new name and are issued now.
pub fn rename_claims(claims: &RgUserData, new_name: String) -> (r: Result<RgUserData, HttpErrors>)
    ensures
        !claims.is_guest ==> r matches Err(HttpErrors::GithubNameChange),
        claims.is_guest ==> (r matches Ok(u) && u.id@ == claims.id@ && u.name == new_name
            && !u.is_guest && TOKEN_LIFETIME_SECS <= u.exp <= MAX_TIMESTAMP + TOKEN_LIFETIME_SECS),
{
    if !claims.is_guest {
        return Err(HttpErrors::GithubNameChange);
    }
    Ok(RgUserData::new(claims.id.clone(), new_name, false))
}

/// A freshly issued token is valid when it is issued and for the next
/// twelve hours, and not afterwards.
pub proof fn law_token_lifetime(claims: RgUserData, issued: i64, t: i64)
    requires
        claims.exp == issued + TOKEN_LIFETIME_SECS,
    ensures
        issued <= t < issued + TOKEN_LIFETIME_SECS ==> claims.valid_at(t),
        t >= issued + TOKEN_LIFETIME_SECS ==> !claims.valid_at(t),
{
}

} // verus!
