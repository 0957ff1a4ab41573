//! Types of outside crates that the library carries through without looking
//! inside them.
use vstd::prelude::*;

verus! {

/// A project or user identifier (`uuid::Uuid`).
#[verifier::external_type_specification]
#[verifier::external_body]
pub struct ExUuid(uuid::Uuid);

/// The error `jsonwebtoken` reports when a token cannot be made or read.
#[verifier::external_type_specification]
#[verifier::external_body]
pub struct ExJwtError(jsonwebtoken::errors::Error);

/// The error `reqwest` reports when an HTTP request fails.
#[verifier::external_type_specification]
#[verifier::external_body]
pub struct ExReqwestError(reqwest::Error);

/// The error `actix-web` reports when a request cannot be served.
#[verifier::external_type_specification]
#[verifier::external_body]
pub struct ExActixError(actix_web::Error);

/// An I/O error of the standard library.
#[verifier::external_type_specification]
#[verifier::external_body]
pub struct ExIoError(std::io::Error);

/// `Uuid` is a `Copy` type: its `Clone` returns the same identifier.
pub assume_specification[ <uuid::Uuid as Clone>::clone ](u: &uuid::Uuid) -> (r: uuid::Uuid)
    ensures
        r == *u,
;

/// Draws a fresh random (version 4) identifier with `uuid::Uuid::new_v4`.
/// Nothing is promised of the value: it comes from a random source.
#[verifier::external_body]
pub fn new_uuid() -> uuid::Uuid {
    uuid::Uuid::new_v4()
}

/// Compares two identifiers with `Uuid`'s `==`, which `uuid` derives: it
/// compares their sixteen bytes, so it holds exactly of equal identifiers.
#[verifier::external_body]
pub fn uuid_eq(a: &uuid::Uuid, b: &uuid::Uuid) -> (r: bool)
    ensures
        r == (*a == *b),
{
    a == b
}

} // verus!
