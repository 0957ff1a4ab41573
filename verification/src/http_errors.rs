//! The errors the HTTP routes answer with, and the status code of each.
use vstd::prelude::*;

verus! {

/// An error answered by an HTTP route.
#[derive(Debug)]
pub enum HttpErrors {
    /// A token could not be signed.
    EncodingJWT(jsonwebtoken::errors::Error),
    /// The OAuth code could not be exchanged (the rendered error).
    CodeExchange(String),
    /// Only guest users can change their name.
    GithubNameChange,
    /// The GitHub user could not be fetched.
    GithubUserFetch(reqwest::Error),
    InvalidJWT,
    NoTokenProvided,
    ProjectDoesNotExist,
    NotAccessible,
    InvalidPassword,
    /// The websocket could not be started.
    WebsocketStart(actix_web::Error),
}

impl HttpErrors {
    /// The HTTP status code of the answer: 403 for a name change by a GitHub
    /// user, 401 for missing or bad credentials, 404 for an unknown project
    /// and 500 for the rest.
    pub open spec fn spec_status_code(&self) -> u16 {
        match self {
            HttpErrors::GithubNameChange => 403,
            HttpErrors::InvalidJWT | HttpErrors::NoTokenProvided | HttpErrors::NotAccessible
            | HttpErrors::InvalidPassword => 401,
            HttpErrors::ProjectDoesNotExist => 404,
            _ => 500,
        }
    }

    pub fn status_code(&self) -> (r: u16)
        ensures
            r == self.spec_status_code(),
    {
        match self {
            HttpErrors::GithubNameChange => 403,
            HttpErrors::InvalidJWT | HttpErrors::NoTokenProvided | HttpErrors::NotAccessible
            | HttpErrors::InvalidPassword => 401,
            HttpErrors::ProjectDoesNotExist => 404,
            _ => 500,
        }
    }
}

} // verus!
