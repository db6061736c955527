//! A caching reverse proxy for a read-only API of characters, episodes and
//! locations, and the issuing of the API keys that unlock its cache.
//!
//! The library holds the rules of the proxy and proves them: who is
//! authorized ([`secrets`]), how a query is named in the cache
//! ([`resource`]), which path asks for which query ([`route`]), what the
//! cache keeps ([`cache`]), and how a request is answered ([`proxy`]).
//! Sockets, files and the upstream client are the caller's business.
use vstd::prelude::*;
use vstd::string::*;

pub mod cache;
pub mod command;
pub mod decimal;
pub mod proxy;
pub mod resource;
pub mod route;
pub mod secrets;
pub mod text;

verus! {

/// Failures that the library reports to its callers.
#[derive(Debug, Clone, Copy, PartialEq, Eq, Structural)]
pub enum Error {
    /// The store of API keys has no entry for a keyword.
    SecretNotFound,
    /// A sign-up asked for a keyword that is taken.
    UsernameAlreadyExists,
    /// The upstream API has no record for an identifier.
    RecordNotFound,
    /// Anything else: the store of API keys could not be read or
    /// persisted, or the upstream API could not be reached.
    Unknown,
}

impl Error {
    /// What the failure says of itself.
    pub open spec fn spec_message(&self) -> Seq<char> {
        match self {
            Error::SecretNotFound => "Secret not found"@,
            Error::UsernameAlreadyExists => "Username already exists"@,
            Error::RecordNotFound => "Record does not exist"@,
            Error::Unknown => "Unknown error occurred"@,
        }
    }

    /// What the failure says of itself.
    pub fn message(&self) -> (text: &'static str)
        ensures
            text@ == self.spec_message(),
    {
        match self {
            Error::SecretNotFound => "Secret not found",
            Error::UsernameAlreadyExists => "Username already exists",
            Error::RecordNotFound => "Record does not exist",
            Error::Unknown => "Unknown error occurred",
        }
    }
}

/// The text of an optional `String`.
pub open spec fn optional_text(text: Option<String>) -> Option<Seq<char>> {
    match text {
        Some(text) => Some(text@),
        None => None,
    }
}

/// The text of an outcome that carries a `String`.
pub open spec fn outcome_text(outcome: Result<String, Error>) -> Result<Seq<char>, Error> {
    match outcome {
        Ok(text) => Ok(text@),
        Err(e) => Err(e),
    }
}

} // verus!
