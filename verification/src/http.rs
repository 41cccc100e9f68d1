//! The web side: a player's UUID from the Mojang API, and the Microsoft,
//! Xbox Live and Minecraft sign-in steps. The requests themselves are made by
//! the caller; this module holds what is decided around them.
use vstd::prelude::*;

pub mod auth;
pub mod player_uuid;

verus! {

/// The error type of `reqwest`, carried unchanged.
#[verifier::external_type_specification]
#[verifier::external_body]
pub struct ExRequestError(reqwest::Error);

/// Why a web request or what came back from it failed.
#[derive(Debug)]
pub enum NetworkError {
    /// Nothing was found; the message says what.
    NotFound(String),
    /// What came back is not what was expected.
    InvalidData(String),
    /// The request itself failed.
    RequestError(reqwest::Error),
    /// The sign-in code expired before it was used.
    TimeoutError,
    /// Any other failure, with its message.
    Other(String),
}

} // verus!
