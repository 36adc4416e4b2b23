//! The verdicts of the authentication gate, and the decoder of signed
//! tokens as it is set up from the configuration.
//!
//! Checking a password or a signature is the work of others. What is decided
//! here is what their answers mean for a request.

use vstd::prelude::*;
use std::time::Duration;
use crate::blueprint;

verus! {

/// Why a request is turned away.
#[derive(Clone, Copy, Debug, PartialEq, Eq)]
pub enum AuthError {
    Missing,
    Invalid,
}

/// The verdict of basic authentication. `accepted` is absent where the
/// request carries no credentials, and says otherwise whether the password
/// file accepts them.
pub open spec fn basic_verdict_of(accepted: Option<bool>) -> Result<(), AuthError> {
    match accepted {
        None => Err(AuthError::Missing),
        Some(true) => Ok(()),
        Some(false) => Err(AuthError::Invalid),
    }
}

/// Decides on a request from what the password file says of its
/// credentials: a request without credentials is turned away as missing
/// them, one with credentials that the file does not accept as invalid.
pub fn basic_verdict(accepted: Option<bool>) -> (verdict: Result<(), AuthError>)
    ensures
        verdict == basic_verdict_of(accepted),
{
    match accepted {
        None => Err(AuthError::Missing),
        Some(true) => Ok(()),
        Some(false) => Err(AuthError::Invalid),
    }
}

/// A key set from the configuration.
#[derive(Clone, Debug, PartialEq, Eq)]
pub struct Jwks {
    pub set: String,
    pub optional_kid: bool,
}

/// A key set that is fetched from `url` and kept for `max_age`.
#[derive(Debug, PartialEq, Eq)]
pub struct RemoteJwks {
    pub url: String,
    pub max_age: Duration,
    pub optional_kid: bool,
}

impl Jwks {
    /// A key set that asks every token to name its key.
    pub fn new(set: String) -> (jwks: Jwks)
        ensures
            jwks.set == set,
            !jwks.optional_kid,
    {
        Jwks { set, optional_kid: false }
    }

    /// The key set with `optional_kid` saying whether a token may leave its
    /// key unnamed.
    pub fn optional_kid(self, optional_kid: bool) -> (jwks: Jwks)
        ensures
            jwks.set == self.set,
            jwks.optional_kid == optional_kid,
    {
        Jwks { set: self.set, optional_kid }
    }
}

impl RemoteJwks {
    /// A remote key set that asks every token to name its key.
    pub fn new(url: String, max_age: Duration) -> (jwks: RemoteJwks)
        ensures
            jwks.url == url,
            jwks.max_age == max_age,
            !jwks.optional_kid,
    {
        RemoteJwks { url, max_age, optional_kid: false }
    }

    /// The key set with `optional_kid` saying whether a token may leave its
    /// key unnamed.
    pub fn optional_kid(self, optional_kid: bool) -> (jwks: RemoteJwks)
        ensures
            jwks.url == self.url,
            jwks.max_age == self.max_age,
            jwks.optional_kid == optional_kid,
    {
        RemoteJwks { url: self.url, max_age: self.max_age, optional_kid }
    }
}

/// The decoder of signed tokens: over a key set from the configuration, or
/// over one that is fetched.
#[derive(Debug, PartialEq, Eq)]
pub enum JwksDecoder {
    Local(Jwks),
    Remote(RemoteJwks),
}

/// The decoder that a configuration asks for.
pub open spec fn decoder_of(options: blueprint::JwtProvider) -> JwksDecoder {
    match options.jwks {
        blueprint::Jwks::Local(set) => JwksDecoder::Local(
            Jwks { set, optional_kid: options.optional_kid },
        ),
        blueprint::Jwks::Remote { url, max_age } => JwksDecoder::Remote(
            RemoteJwks { url, max_age, optional_kid: options.optional_kid },
        ),
    }
}

impl JwksDecoder {
    /// Sets the decoder up as the configuration says: over the local key set
    /// or the remote one, and with the configured leniency about tokens that
    /// do not name their key.
    pub fn new(options: &blueprint::JwtProvider) -> (decoder: JwksDecoder)
        ensures
            decoder == decoder_of(*options),
    {
        match &options.jwks {
            blueprint::Jwks::Local(jwks) => JwksDecoder::Local(
                Jwks::new(jwks.clone()).optional_kid(options.optional_kid),
            ),
            blueprint::Jwks::Remote { url, max_age } => {
                let decoder = RemoteJwks::new(url.clone(), *max_age);
                JwksDecoder::Remote(decoder.optional_kid(options.optional_kid))
            },
        }
    }
}

} // verus!
