//! The library's error type.

use vstd::prelude::*;

verus! {

/// Everything that can go wrong while building, sealing, sending or opening
/// an oblivious HTTP exchange.
#[derive(Debug)]
pub enum ClientError {
    Ohttp(ohttp::Error),
    Bhttp(bhttp::Error),
    Url(url::ParseError),
    GetRandom(getrandom::Error),
    /// The binary HTTP plaintext (`needed` bytes) does not fit in the
    /// configured known length.
    KnownLengthTooSmall { needed: usize, known_length: usize },
    /// The key endpoint's list held no usable key configuration.
    NoKeyConfig,
    /// The decapsulated inner message is a request, not a response.
    NotAResponse,
    /// The per-request path resolved to a different origin than the target.
    PathEscapesOrigin,
    Bitreq(bitreq::Error),
    /// The relay (or key endpoint) answered with a status other than 200.
    UnexpectedStatus(i32),
    /// The relay URL has no host (or no port) to tunnel through.
    NoRelayHost,
    /// The client was given no key endpoint to refetch its configuration from.
    NoGatewayKeyUrl,
}

impl ClientError {
    /// Whether this failure is consistent with the gateway having rotated its
    /// keys: the relay passed on a 400 or a 401 from the gateway.
    pub open spec fn spec_is_possibly_stale_key(&self) -> bool {
        match self {
            ClientError::UnexpectedStatus(code) => *code == 400 || *code == 401,
            _ => false,
        }
    }

    /// Whether this failure is consistent with the gateway having rotated its
    /// keys since the client's configuration was fetched. Only a 400 or a 401
    /// counts: a relay's own 404 or 429 says nothing about keys.
    pub fn is_possibly_stale_key(&self) -> (stale: bool)
        ensures
            stale == self.spec_is_possibly_stale_key(),
    {
        match self {
            ClientError::UnexpectedStatus(code) => *code == 400 || *code == 401,
            _ => false,
        }
    }
}

} // verus!
