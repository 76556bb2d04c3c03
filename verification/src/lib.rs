//! Client-side wire protocol for a distributed in-memory data-grid member.
//!
//! The crate models the frame-based binary message format of the protocol:
//! [`remote::message`] holds the frame and message model, [`codec`] the
//! encode/decode routines for protocol-level values, [`messaging`] the typed
//! request/response envelopes, and [`remote::channel`] the connection
//! multiplexer that routes concurrently outstanding exchanges by correlation
//! id. Network transport is left to the embedding application; everything
//! here is pure computation over byte and frame sequences.

use vstd::prelude::*;

pub mod codec;
pub mod messaging;
pub mod remote;

use crate::messaging::error::{DecodeError, Exception};

verus! {

/// Errors surfaced to callers of the client library.
///
/// `ServerFailure` carries the generic failure payload reported by the peer;
/// `UnexpectedType` marks a response whose message type matches neither the
/// expected type nor the generic failure type; `Decode` wraps a local
/// malformed-bytes failure; the remaining variants are produced by the
/// connection layer.
#[derive(PartialEq, Eq, Debug)]
pub enum HazelcastClientError {
    ServerFailure(Exception),
    UnexpectedType { expected: u32, actual: u32 },
    Decode(DecodeError),
    CommunicationFailure,
    AuthenticationFailure(u8),
}

/// Conversion of a received value into a typed response.
///
/// Implementations fix the conversion as the relation `conversion_spec`:
/// it pins the exact typed value for every input that decodes, and the
/// error category (server failure, unexpected type, malformed bytes) for
/// every input that does not.
pub trait TryFrom<T>: Sized {
    type Error;

    /// The results `try_from` may return for this value.
    spec fn conversion_spec(&self, r: Result<T, Self::Error>) -> bool;

    fn try_from(self) -> (r: Result<T, Self::Error>)
        ensures
            self.conversion_spec(r),
    ;
}

} // verus!
