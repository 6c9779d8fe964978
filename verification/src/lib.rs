//! Core of a routed-messaging node: message framing over byte streams,
//! secure-channel establishment decisions, credential exchange, and
//! attribute-based access control.

pub mod abac;
pub mod codec;
pub mod credentials;
pub mod list;
pub mod message;
pub mod receiver;
pub mod store;
pub mod trust;
pub mod worker;

use vstd::prelude::*;

verus! {

/// The error kinds that the core operations report.
#[derive(Clone, Copy, Debug, PartialEq, Eq, Structural)]
pub enum ApiError {
    /// The peer disconnected; the operation is not retried internally.
    TransportClosed,
    /// A single frame failed to decode; the connection survives.
    MalformedFrame,
    /// The trust policy rejected the presented identifier.
    AuthenticationRejected,
    /// Issuer signature or issuer-set mismatch; no attributes were written.
    CredentialVerificationFailed,
    /// The identity already holds a credential and overwrite was not requested.
    AlreadyHasCredential,
    /// A handshake or credential round-trip exceeded its bound.
    Timeout,
    /// No authority is configured for credential retrieval.
    NoKnownAuthority,
    /// A route supplied by a caller could not be used.
    InvalidRoute,
    /// A request body failed to decode.
    MalformedRequest,
}

} // verus!
