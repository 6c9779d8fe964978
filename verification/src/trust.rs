//! Trust policies and the secure-channel establishment decision.
//!
//! The cryptographic key agreement and transcript signatures are the vault's
//! work and happen outside the core; what is decided here is everything the
//! outcome of a handshake depends on once those results are in hand.

use vstd::prelude::*;

use crate::ApiError;

verus! {

/// The sequence-of-byte-strings view of a vector of identifiers.
pub open spec fn ids_view(ids: Seq<Vec<u8>>) -> Seq<Seq<u8>> {
    Seq::new(ids.len(), |i: int| ids[i]@)
}

/// Whether `x` is one of the byte strings in `list`.
pub fn contains_bytes(list: &Vec<Vec<u8>>, x: &Vec<u8>) -> (r: bool)
    ensures
        r == ids_view(list@).contains(x@),
{
    let mut i: usize = 0;
    while i < list.len()
        invariant
            i <= list@.len(),
            forall|j: int| 0 <= j < i ==> ids_view(list@)[j] != x@,
        decreases list@.len() - i,
    {
        if crate::message::bytes_eq(&list[i], x) {
            assert(ids_view(list@)[i as int] == x@);
            return true;
        }
        assert(ids_view(list@)[i as int] != x@);
        i += 1;
    }
    proof {
        assert(!ids_view(list@).contains(x@));
    }
    false
}

/// The predicate over the identifier a peer presents during a handshake.
pub enum TrustPolicy {
    /// Every presented identifier passes.
    TrustEveryone,
    /// A presented identifier passes iff it is in the allow-list.
    TrustMultiIdentifiers { allowed: Vec<Vec<u8>> },
}

/// What a trust policy says of a presented identifier.
pub open spec fn policy_allows(policy: TrustPolicy, identifier: Seq<u8>) -> bool {
    match policy {
        TrustPolicy::TrustEveryone => true,
        TrustPolicy::TrustMultiIdentifiers { allowed } => ids_view(allowed@).contains(identifier),
    }
}

impl TrustPolicy {
    /// Evaluate the policy on a presented identifier.
    pub fn evaluate(&self, identifier: &Vec<u8>) -> (r: bool)
        ensures
            r == policy_allows(*self, identifier@),
    {
        match self {
            TrustPolicy::TrustEveryone => true,
            TrustPolicy::TrustMultiIdentifiers { allowed } => contains_bytes(allowed, identifier),
        }
    }
}

/// An established secure channel: an address to speak to it by, bound to the
/// identifier that was verified during the handshake.
pub struct SecureChannel {
    pub channel_address: Vec<u8>,
    pub remote_identifier: Vec<u8>,
    /// The session of the underlying transport hop, if one was bound, so
    /// downstream access-control decisions can correlate.
    pub session_id: Option<u64>,
}

/// Decide the outcome of a secure-channel handshake. The vault's work comes
/// in as results: whether the peer's transcript signature verified, and
/// whether the bounding timeout expired. A channel exists only when the
/// handshake finished in time, the signature verified, and the trust policy
/// accepted the presented identifier; every failure leaves no channel behind.
pub fn establish_secure_channel(
    policy: &TrustPolicy,
    channel_address: Vec<u8>,
    presented_identifier: Vec<u8>,
    transcript_signature_ok: bool,
    timed_out: bool,
    session_id: Option<u64>,
) -> (r: Result<SecureChannel, ApiError>)
    ensures
        timed_out ==> (r matches Err(e) && e == ApiError::Timeout),
        !timed_out && !transcript_signature_ok ==> (r matches Err(e) && e
            == ApiError::AuthenticationRejected),
        !timed_out && transcript_signature_ok && !policy_allows(*policy, presented_identifier@)
            ==> (r matches Err(e) && e == ApiError::AuthenticationRejected),
        !timed_out && transcript_signature_ok && policy_allows(*policy, presented_identifier@)
            ==> (r matches Ok(c) && c.channel_address@ == channel_address@ && c.remote_identifier@
            == presented_identifier@ && c.session_id == session_id),
{
    if timed_out {
        return Err(ApiError::Timeout);
    }
    if !transcript_signature_ok {
        return Err(ApiError::AuthenticationRejected);
    }
    if !policy.evaluate(&presented_identifier) {
        return Err(ApiError::AuthenticationRejected);
    }
    Ok(SecureChannel { channel_address, remote_identifier: presented_identifier, session_id })
}

} // verus!
