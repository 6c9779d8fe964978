//! The node-manager worker: the handlers behind the node's control requests
//! about credentials. Request bodies arrive CBOR-encoded; decoding them is
//! minicbor's work, trusted here, and everything decided from the decoded
//! values is verified.

use vstd::prelude::*;

use crate::credentials::{
    authority_ids, credential_verified, Credential, ExchangeState, NodeManager,
};
use crate::store::attrs_view;
use crate::ApiError;

verus! {

/// What minicbor decodes a get-credential request body to: an optional
/// identity name and the overwrite flag. The result depends on the bytes
/// alone.
pub uninterp spec fn cbor_get_credential_request(bytes: Seq<u8>) -> Option<
    (Option<Seq<u8>>, bool),
>;

/// What minicbor decodes a present-credential request body to: the route
/// text and the one-way flag. The result depends on the bytes alone.
pub uninterp spec fn cbor_present_credential_request(bytes: Seq<u8>) -> Option<(Seq<u8>, bool)>;

/// The view of a decoded get-credential request.
pub open spec fn get_request_view(v: (Option<Vec<u8>>, bool)) -> (Option<Seq<u8>>, bool) {
    (
        match v.0 {
            Some(n) => Some(n@),
            None => None,
        },
        v.1,
    )
}

/// The view of a decoded present-credential request.
pub open spec fn present_request_view(v: (Vec<u8>, bool)) -> (Seq<u8>, bool) {
    (v.0@, v.1)
}

/// Relies on minicbor::decode at `(Option<String>, bool)`: decodes the
/// two-element CBOR array of a get-credential request, from the bytes alone.
#[verifier::external_body]
fn decode_get_credential_request(bytes: &Vec<u8>) -> (r: Option<(Option<Vec<u8>>, bool)>)
    ensures
        match r {
            Some(v) => cbor_get_credential_request(bytes@) == Some(get_request_view(v)),
            None => cbor_get_credential_request(bytes@) is None,
        },
{
    match minicbor::decode::<(Option<String>, bool)>(bytes.as_slice()) {
        Ok((name, overwrite)) => Some((name.map(|n| n.into_bytes()), overwrite)),
        Err(_) => None,
    }
}

/// Relies on minicbor::decode at `(String, bool)`: decodes the two-element
/// CBOR array of a present-credential request, from the bytes alone.
#[verifier::external_body]
fn decode_present_credential_request(bytes: &Vec<u8>) -> (r: Option<(Vec<u8>, bool)>)
    ensures
        match r {
            Some(v) => cbor_present_credential_request(bytes@) == Some(present_request_view(v)),
            None => cbor_present_credential_request(bytes@) is None,
        },
{
    match minicbor::decode::<(String, bool)>(bytes.as_slice()) {
        Ok((route, oneway)) => Some((route.into_bytes(), oneway)),
        Err(_) => None,
    }
}

/// The worker serving the node's control requests.
pub struct NodeManagerWorker {
    pub node_manager: NodeManager,
}

impl NodeManagerWorker {
    /// Handle a get-credential request: decode the body and begin a
    /// credential retrieval for this node. The retrieval's outside work —
    /// the channel to the authority, the request round-trip, the vault's
    /// signature verdict — is then driven through `exchange_step`. A request
    /// may name the identity to fetch for; resolving that name to stored key
    /// material is the caller's concern, and this node manager works on its
    /// own identity.
    pub fn get_credential(&self, request_body: &Vec<u8>) -> (r: Result<ExchangeState, ApiError>)
        ensures
            cbor_get_credential_request(request_body@) is None ==> (r matches Err(e) && e
                == ApiError::MalformedRequest),
            cbor_get_credential_request(request_body@) matches Some(req) ==> (r matches Ok(state)
                && {
                let nm = self.node_manager;
                &&& (nm.identity.credential is Some && !req.1 ==> (state matches
                    ExchangeState::Rejected { error } && error == ApiError::AlreadyHasCredential))
                &&& ((nm.identity.credential is None || req.1) && nm.authorities@.len() == 0
                    ==> (state matches ExchangeState::Rejected { error } && error
                    == ApiError::NoKnownAuthority))
                &&& ((nm.identity.credential is None || req.1) && nm.authorities@.len() > 0
                    ==> (state matches ExchangeState::ChannelEstablishing { authority_identifier }
                    && authority_identifier@ == nm.authorities@[0].identifier@))
            }),
    {
        let (_identity_name, overwrite) = match decode_get_credential_request(request_body) {
            Some(req) => req,
            None => {
                return Err(ApiError::MalformedRequest);
            },
        };
        Ok(self.node_manager.get_credential_impl(overwrite))
    }

    /// Handle a present-credential request: decode the body and run the
    /// presentation. One-way, only this node's credential travels and
    /// nothing is verified locally. Mutual, the peer's credential and the
    /// vault's verdict on its signature come back from the exchange and the
    /// peer's attributes are committed all-or-nothing. The request carries
    /// the route as text; turning the text into hops is the caller's
    /// concern, and a request whose route text is empty names no hop at all
    /// and is rejected.
    pub fn present_credential(
        &mut self,
        request_body: &Vec<u8>,
        peer_credential: Option<Credential>,
        issuer_signature_valid: bool,
    ) -> (r: Result<(), ApiError>)
        ensures
            final(self).node_manager.identity == old(self).node_manager.identity,
            final(self).node_manager.authorities == old(self).node_manager.authorities,
            match cbor_present_credential_request(request_body@) {
                None => (r matches Err(e) && e == ApiError::MalformedRequest) && final(
                    self).node_manager.attributes_storage@ == old(
                    self).node_manager.attributes_storage@,
                Some(req) => {
                    let store_before = old(self).node_manager.attributes_storage@;
                    let store_after = final(self).node_manager.attributes_storage@;
                    if req.0.len() == 0 {
                        (r matches Err(e) && e == ApiError::InvalidRoute) && store_after
                            == store_before
                    } else if req.1 {
                        r is Ok && store_after == store_before
                    } else {
                        match peer_credential {
                            None => (r matches Err(e) && e
                                == ApiError::CredentialVerificationFailed) && store_after
                                == store_before,
                            Some(c) => {
                                if credential_verified(
                                    c.issuer@,
                                    authority_ids(old(self).node_manager.authorities@),
                                    issuer_signature_valid,
                                ) {
                                    r is Ok && store_after == store_before.insert(
                                        c.subject@,
                                        attrs_view(c.attributes@),
                                    )
                                } else {
                                    (r matches Err(e) && e
                                        == ApiError::CredentialVerificationFailed) && store_after
                                        == store_before
                                }
                            },
                        }
                    }
                },
            },
    {
        let (route_text, oneway) = match decode_present_credential_request(request_body) {
            Some(req) => req,
            None => {
                return Err(ApiError::MalformedRequest);
            },
        };
        if route_text.len() == 0 {
            return Err(ApiError::InvalidRoute);
        }
        if oneway {
            return Ok(());
        }
        let received = match peer_credential {
            Some(c) => c,
            None => {
                return Err(ApiError::CredentialVerificationFailed);
            },
        };
        let trusted_issuers = self.node_manager.public_identities();
        let identity = &self.node_manager.identity;
        let r = identity.present_credential_mutual(
            &mut self.node_manager.attributes_storage,
            received,
            &trusted_issuers,
            issuer_signature_valid,
        );
        r
    }
}

} // verus!
