//! Credentials: signed attestations binding an identity to attributes, their
//! verification against trusted issuers, and the exchange protocol that is
//! the only path by which the attribute store is written.
//!
//! Signature checking itself is the vault's work; its verdict comes into
//! every decision here as a result, and what is proved holds whichever way
//! that verdict went.

use vstd::prelude::*;

use crate::message::clone_bytes;
use crate::store::{attrs_view, AttributeStore};
use crate::trust::{contains_bytes, ids_view};
use crate::ApiError;

verus! {

/// A signed attestation, issued by an authority, binding the subject
/// identity to a set of attributes until an expiry instant. Immutable once
/// issued.
#[derive(Clone)]
pub struct Credential {
    /// The identity the attributes are attested for.
    pub subject: Vec<u8>,
    /// The authority identity that issued and signed the attestation.
    pub issuer: Vec<u8>,
    /// Attribute name/value pairs.
    pub attributes: Vec<(Vec<u8>, Vec<u8>)>,
    /// Expiry instant, seconds.
    pub expires_at: u64,
    /// The issuer's signature over the rest, checked by the vault.
    pub signature: Vec<u8>,
}

/// A credential counts as verified exactly when the vault accepted the
/// issuer's signature and the issuer is one of the trusted issuers.
pub open spec fn credential_verified(
    issuer: Seq<u8>,
    trusted_issuers: Seq<Seq<u8>>,
    signature_valid: bool,
) -> bool {
    signature_valid && trusted_issuers.contains(issuer)
}

/// Check a received credential against a set of trusted issuers, the vault's
/// signature verdict in hand.
pub fn verify_credential(
    credential: &Credential,
    trusted_issuers: &Vec<Vec<u8>>,
    signature_valid: bool,
) -> (r: bool)
    ensures
        r == credential_verified(credential.issuer@, ids_view(trusted_issuers@), signature_valid),
{
    signature_valid && contains_bytes(trusted_issuers, &credential.issuer)
}

/// A node's cryptographic principal: its identifier and the credential it
/// currently holds, if any.
pub struct Identity {
    pub identifier: Vec<u8>,
    pub credential: Option<Credential>,
}

impl Identity {
    /// An identity that holds no credential yet.
    pub fn new(identifier: Vec<u8>) -> (r: Identity)
        ensures
            r.identifier@ == identifier@,
            r.credential is None,
    {
        Identity { identifier, credential: None }
    }

    /// The credential this identity currently holds.
    pub fn credential(&self) -> (r: &Option<Credential>)
        ensures
            r == &self.credential,
    {
        &self.credential
    }

    /// Replace the held credential.
    pub fn set_credential(&mut self, credential: Credential)
        ensures
            final(self).identifier == old(self).identifier,
            final(self).credential == Some(credential),
    {
        self.credential = Some(credential);
    }

    /// Whether `credential` is a valid credential for this identity: it is
    /// about this identity and its issuer signature verified against the
    /// trusted issuers.
    pub fn verify_self_credential(
        &self,
        credential: &Credential,
        trusted_issuers: &Vec<Vec<u8>>,
        signature_valid: bool,
    ) -> (r: bool)
        ensures
            r == (credential.subject@ == self.identifier@ && credential_verified(
                credential.issuer@,
                ids_view(trusted_issuers@),
                signature_valid,
            )),
    {
        crate::message::bytes_eq(&credential.subject, &self.identifier) && verify_credential(
            credential,
            trusted_issuers,
            signature_valid,
        )
    }

    /// One-way presentation: hand `credential` to the router for delivery at
    /// `route`. Nothing is verified locally; an empty route cannot be sent
    /// on.
    pub fn present_credential(&self, route: &Vec<Vec<u8>>, credential: &Credential) -> (r: Result<
        (),
        ApiError,
    >)
        ensures
            route@.len() == 0 ==> (r matches Err(e) && e == ApiError::InvalidRoute),
            route@.len() > 0 ==> r is Ok,
    {
        if route.len() == 0 {
            return Err(ApiError::InvalidRoute);
        }
        Ok(())
    }

    /// Mutual exchange, receiving side: verify the credential the peer
    /// presented and commit its attributes, all or nothing.
    ///
    /// Law: either the peer's credential verifies, the whole attribute entry
    /// for its subject is written and the exchange succeeds; or nothing
    /// verifies, the store is left exactly as it was — for the subject and
    /// for everyone else — and the exchange reports a verification failure.
    pub fn present_credential_mutual(
        &self,
        attribute_store: &mut AttributeStore,
        received: Credential,
        trusted_issuers: &Vec<Vec<u8>>,
        issuer_signature_valid: bool,
    ) -> (r: Result<(), ApiError>)
        ensures
            credential_verified(
                received.issuer@,
                ids_view(trusted_issuers@),
                issuer_signature_valid,
            ) ==> (r is Ok && final(attribute_store)@ == old(attribute_store)@.insert(
                received.subject@,
                attrs_view(received.attributes@),
            )),
            !credential_verified(
                received.issuer@,
                ids_view(trusted_issuers@),
                issuer_signature_valid,
            ) ==> ((r matches Err(e) && e == ApiError::CredentialVerificationFailed) && final(
                attribute_store)@ == old(attribute_store)@),
    {
        if !verify_credential(&received, trusted_issuers, issuer_signature_valid) {
            return Err(ApiError::CredentialVerificationFailed);
        }
        let Credential { subject, attributes, .. } = received;
        attribute_store.put(subject, attributes);
        Ok(())
    }
}

/// An authority this node may ask for a credential: its public identifier
/// and the route to reach it.
pub struct Authority {
    pub identifier: Vec<u8>,
    pub route: Vec<Vec<u8>>,
}

/// The identifiers of a list of authorities.
pub open spec fn authority_ids(authorities: Seq<Authority>) -> Seq<Seq<u8>> {
    Seq::new(authorities.len(), |i: int| authorities[i].identifier@)
}

/// One credential-retrieval attempt. `Committed` is the only state in which
/// anything of the node was written; `Rejected` leaves all prior state
/// untouched.
pub enum ExchangeState {
    Idle,
    /// A secure channel to the chosen authority is being set up.
    ChannelEstablishing { authority_identifier: Vec<u8> },
    /// The channel stands; a fresh credential was asked for.
    CredentialRequested { authority_identifier: Vec<u8> },
    /// A credential arrived and awaits the vault's signature verdict.
    Verifying { credential: Credential },
    /// The credential verified and was stored.
    Committed,
    /// The attempt failed; nothing was written.
    Rejected { error: ApiError },
}

/// What the outside work reports back into a retrieval attempt.
pub enum ExchangeEvent {
    /// The secure channel to the authority stands.
    ChannelEstablished,
    /// The secure channel could not be established.
    ChannelFailed { error: ApiError },
    /// The authority issued a credential.
    CredentialIssued { credential: Credential },
    /// The request round-trip failed.
    RequestFailed { error: ApiError },
    /// The vault's verdict on the received credential's issuer signature.
    SignatureChecked { issuer_signature_valid: bool },
}

/// The node-scope state the credential subsystem works on: the node's own
/// identity, the authorities it trusts, and the store of attributes verified
/// for remote identities.
pub struct NodeManager {
    pub identity: Identity,
    pub authorities: Vec<Authority>,
    pub attributes_storage: AttributeStore,
}

impl NodeManager {
    /// Whether `identifier` belongs to one of the configured authorities.
    pub fn authorities_contain(&self, identifier: &Vec<u8>) -> (r: bool)
        ensures
            r == authority_ids(self.authorities@).contains(identifier@),
    {
        let mut i: usize = 0;
        while i < self.authorities.len()
            invariant
                i <= self.authorities@.len(),
                forall|j: int| 0 <= j < i ==> authority_ids(self.authorities@)[j] != identifier@,
            decreases self.authorities@.len() - i,
        {
            if crate::message::bytes_eq(&self.authorities[i].identifier, identifier) {
                assert(authority_ids(self.authorities@)[i as int] == identifier@);
                return true;
            }
            assert(authority_ids(self.authorities@)[i as int] != identifier@);
            i += 1;
        }
        proof {
            assert(!authority_ids(self.authorities@).contains(identifier@));
        }
        false
    }

    /// The public identifiers of the configured authorities, in order.
    pub fn public_identities(&self) -> (r: Vec<Vec<u8>>)
        ensures
            ids_view(r@) == authority_ids(self.authorities@),
    {
        let ghost all = authority_ids(self.authorities@);
        let mut out: Vec<Vec<u8>> = Vec::new();
        proof {
            assert(ids_view(out@) =~= all.take(0));
        }
        let mut i: usize = 0;
        while i < self.authorities.len()
            invariant
                i <= self.authorities@.len(),
                out@.len() == i,
                all == authority_ids(self.authorities@),
                ids_view(out@) == all.take(i as int),
            decreases self.authorities@.len() - i,
        {
            let cloned = clone_bytes(&self.authorities[i].identifier);
            proof {
                assert(cloned@ == all[i as int]);
            }
            out.push(cloned);
            proof {
                assert(ids_view(out@) =~= all.take(i as int + 1));
            }
            i += 1;
        }
        proof {
            assert(all.take(self.authorities@.len() as int) =~= all);
        }
        out
    }

    /// Begin a credential retrieval. If the identity already holds a
    /// credential and `overwrite` was not asked, the attempt is rejected
    /// right here, before any authority is contacted; with no authority
    /// configured it is rejected as unconfigured. Otherwise the attempt
    /// moves to establishing a channel to the first authority.
    pub fn get_credential_impl(&self, overwrite: bool) -> (r: ExchangeState)
        ensures
            self.identity.credential is Some && !overwrite ==> (r matches
                ExchangeState::Rejected { error } && error == ApiError::AlreadyHasCredential),
            (self.identity.credential is None || overwrite) && self.authorities@.len() == 0
                ==> (r matches ExchangeState::Rejected { error } && error
                == ApiError::NoKnownAuthority),
            (self.identity.credential is None || overwrite) && self.authorities@.len() > 0 ==> (r
                matches ExchangeState::ChannelEstablishing { authority_identifier }
                && authority_identifier@ == self.authorities@[0].identifier@),
    {
        match &self.identity.credential {
            Some(_) => {
                if !overwrite {
                    return ExchangeState::Rejected { error: ApiError::AlreadyHasCredential };
                }
            },
            None => {},
        }
        if self.authorities.len() == 0 {
            return ExchangeState::Rejected { error: ApiError::NoKnownAuthority };
        }
        ExchangeState::ChannelEstablishing {
            authority_identifier: clone_bytes(&self.authorities[0].identifier),
        }
    }

    /// One step of a credential-retrieval attempt.
    ///
    /// Law: the node is written only when the step commits, and a step
    /// commits only from `Verifying`, only when the received credential is
    /// about this node's identity and its issuer signature verified against
    /// the configured authorities; the write is exactly the replacement of
    /// the held credential. Every other step leaves the node untouched. An
    /// event that does not belong to the current state changes nothing.
    pub fn exchange_step(&mut self, state: ExchangeState, event: ExchangeEvent) -> (r:
        ExchangeState)
        ensures
            !(r is Committed) ==> *final(self) == *old(self),
            match state {
                ExchangeState::ChannelEstablishing { authority_identifier } => match event {
                    ExchangeEvent::ChannelEstablished => r matches
                        ExchangeState::CredentialRequested { authority_identifier: a } && a
                        == authority_identifier,
                    ExchangeEvent::ChannelFailed { error } => r matches
                        ExchangeState::Rejected { error: e } && e == error,
                    _ => r == state,
                },
                ExchangeState::CredentialRequested { .. } => match event {
                    ExchangeEvent::CredentialIssued { credential } => r matches
                        ExchangeState::Verifying { credential: c } && c == credential,
                    ExchangeEvent::RequestFailed { error } => r matches
                        ExchangeState::Rejected { error: e } && e == error,
                    _ => r == state,
                },
                ExchangeState::Verifying { credential } => match event {
                    ExchangeEvent::SignatureChecked { issuer_signature_valid } => {
                        if credential.subject@ == old(self).identity.identifier@
                            && credential_verified(
                            credential.issuer@,
                            authority_ids(old(self).authorities@),
                            issuer_signature_valid,
                        ) {
                            r is Committed && final(self).identity.identifier == old(
                                self).identity.identifier && final(self).identity.credential
                                == Some(credential) && final(self).authorities == old(
                                self).authorities && final(self).attributes_storage == old(
                                self).attributes_storage
                        } else {
                            (r matches ExchangeState::Rejected { error } && error
                                == ApiError::CredentialVerificationFailed)
                        }
                    },
                    _ => r == state,
                },
                _ => r == state,
            },
    {
        match (state, event) {
            (
                ExchangeState::ChannelEstablishing { authority_identifier },
                ExchangeEvent::ChannelEstablished,
            ) => ExchangeState::CredentialRequested { authority_identifier },
            (
                ExchangeState::ChannelEstablishing { .. },
                ExchangeEvent::ChannelFailed { error },
            ) => ExchangeState::Rejected { error },
            (
                ExchangeState::CredentialRequested { .. },
                ExchangeEvent::CredentialIssued { credential },
            ) => ExchangeState::Verifying { credential },
            (
                ExchangeState::CredentialRequested { .. },
                ExchangeEvent::RequestFailed { error },
            ) => ExchangeState::Rejected { error },
            (
                ExchangeState::Verifying { credential },
                ExchangeEvent::SignatureChecked { issuer_signature_valid },
            ) => {
                let about_self = crate::message::bytes_eq(
                    &credential.subject,
                    &self.identity.identifier,
                );
                let issuer_trusted = self.authorities_contain(&credential.issuer);
                if about_self && issuer_signature_valid && issuer_trusted {
                    self.identity.set_credential(credential);
                    ExchangeState::Committed
                } else {
                    ExchangeState::Rejected { error: ApiError::CredentialVerificationFailed }
                }
            },
            (other_state, _) => other_state,
        }
    }
}

} // verus!
