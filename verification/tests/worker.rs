use node_core::credentials::{Authority, Credential, ExchangeState, Identity, NodeManager};
use node_core::store::AttributeStore;
use node_core::worker::NodeManagerWorker;
use node_core::ApiError;

fn worker() -> NodeManagerWorker {
    NodeManagerWorker {
        node_manager: NodeManager {
            identity: Identity::new(b"A".to_vec()),
            authorities: vec![Authority {
                identifier: b"authority".to_vec(),
                route: vec![b"authority-route".to_vec()],
            }],
            attributes_storage: AttributeStore::new(),
        },
    }
}

fn get_credential_body(identity_name: Option<&str>, overwrite: bool) -> Vec<u8> {
    minicbor::to_vec((identity_name, overwrite)).unwrap()
}

fn present_credential_body(route: &str, oneway: bool) -> Vec<u8> {
    minicbor::to_vec((route, oneway)).unwrap()
}

#[test]
fn get_credential_decodes_request_and_starts_exchange() {
    let w = worker();
    let state = w.get_credential(&get_credential_body(None, false)).unwrap();
    match state {
        ExchangeState::ChannelEstablishing { authority_identifier } => {
            assert_eq!(authority_identifier, b"authority".to_vec());
        }
        _ => panic!("expected the exchange to begin"),
    }
}

#[test]
fn get_credential_honours_the_overwrite_flag() {
    let mut w = worker();
    w.node_manager.identity.set_credential(Credential {
        subject: b"A".to_vec(),
        issuer: b"authority".to_vec(),
        attributes: vec![],
        expires_at: 0,
        signature: vec![],
    });
    // overwrite=false: the held credential short-circuits the request.
    match w.get_credential(&get_credential_body(Some("A"), false)).unwrap() {
        ExchangeState::Rejected { error } => assert_eq!(error, ApiError::AlreadyHasCredential),
        _ => panic!("expected the idempotent short-circuit"),
    }
    // overwrite=true: the same node proceeds to the authority.
    match w.get_credential(&get_credential_body(Some("A"), true)).unwrap() {
        ExchangeState::ChannelEstablishing { .. } => {}
        _ => panic!("expected the exchange to begin"),
    }
}

#[test]
fn get_credential_rejects_an_undecodable_body() {
    let w = worker();
    assert!(matches!(
        w.get_credential(&vec![0xFFu8, 0x00]),
        Err(ApiError::MalformedRequest)
    ));
}

#[test]
fn present_credential_mutual_commits_peer_attributes() {
    let mut w = worker();
    let peer = Credential {
        subject: b"peer".to_vec(),
        issuer: b"authority".to_vec(),
        attributes: vec![(b"component".to_vec(), b"control".to_vec())],
        expires_at: 0,
        signature: b"sig".to_vec(),
    };
    w.present_credential(&present_credential_body("/service/credentials", false), Some(peer), true)
        .unwrap();
    let attrs = w
        .node_manager
        .attributes_storage
        .get(&b"peer".to_vec())
        .unwrap();
    assert_eq!(attrs, &vec![(b"component".to_vec(), b"control".to_vec())]);
}

#[test]
fn present_credential_mutual_rejects_an_untrusted_peer() {
    let mut w = worker();
    let peer = Credential {
        subject: b"peer".to_vec(),
        issuer: b"impostor".to_vec(),
        attributes: vec![(b"component".to_vec(), b"control".to_vec())],
        expires_at: 0,
        signature: b"sig".to_vec(),
    };
    let r = w.present_credential(
        &present_credential_body("/service/credentials", false),
        Some(peer),
        true,
    );
    assert_eq!(r, Err(ApiError::CredentialVerificationFailed));
    assert!(w.node_manager.attributes_storage.get(&b"peer".to_vec()).is_none());
}

#[test]
fn present_credential_oneway_verifies_nothing() {
    let mut w = worker();
    w.present_credential(&present_credential_body("/service/credentials", true), None, false)
        .unwrap();
    assert!(w.node_manager.attributes_storage.get(&b"peer".to_vec()).is_none());
}

#[test]
fn present_credential_rejects_an_empty_route() {
    let mut w = worker();
    let r = w.present_credential(&present_credential_body("", true), None, false);
    assert_eq!(r, Err(ApiError::InvalidRoute));
}

#[test]
fn present_credential_rejects_an_undecodable_body() {
    let mut w = worker();
    let r = w.present_credential(&vec![0x9Fu8], None, false);
    assert_eq!(r, Err(ApiError::MalformedRequest));
}
