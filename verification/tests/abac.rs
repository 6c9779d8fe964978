use node_core::abac::{AbacGate, SessionBindings};
use node_core::credentials::{Authority, Credential, ExchangeEvent, ExchangeState, Identity, NodeManager};
use node_core::message::TransportMessage;
use node_core::receiver::LocalMessage;
use node_core::store::AttributeStore;
use node_core::trust::{establish_secure_channel, SecureChannel, TrustPolicy};
use node_core::ApiError;

fn gate() -> AbacGate {
    AbacGate::create(b"component".to_vec(), b"control".to_vec())
}

fn store_with(id: &[u8], name: &[u8], value: &[u8]) -> AttributeStore {
    let mut store = AttributeStore::new();
    store.put(id.to_vec(), vec![(name.to_vec(), value.to_vec())]);
    store
}

#[test]
fn allows_present_and_correct() {
    let store = store_with(b"X", b"component", b"control");
    assert!(gate().authorize_identifier(Some(&b"X".to_vec()), &store));
}

#[test]
fn denies_present_but_wrong_value() {
    let store = store_with(b"X", b"component", b"edge");
    assert!(!gate().authorize_identifier(Some(&b"X".to_vec()), &store));
}

#[test]
fn denies_absent_attribute() {
    let store = store_with(b"X", b"project", b"control");
    assert!(!gate().authorize_identifier(Some(&b"X".to_vec()), &store));
}

#[test]
fn denies_unknown_identifier() {
    let store = store_with(b"X", b"component", b"control");
    assert!(!gate().authorize_identifier(Some(&b"Y".to_vec()), &store));
}

#[test]
fn denies_missing_identifier() {
    let store = store_with(b"X", b"component", b"control");
    assert!(!gate().authorize_identifier(None, &store));
}

fn message_with_session(session_id: Option<u64>) -> LocalMessage {
    LocalMessage {
        message: TransportMessage {
            onward_route: vec![b"outlet".to_vec()],
            return_route: vec![],
            payload: vec![],
        },
        session_id,
    }
}

#[test]
fn authorize_resolves_session_to_identifier() {
    let store = store_with(b"X", b"component", b"control");
    let mut sessions = SessionBindings::new();
    sessions.bind(4, b"X".to_vec());
    assert!(gate().authorize(&message_with_session(Some(4)), &sessions, &store));
    assert!(!gate().authorize(&message_with_session(Some(5)), &sessions, &store));
    assert!(!gate().authorize(&message_with_session(None), &sessions, &store));
}

#[test]
fn trust_policy_evaluation() {
    let everyone = TrustPolicy::TrustEveryone;
    assert!(everyone.evaluate(&b"anyone".to_vec()));
    let multi = TrustPolicy::TrustMultiIdentifiers { allowed: vec![b"X".to_vec(), b"Z".to_vec()] };
    assert!(multi.evaluate(&b"X".to_vec()));
    assert!(multi.evaluate(&b"Z".to_vec()));
    assert!(!multi.evaluate(&b"Y".to_vec()));
}

#[test]
fn handshake_rejects_identifier_outside_allow_list() {
    let policy = TrustPolicy::TrustMultiIdentifiers { allowed: vec![b"X".to_vec()] };
    let r = establish_secure_channel(
        &policy,
        b"channel-0".to_vec(),
        b"Y".to_vec(),
        true,
        false,
        None,
    );
    assert!(matches!(r, Err(ApiError::AuthenticationRejected)));
}

#[test]
fn handshake_accepts_listed_identifier() {
    let policy = TrustPolicy::TrustMultiIdentifiers { allowed: vec![b"X".to_vec()] };
    let SecureChannel { channel_address, remote_identifier, session_id } =
        establish_secure_channel(
            &policy,
            b"channel-0".to_vec(),
            b"X".to_vec(),
            true,
            false,
            Some(3),
        )
        .unwrap();
    assert_eq!(channel_address, b"channel-0".to_vec());
    assert_eq!(remote_identifier, b"X".to_vec());
    assert_eq!(session_id, Some(3));
}

#[test]
fn handshake_timeout_and_bad_signature() {
    let policy = TrustPolicy::TrustEveryone;
    let r = establish_secure_channel(&policy, b"c".to_vec(), b"X".to_vec(), true, true, None);
    assert!(matches!(r, Err(ApiError::Timeout)));
    let r = establish_secure_channel(&policy, b"c".to_vec(), b"X".to_vec(), false, false, None);
    assert!(matches!(r, Err(ApiError::AuthenticationRejected)));
}

#[test]
fn edge_enrollment_then_exchange_scenario() {
    // Identity A holds no credential; the authority issues one attributing
    // component=edge; after the exchange commits, a mutual presentation to B
    // puts A's attributes in B's store.
    let mut a_manager = NodeManager {
        identity: Identity::new(b"A".to_vec()),
        authorities: vec![Authority {
            identifier: b"authority".to_vec(),
            route: vec![b"authority-route".to_vec()],
        }],
        attributes_storage: AttributeStore::new(),
    };
    assert!(a_manager.identity.credential().is_none());

    let state = a_manager.get_credential_impl(false);
    assert!(matches!(state, ExchangeState::ChannelEstablishing { .. }));
    let state = a_manager.exchange_step(state, ExchangeEvent::ChannelEstablished);
    let issued = Credential {
        subject: b"A".to_vec(),
        issuer: b"authority".to_vec(),
        attributes: vec![(b"component".to_vec(), b"edge".to_vec())],
        expires_at: 1_000_000,
        signature: b"sig".to_vec(),
    };
    let state = a_manager.exchange_step(state, ExchangeEvent::CredentialIssued { credential: issued });
    let state = a_manager.exchange_step(
        state,
        ExchangeEvent::SignatureChecked { issuer_signature_valid: true },
    );
    assert!(matches!(state, ExchangeState::Committed));
    let held = a_manager.identity.credential().clone().unwrap();

    // B verifies A's credential against the trusted issuer set {authority}.
    let b_identity = Identity::new(b"B".to_vec());
    let mut b_store = AttributeStore::new();
    b_identity
        .present_credential_mutual(&mut b_store, held, &vec![b"authority".to_vec()], true)
        .unwrap();
    let attrs = b_store.get(&b"A".to_vec()).unwrap();
    assert_eq!(attrs, &vec![(b"component".to_vec(), b"edge".to_vec())]);

    // And B's gate for component=edge now allows A.
    let edge_gate = AbacGate::create(b"component".to_vec(), b"edge".to_vec());
    assert!(edge_gate.authorize_identifier(Some(&b"A".to_vec()), &b_store));
}
