use node_core::codec::encode_message;
use node_core::message::TransportMessage;
use node_core::receiver::{
    Addresses, ConnectionRegistry, RecvAction, SendEvent, TcpRecvProcessor, TcpSendWorker,
    WireEvent,
};
use node_core::ApiError;

fn addresses() -> Addresses {
    Addresses {
        sender_address: b"sender".to_vec(),
        sender_internal_address: b"sender.internal".to_vec(),
        receiver_address: b"receiver".to_vec(),
    }
}

fn receiver(session: Option<u64>) -> TcpRecvProcessor {
    TcpRecvProcessor::new(b"peer:4000".to_vec(), addresses(), session)
}

fn encode(onward: Vec<Vec<u8>>, ret: Vec<Vec<u8>>, payload: Vec<u8>) -> Vec<u8> {
    encode_message(&TransportMessage { onward_route: onward, return_route: ret, payload })
}

#[test]
fn forwards_with_return_hop_prepended() {
    let r = receiver(Some(7));
    let frame = encode(vec![b"app".to_vec()], vec![b"origin".to_vec()], b"hi".to_vec());
    let (go_on, action) = r.process(WireEvent::Frame { payload: frame });
    assert!(go_on);
    match action {
        RecvAction::Forward { message } => {
            assert_eq!(message.session_id, Some(7));
            assert_eq!(message.message.onward_route, vec![b"app".to_vec()]);
            assert_eq!(
                message.message.return_route,
                vec![b"sender".to_vec(), b"origin".to_vec()]
            );
            assert_eq!(message.message.payload, b"hi".to_vec());
        }
        _ => panic!("expected a forward"),
    }
}

#[test]
fn heartbeat_is_discarded() {
    let r = receiver(None);
    let frame = encode(vec![], vec![b"origin".to_vec()], vec![]);
    let (go_on, action) = r.process(WireEvent::Frame { payload: frame });
    assert!(go_on);
    assert!(matches!(action, RecvAction::DropHeartbeat));
}

#[test]
fn malformed_frame_is_reported_and_loop_survives() {
    let r = receiver(None);
    let (go_on, action) = r.process(WireEvent::Frame { payload: vec![5u8, 0] });
    assert!(go_on);
    assert!(matches!(action, RecvAction::ReportMalformed));
}

#[test]
fn short_frame_then_stream_error_closes_without_forwarding() {
    // A frame announces 10 bytes but only 4 arrive before the stream fails:
    // that frame is dropped without forwarding, and the header read that
    // follows finds the stream closed, which notifies the paired sender.
    let r = receiver(None);
    let (go_on, action) = r.process(WireEvent::ShortPayload { declared_length: 10 });
    assert!(go_on);
    assert!(matches!(action, RecvAction::DropFrame));
    let (go_on, action) = r.process(WireEvent::HeaderError);
    assert!(!go_on);
    match action {
        RecvAction::NotifySenderClosed { sender_internal_address } => {
            assert_eq!(sender_internal_address, b"sender.internal".to_vec());
        }
        _ => panic!("expected the close notification"),
    }
}

#[test]
fn frames_forwarded_in_order_received() {
    let r = receiver(None);
    let f1 = encode(vec![b"a".to_vec()], vec![], b"1".to_vec());
    let heartbeat = encode(vec![], vec![], vec![]);
    let f2 = encode(vec![b"b".to_vec()], vec![], b"2".to_vec());
    let garbage = vec![9u8];
    let f3 = encode(vec![b"c".to_vec()], vec![], b"3".to_vec());
    let out = r.process_frames(vec![f1, heartbeat, f2, garbage, f3]);
    assert_eq!(out.len(), 3);
    assert_eq!(out[0].message.payload, b"1".to_vec());
    assert_eq!(out[1].message.payload, b"2".to_vec());
    assert_eq!(out[2].message.payload, b"3".to_vec());
    for m in &out {
        assert_eq!(m.message.return_route[0], b"sender".to_vec());
    }
}

#[test]
fn registry_tracks_initialize_and_shutdown() {
    let mut registry = ConnectionRegistry::new();
    let r = receiver(None);
    r.initialize(&mut registry);
    assert_eq!(registry.receiver_addresses, vec![b"receiver".to_vec()]);
    r.shutdown(&mut registry);
    assert!(registry.receiver_addresses.is_empty());
}

#[test]
fn sender_frames_messages_until_closed() {
    let mut sender = TcpSendWorker::new();
    let m = TransportMessage {
        onward_route: vec![b"x".to_vec()],
        return_route: vec![],
        payload: vec![1],
    };
    let framed = sender
        .handle(SendEvent::Message { message: m })
        .unwrap()
        .unwrap();
    // [len hi, len lo] then route count 1, addr len 0,1, b'x', empty return
    // route, payload.
    assert_eq!(framed, vec![0u8, 6, 1, 0, 1, b'x', 0, 1]);

    assert_eq!(sender.handle(SendEvent::ConnectionClosed).unwrap(), None);

    let m2 = TransportMessage { onward_route: vec![], return_route: vec![], payload: vec![] };
    assert_eq!(
        sender.handle(SendEvent::Message { message: m2 }),
        Err(ApiError::TransportClosed)
    );
}
