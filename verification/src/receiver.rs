//! The connection worker pair: the receiving half reconstructs framed
//! messages read from a byte stream and forwards them inward; the sending
//! half frames outbound messages and stops when told the stream closed.
//!
//! The stream reads themselves happen outside the core; each turn of the
//! receive loop is decided here from what the read produced.

use vstd::prelude::*;

use crate::codec::{dec_message, decode_message, enc_message, encode_message, frame_message, frame_of};
use crate::message::{clone_bytes, bytes_eq, route_view, TransportMessage};
use crate::ApiError;

verus! {

/// The addresses a connection worker pair answers to.
pub struct Addresses {
    /// Where peers send outbound messages for this connection.
    pub sender_address: Vec<u8>,
    /// Where the receiver sends control notifications for the sender.
    pub sender_internal_address: Vec<u8>,
    /// The receiver's own address, registered for diagnostics.
    pub receiver_address: Vec<u8>,
}

/// A message together with the local metadata attached while it traverses
/// this node: the session bound to the connection it arrived on.
pub struct LocalMessage {
    pub message: TransportMessage,
    pub session_id: Option<u64>,
}

/// The (onward route, return route, payload) view of a local message.
pub open spec fn local_message_view(m: LocalMessage) -> (Seq<Seq<u8>>, Seq<Seq<u8>>, Seq<u8>) {
    (route_view(m.message.onward_route@), route_view(m.message.return_route@), m.message.payload@)
}

/// The process-wide registry of live receiver workers, kept for diagnostics
/// and cleanup.
pub struct ConnectionRegistry {
    pub receiver_addresses: Vec<Vec<u8>>,
}

impl ConnectionRegistry {
    /// An empty registry.
    pub fn new() -> (r: ConnectionRegistry)
        ensures
            route_view(r.receiver_addresses@) == Seq::<Seq<u8>>::empty(),
    {
        let r = ConnectionRegistry { receiver_addresses: Vec::new() };
        proof {
            assert(route_view(r.receiver_addresses@) =~= Seq::<Seq<u8>>::empty());
        }
        r
    }

    /// Record a receiver worker's address.
    pub fn add_receiver_processor(&mut self, address: &Vec<u8>)
        ensures
            route_view(final(self).receiver_addresses@) == route_view(
                old(self).receiver_addresses@,
            ).push(address@),
    {
        let a = clone_bytes(address);
        self.receiver_addresses.push(a);
        proof {
            assert(route_view(self.receiver_addresses@) =~= route_view(
                old(self).receiver_addresses@,
            ).push(address@));
        }
    }

    /// Drop one record of a receiver worker's address, if one is present.
    pub fn remove_receiver_processor(&mut self, address: &Vec<u8>)
        ensures
            ({
                let before = route_view(old(self).receiver_addresses@);
                let after = route_view(final(self).receiver_addresses@);
                if exists|i: int| 0 <= i < before.len() && before[i] == address@ {
                    exists|i: int|
                        0 <= i < before.len() && before[i] == address@ && after == before.remove(i)
                } else {
                    after == before
                }
            }),
    {
        let ghost before = route_view(self.receiver_addresses@);
        let mut i: usize = 0;
        while i < self.receiver_addresses.len()
            invariant
                i <= self.receiver_addresses@.len(),
                self.receiver_addresses@ == old(self).receiver_addresses@,
                before == route_view(self.receiver_addresses@),
                forall|j: int| 0 <= j < i ==> before[j] != address@,
            decreases self.receiver_addresses@.len() - i,
        {
            if bytes_eq(&self.receiver_addresses[i], address) {
                proof {
                    assert(before[i as int] == address@);
                }
                self.receiver_addresses.remove(i);
                proof {
                    assert(route_view(self.receiver_addresses@) =~= before.remove(i as int));
                    assert(exists|j: int|
                        0 <= j < before.len() && before[j] == address@ && route_view(
                            self.receiver_addresses@,
                        ) == before.remove(j));
                }
                return ;
            }
            i += 1;
        }
    }
}

/// What one read on the stream produced, as the receive loop sees it.
pub enum WireEvent {
    /// The two-byte length header could not be read: the peer closed the
    /// stream or the read failed.
    HeaderError,
    /// The header announced `declared_length` bytes but the stream ended or
    /// failed before the payload was complete.
    ShortPayload { declared_length: u16 },
    /// A complete frame payload was read.
    Frame { payload: Vec<u8> },
}

/// What the node must do after one turn of the receive loop.
pub enum RecvAction {
    /// Tell the paired sender the connection is closed, then stop the loop.
    NotifySenderClosed { sender_internal_address: Vec<u8> },
    /// A single short-read frame is dropped; the connection stays open.
    DropFrame,
    /// The frame did not decode; the message is lost but the loop goes on.
    ReportMalformed,
    /// A heartbeat was consumed; nothing is forwarded.
    DropHeartbeat,
    /// Deliver this message to the router for its next hop.
    Forward { message: LocalMessage },
}

/// The receiving half of a connection worker pair.
pub struct TcpRecvProcessor {
    /// The peer's transport address, opaque bytes kept for diagnostics.
    pub peer: Vec<u8>,
    pub addresses: Addresses,
    /// The session bound to this connection, attached to every message it
    /// forwards.
    pub session_id: Option<u64>,
}

impl TcpRecvProcessor {
    /// A receiver for one live connection.
    pub fn new(peer: Vec<u8>, addresses: Addresses, session_id: Option<u64>) -> (r:
        TcpRecvProcessor)
        ensures
            r.peer == peer,
            r.addresses == addresses,
            r.session_id == session_id,
    {
        TcpRecvProcessor { peer, addresses, session_id }
    }

    /// On startup, the receiver records itself in the connection registry.
    pub fn initialize(&self, registry: &mut ConnectionRegistry)
        ensures
            route_view(final(registry).receiver_addresses@) == route_view(
                old(registry).receiver_addresses@,
            ).push(self.addresses.receiver_address@),
    {
        registry.add_receiver_processor(&self.addresses.receiver_address);
    }

    /// On shutdown, the receiver removes its record from the registry.
    pub fn shutdown(&self, registry: &mut ConnectionRegistry)
        ensures
            ({
                let before = route_view(old(registry).receiver_addresses@);
                let after = route_view(final(registry).receiver_addresses@);
                if exists|i: int| 0 <= i < before.len() && before[i] == self.addresses.receiver_address@ {
                    exists|i: int|
                        0 <= i < before.len() && before[i] == self.addresses.receiver_address@
                            && after == before.remove(i)
                } else {
                    after == before
                }
            }),
    {
        registry.remove_receiver_processor(&self.addresses.receiver_address);
    }

    /// One turn of the receive loop. The first component says whether the
    /// loop continues; the action says what the node must carry out.
    ///
    /// A header error is a graceful close: the loop ends and the paired
    /// sender is notified on this, as on every, terminal path. A short
    /// payload drops one frame only. A decodable frame with an empty onward
    /// route is a heartbeat and is discarded. Any other decodable frame is
    /// forwarded exactly once, with this connection's sender address
    /// prepended to its return route and the bound session attached.
    pub fn process(&self, event: WireEvent) -> (r: (bool, RecvAction))
        ensures
    // the loop ends exactly on the paths that notify the paired sender,
    // so no sender is left dangling without a reader

            !r.0 <==> r.1 is NotifySenderClosed,
            match event {
                WireEvent::HeaderError => !r.0 && (r.1 matches RecvAction::NotifySenderClosed {
                    sender_internal_address,
                } && sender_internal_address@ == self.addresses.sender_internal_address@),
                WireEvent::ShortPayload { .. } => r.0 && r.1 is DropFrame,
                WireEvent::Frame { payload } => r.0 && match dec_message(payload@) {
                    None => r.1 is ReportMalformed,
                    Some((onward, ret, pl)) => if onward.len() == 0 {
                        r.1 is DropHeartbeat
                    } else {
                        r.1 matches RecvAction::Forward { message } && message.session_id
                            == self.session_id && local_message_view(message) == (
                        onward,
                        seq![self.addresses.sender_address@] + ret,
                        pl,
                        )
                    },
                },
            },
    {
        match event {
            WireEvent::HeaderError => {
                let notify = RecvAction::NotifySenderClosed {
                    sender_internal_address: clone_bytes(&self.addresses.sender_internal_address),
                };
                (false, notify)
            },
            WireEvent::ShortPayload { .. } => (true, RecvAction::DropFrame),
            WireEvent::Frame { payload } => {
                let mut msg = match decode_message(&payload) {
                    Ok(m) => m,
                    Err(_) => {
                        return (true, RecvAction::ReportMalformed);
                    },
                };
                if msg.onward_route.len() == 0 {
                    return (true, RecvAction::DropHeartbeat);
                }
                msg.prepend_return_hop(clone_bytes(&self.addresses.sender_address));
                let message = LocalMessage { message: msg, session_id: self.session_id };
                (true, RecvAction::Forward { message })
            },
        }
    }
}

// ------------------------------------------------------------------
// Ordering of forwarded messages
// ------------------------------------------------------------------
/// The messages a receiver with sender address `sender` forwards for the
/// frame payloads `frames`, in the order received: each decodable frame with
/// a non-empty onward route contributes exactly one message, with `sender`
/// prepended to its return route.
pub open spec fn forwarded_views(sender: Seq<u8>, frames: Seq<Seq<u8>>) -> Seq<
    (Seq<Seq<u8>>, Seq<Seq<u8>>, Seq<u8>),
>
    decreases frames.len(),
{
    if frames.len() == 0 {
        Seq::empty()
    } else {
        let rest = forwarded_views(sender, frames.drop_last());
        match dec_message(frames.last()) {
            Some((onward, ret, pl)) => if onward.len() == 0 {
                rest
            } else {
                rest.push((onward, seq![sender] + ret, pl))
            },
            None => rest,
        }
    }
}

/// Law: a decodable frame with a non-empty onward route is forwarded exactly
/// once, after everything received before it, with the sender address
/// prepended to its return route.
pub proof fn lemma_forward_in_order(sender: Seq<u8>, frames: Seq<Seq<u8>>, f: Seq<u8>)
    requires
        dec_message(f) is Some,
        dec_message(f)->Some_0.0.len() > 0,
    ensures
        forwarded_views(sender, frames.push(f)) == forwarded_views(sender, frames).push(
            (
                dec_message(f)->Some_0.0,
                seq![sender] + dec_message(f)->Some_0.1,
                dec_message(f)->Some_0.2,
            ),
        ),
{
    assert(frames.push(f).drop_last() =~= frames);
    assert(frames.push(f).last() == f);
}

/// Law: a heartbeat frame (empty onward route) is consumed without
/// forwarding, and so is a frame that does not decode.
pub proof fn lemma_no_forward(sender: Seq<u8>, frames: Seq<Seq<u8>>, f: Seq<u8>)
    requires
        dec_message(f) is Some ==> dec_message(f)->Some_0.0.len() == 0,
    ensures
        forwarded_views(sender, frames.push(f)) == forwarded_views(sender, frames),
{
    assert(frames.push(f).drop_last() =~= frames);
    assert(frames.push(f).last() == f);
}

/// The views of a batch of forwarded messages.
pub open spec fn local_message_views(ms: Seq<LocalMessage>) -> Seq<
    (Seq<Seq<u8>>, Seq<Seq<u8>>, Seq<u8>),
> {
    Seq::new(ms.len(), |i: int| local_message_view(ms[i]))
}

impl TcpRecvProcessor {
    /// Run the receive loop over a batch of complete frame payloads and
    /// collect what gets forwarded: exactly the decodable frames with a
    /// non-empty onward route, transformed, in the order received.
    pub fn process_frames(&self, frames: Vec<Vec<u8>>) -> (r: Vec<LocalMessage>)
        ensures
            local_message_views(r@) == forwarded_views(
                self.addresses.sender_address@,
                route_view(frames@),
            ),
    {
        let ghost all = route_view(frames@);
        let mut out: Vec<LocalMessage> = Vec::new();
        let mut i: usize = 0;
        proof {
            assert(all.take(0) =~= Seq::<Seq<u8>>::empty());
            assert(local_message_views(out@) =~= forwarded_views(
                self.addresses.sender_address@,
                all.take(0),
            ));
        }
        for i in 0..frames.len()
            invariant
                all == route_view(frames@),
                local_message_views(out@) == forwarded_views(
                    self.addresses.sender_address@,
                    all.take(i as int),
                ),
        {
            let payload = clone_bytes(&frames[i]);
            let (_, action) = self.process(WireEvent::Frame { payload });
            proof {
                assert(all.take(i as int + 1).drop_last() =~= all.take(i as int));
                assert(all.take(i as int + 1).last() == all[i as int]);
            }
            match action {
                RecvAction::Forward { message } => {
                    out.push(message);
                    proof {
                        assert(local_message_views(out@) =~= forwarded_views(
                            self.addresses.sender_address@,
                            all.take(i as int + 1),
                        ));
                    }
                },
                _ => {
                    proof {
                        assert(local_message_views(out@) =~= forwarded_views(
                            self.addresses.sender_address@,
                            all.take(i as int + 1),
                        ));
                    }
                },
            }
        }
        proof {
            assert(all.take(frames@.len() as int) =~= all);
        }
        out
    }
}

// ------------------------------------------------------------------
// The sending half
// ------------------------------------------------------------------
/// What the sending half is asked to do.
pub enum SendEvent {
    /// An outbound message to frame and write to the stream.
    Message { message: TransportMessage },
    /// The control notification from the paired receiver: the stream closed.
    ConnectionClosed,
}

/// The sending half of a connection worker pair. Once its receiver reports
/// the connection closed it accepts no further work.
pub struct TcpSendWorker {
    pub closed: bool,
}

impl TcpSendWorker {
    /// A sender for one live connection.
    pub fn new() -> (r: TcpSendWorker)
        ensures
            !r.closed,
    {
        TcpSendWorker { closed: false }
    }

    /// One piece of the sender's mailbox work. `Ok(Some(bytes))` are the
    /// framed bytes to write to the stream; `Ok(None)` means there is
    /// nothing to write (the close notification was consumed).
    pub fn handle(&mut self, event: SendEvent) -> (r: Result<Option<Vec<u8>>, ApiError>)
        ensures
            match event {
                SendEvent::ConnectionClosed => final(self).closed && r == Ok::<
                    Option<Vec<u8>>,
                    ApiError,
                >(None),
                SendEvent::Message { message } => {
                    final(self).closed == old(self).closed && if old(self).closed {
                        r == Err::<Option<Vec<u8>>, ApiError>(ApiError::TransportClosed)
                    } else if !message.wf() || enc_message(
                        route_view(message.onward_route@),
                        route_view(message.return_route@),
                        message.payload@,
                    ).len() > 0xFFFF {
                        r == Err::<Option<Vec<u8>>, ApiError>(ApiError::InvalidRoute)
                    } else {
                        r matches Ok(Some(bytes)) && bytes@ == frame_of(
                            enc_message(
                                route_view(message.onward_route@),
                                route_view(message.return_route@),
                                message.payload@,
                            ),
                        )
                    }
                },
            },
    {
        match event {
            SendEvent::ConnectionClosed => {
                self.closed = true;
                Ok(None)
            },
            SendEvent::Message { message } => {
                if self.closed {
                    return Err(ApiError::TransportClosed);
                }
                if !message.check_wf() {
                    return Err(ApiError::InvalidRoute);
                }
                let encoded = encode_message(&message);
                if encoded.len() > 0xFFFF {
                    return Err(ApiError::InvalidRoute);
                }
                Ok(Some(frame_message(&encoded)))
            },
        }
    }
}

} // verus!
