//! Routed transport messages: an onward route, a return route and a payload.
//!
//! A route is an ordered sequence of hop addresses; an address is an opaque
//! byte string. A message whose onward route is empty is a heartbeat and is
//! never forwarded.

use vstd::prelude::*;

verus! {

/// The sequence-of-byte-strings view of a vector of addresses.
pub open spec fn route_view(r: Seq<Vec<u8>>) -> Seq<Seq<u8>> {
    Seq::new(r.len(), |i: int| r[i]@)
}

/// An address fits the wire format: its length is carried in two bytes.
pub open spec fn addr_wf(a: Seq<u8>) -> bool {
    a.len() <= 0xFFFF
}

/// A route fits the wire format: its hop count is carried in one byte and
/// every hop address is well-formed.
pub open spec fn route_wf(r: Seq<Seq<u8>>) -> bool {
    &&& r.len() <= 0xFF
    &&& forall|i: int| 0 <= i < r.len() ==> addr_wf(#[trigger] r[i])
}

/// A discrete message carried over the routed messaging fabric.
#[derive(Debug)]
pub struct TransportMessage {
    /// The hops still to be traversed towards the destination.
    pub onward_route: Vec<Vec<u8>>,
    /// The hops a reply should traverse, nearest hop first.
    pub return_route: Vec<Vec<u8>>,
    /// The application payload, opaque to the core.
    pub payload: Vec<u8>,
}

impl TransportMessage {
    /// Both routes fit the wire format.
    pub open spec fn wf(self) -> bool {
        route_wf(route_view(self.onward_route@)) && route_wf(route_view(self.return_route@))
    }

    /// The message is a heartbeat: nothing remains of its onward route.
    pub open spec fn is_heartbeat(self) -> bool {
        self.onward_route@.len() == 0
    }

    /// Put `hop` in front of the return route, so that replies travel back
    /// through the worker that inserted it.
    pub fn prepend_return_hop(&mut self, hop: Vec<u8>)
        ensures
            final(self).onward_route == old(self).onward_route,
            final(self).payload == old(self).payload,
            route_view(final(self).return_route@) == seq![hop@] + route_view(
                old(self).return_route@,
            ),
    {
        self.return_route.insert(0, hop);
        proof {
            assert(route_view(self.return_route@) =~= seq![hop@] + route_view(
                old(self).return_route@,
            ));
        }
    }

    /// Whether both routes fit the wire format, decided executably.
    pub fn check_wf(&self) -> (r: bool)
        ensures
            r == self.wf(),
    {
        let onward_ok = route_fits(&self.onward_route);
        let return_ok = route_fits(&self.return_route);
        onward_ok && return_ok
    }
}

/// Whether two byte strings hold the same bytes.
pub fn bytes_eq(a: &Vec<u8>, b: &Vec<u8>) -> (r: bool)
    ensures
        r == (a@ == b@),
{
    if a.len() != b.len() {
        return false;
    }
    let mut i: usize = 0;
    while i < a.len()
        invariant
            a@.len() == b@.len(),
            i <= a@.len(),
            forall|j: int| 0 <= j < i ==> a@[j] == b@[j],
        decreases a@.len() - i,
    {
        if a[i] != b[i] {
            return false;
        }
        i += 1;
    }
    proof {
        assert(a@ =~= b@);
    }
    true
}

/// A fresh byte string holding the same bytes.
pub fn clone_bytes(b: &Vec<u8>) -> (r: Vec<u8>)
    ensures
        r@ == b@,
{
    let mut out: Vec<u8> = Vec::new();
    let mut i: usize = 0;
    while i < b.len()
        invariant
            i <= b@.len(),
            out@ == b@.take(i as int),
        decreases b@.len() - i,
    {
        out.push(b[i]);
        assert(out@ =~= b@.take(i as int + 1));
        i += 1;
    }
    proof {
        assert(out@ =~= b@);
    }
    out
}

/// Whether a route fits the wire format, decided executably.
pub fn route_fits(route: &Vec<Vec<u8>>) -> (r: bool)
    ensures
        r == route_wf(route_view(route@)),
{
    if route.len() > 0xFF {
        return false;
    }
    let mut i: usize = 0;
    while i < route.len()
        invariant
            i <= route@.len() <= 0xFF,
            forall|j: int| 0 <= j < i ==> addr_wf(#[trigger] route_view(route@)[j]),
        decreases route@.len() - i,
    {
        if route[i].len() > 0xFFFF {
            assert(!addr_wf(route_view(route@)[i as int]));
            return false;
        }
        assert(addr_wf(route_view(route@)[i as int]));
        i += 1;
    }
    true
}

} // verus!
