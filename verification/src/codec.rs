//! Wire codec for transport messages.
//!
//! A message is encoded as its onward route, its return route, then the raw
//! payload bytes. A route is one count byte followed by that many addresses;
//! an address is a two-byte big-endian length followed by that many bytes.
//! A frame on the stream is a two-byte big-endian length prefix followed by
//! that many bytes of encoded message.

use vstd::prelude::*;

use crate::message::{addr_wf, route_view, route_wf, TransportMessage};
use crate::ApiError;

verus! {

// ------------------------------------------------------------------
// Specification-level encoder
// ------------------------------------------------------------------
/// Two big-endian bytes holding `n`.
pub open spec fn len16(n: nat) -> Seq<u8> {
    seq![(n / 256) as u8, (n % 256) as u8]
}

/// An address on the wire: two length bytes, then the address bytes.
pub open spec fn enc_addr(a: Seq<u8>) -> Seq<u8> {
    len16(a.len()) + a
}

/// The addresses of a route, one after the other.
pub open spec fn enc_hops(r: Seq<Seq<u8>>) -> Seq<u8>
    decreases r.len(),
{
    if r.len() == 0 {
        Seq::empty()
    } else {
        enc_addr(r[0]) + enc_hops(r.skip(1))
    }
}

/// A route on the wire: one count byte, then its addresses.
pub open spec fn enc_route(r: Seq<Seq<u8>>) -> Seq<u8> {
    seq![r.len() as u8] + enc_hops(r)
}

/// A whole message on the wire: onward route, return route, payload.
pub open spec fn enc_message(onward: Seq<Seq<u8>>, ret: Seq<Seq<u8>>, payload: Seq<u8>) -> Seq<
    u8,
> {
    enc_route(onward) + enc_route(ret) + payload
}

/// A frame on the stream: two length bytes, then the framed body.
pub open spec fn frame_of(body: Seq<u8>) -> Seq<u8> {
    len16(body.len()) + body
}

// ------------------------------------------------------------------
// Specification-level decoder
// ------------------------------------------------------------------
/// Read two big-endian length bytes; yield the value and the rest.
pub open spec fn dec_u16(b: Seq<u8>) -> Option<(nat, Seq<u8>)> {
    if b.len() >= 2 {
        Some(((b[0] * 256 + b[1]) as nat, b.skip(2)))
    } else {
        None
    }
}

/// Read one length-prefixed address; yield it and the rest.
pub open spec fn dec_addr(b: Seq<u8>) -> Option<(Seq<u8>, Seq<u8>)> {
    match dec_u16(b) {
        Some((n, rest)) => if n <= rest.len() {
            Some((rest.take(n as int), rest.skip(n as int)))
        } else {
            None
        },
        None => None,
    }
}

/// Read `count` addresses; yield them and the rest.
pub open spec fn dec_hops(b: Seq<u8>, count: nat) -> Option<(Seq<Seq<u8>>, Seq<u8>)>
    decreases count,
{
    if count == 0 {
        Some((Seq::empty(), b))
    } else {
        match dec_addr(b) {
            Some((a, rest)) => match dec_hops(rest, (count - 1) as nat) {
                Some((hops, rest2)) => Some((seq![a] + hops, rest2)),
                None => None,
            },
            None => None,
        }
    }
}

/// Read one count byte, then that many addresses.
pub open spec fn dec_route(b: Seq<u8>) -> Option<(Seq<Seq<u8>>, Seq<u8>)> {
    if b.len() >= 1 {
        dec_hops(b.skip(1), b[0] as nat)
    } else {
        None
    }
}

/// Read a whole message: two routes, then the payload is all that remains.
pub open spec fn dec_message(b: Seq<u8>) -> Option<(Seq<Seq<u8>>, Seq<Seq<u8>>, Seq<u8>)> {
    match dec_route(b) {
        Some((onward, rest)) => match dec_route(rest) {
            Some((ret, rest2)) => Some((onward, ret, rest2)),
            None => None,
        },
        None => None,
    }
}

// ------------------------------------------------------------------
// Round-trip lemmas
// ------------------------------------------------------------------
/// Two big-endian bytes carry any value up to 0xFFFF exactly.
pub proof fn lemma_len16_value(n: nat)
    requires
        n <= 0xFFFF,
    ensures
        len16(n).len() == 2,
        len16(n)[0] * 256 + len16(n)[1] == n,
{
    assert(n / 256 <= 255) by (nonlinear_arith)
        requires
            n <= 0xFFFF,
    ;
    assert(256 * (n / 256) + n % 256 == n) by (nonlinear_arith);
}

/// Decoding an encoded address consumes exactly that address.
pub proof fn lemma_dec_addr_enc(a: Seq<u8>, rest: Seq<u8>)
    requires
        addr_wf(a),
    ensures
        dec_addr(enc_addr(a) + rest) == Some((a, rest)),
{
    let b = enc_addr(a) + rest;
    lemma_len16_value(a.len());
    assert(b[0] == len16(a.len())[0]);
    assert(b[1] == len16(a.len())[1]);
    assert(b.skip(2) =~= a + rest);
    assert((b[0] * 256 + b[1]) as nat == a.len());
    assert((a + rest).take(a.len() as int) =~= a);
    assert((a + rest).skip(a.len() as int) =~= rest);
}

/// Decoding encoded hops consumes exactly those hops.
pub proof fn lemma_dec_hops_enc(r: Seq<Seq<u8>>, rest: Seq<u8>)
    requires
        forall|i: int| 0 <= i < r.len() ==> addr_wf(#[trigger] r[i]),
    ensures
        dec_hops(enc_hops(r) + rest, r.len()) == Some((r, rest)),
    decreases r.len(),
{
    if r.len() == 0 {
        assert(enc_hops(r) + rest =~= rest);
        assert(r =~= Seq::<Seq<u8>>::empty());
    } else {
        let tail = r.skip(1);
        assert(enc_hops(r) + rest =~= enc_addr(r[0]) + (enc_hops(tail) + rest));
        lemma_dec_addr_enc(r[0], enc_hops(tail) + rest);
        lemma_dec_hops_enc(tail, rest);
        assert(seq![r[0]] + tail =~= r);
    }
}

/// Decoding an encoded route consumes exactly that route.
pub proof fn lemma_dec_route_enc(r: Seq<Seq<u8>>, rest: Seq<u8>)
    requires
        route_wf(r),
    ensures
        dec_route(enc_route(r) + rest) == Some((r, rest)),
{
    let b = enc_route(r) + rest;
    assert(b[0] == r.len() as u8);
    assert(b.skip(1) =~= enc_hops(r) + rest);
    lemma_dec_hops_enc(r, rest);
}

/// Law: decoding an encoded message reproduces its routes and payload.
pub proof fn lemma_message_round_trip(onward: Seq<Seq<u8>>, ret: Seq<Seq<u8>>, payload: Seq<u8>)
    requires
        route_wf(onward),
        route_wf(ret),
    ensures
        dec_message(enc_message(onward, ret, payload)) == Some((onward, ret, payload)),
{
    let b = enc_message(onward, ret, payload);
    assert(b =~= enc_route(onward) + (enc_route(ret) + payload));
    lemma_dec_route_enc(onward, enc_route(ret) + payload);
    lemma_dec_route_enc(ret, payload);
}

/// Law: stripping the length prefix of a frame yields the framed body whole.
pub proof fn lemma_frame_round_trip(body: Seq<u8>)
    requires
        body.len() <= 0xFFFF,
    ensures
        dec_addr(frame_of(body)) == Some((body, Seq::<u8>::empty())),
{
    assert(frame_of(body) =~= enc_addr(body) + Seq::<u8>::empty());
    lemma_dec_addr_enc(body, Seq::<u8>::empty());
}

/// Law: a message encoded and framed, then unframed and decoded, comes back
/// unchanged.
pub proof fn lemma_encode_frame_round_trip(
    onward: Seq<Seq<u8>>,
    ret: Seq<Seq<u8>>,
    payload: Seq<u8>,
)
    requires
        route_wf(onward),
        route_wf(ret),
        enc_message(onward, ret, payload).len() <= 0xFFFF,
    ensures
        dec_addr(frame_of(enc_message(onward, ret, payload))) == Some(
            (enc_message(onward, ret, payload), Seq::<u8>::empty()),
        ),
        dec_message(enc_message(onward, ret, payload)) == Some((onward, ret, payload)),
{
    lemma_frame_round_trip(enc_message(onward, ret, payload));
    lemma_message_round_trip(onward, ret, payload);
}

// ------------------------------------------------------------------
// Executable encoder
// ------------------------------------------------------------------
/// `enc_hops` distributes over concatenation of hop sequences.
proof fn lemma_enc_hops_app(a: Seq<Seq<u8>>, b: Seq<Seq<u8>>)
    ensures
        enc_hops(a + b) == enc_hops(a) + enc_hops(b),
    decreases a.len(),
{
    if a.len() == 0 {
        assert(a + b =~= b);
        assert(enc_hops(a) + enc_hops(b) =~= enc_hops(b));
    } else {
        assert((a + b).skip(1) =~= a.skip(1) + b);
        lemma_enc_hops_app(a.skip(1), b);
        assert(enc_hops(a + b) =~= enc_hops(a) + enc_hops(b));
    }
}

/// Append the bytes of `b` to `out`.
fn append_bytes(out: &mut Vec<u8>, b: &Vec<u8>)
    ensures
        final(out)@ == old(out)@ + b@,
{
    let mut i: usize = 0;
    while i < b.len()
        invariant
            i <= b@.len(),
            out@ == old(out)@ + b@.take(i as int),
        decreases b@.len() - i,
    {
        out.push(b[i]);
        assert(old(out)@ + b@.take(i as int) + seq![b@[i as int]] =~= old(out)@ + b@.take(
            i as int + 1,
        ));
        i += 1;
    }
    assert(old(out)@ + b@.take(b@.len() as int) =~= old(out)@ + b@);
}

/// Append two big-endian bytes holding `n` to `out`.
fn push_len16(out: &mut Vec<u8>, n: usize)
    requires
        n <= 0xFFFF,
    ensures
        final(out)@ == old(out)@ + len16(n as nat),
{
    out.push((n / 256) as u8);
    out.push((n % 256) as u8);
    assert(old(out)@ + seq![((n as nat) / 256) as u8] + seq![((n as nat) % 256) as u8] =~= old(
        out,
    )@ + len16(n as nat));
}

/// Append one route in wire form to `out`.
fn encode_route_into(out: &mut Vec<u8>, route: &Vec<Vec<u8>>)
    requires
        route_wf(route_view(route@)),
    ensures
        final(out)@ == old(out)@ + enc_route(route_view(route@)),
{
    let ghost hops = route_view(route@);
    out.push(route.len() as u8);
    let mut i: usize = 0;
    while i < route.len()
        invariant
            i <= route@.len(),
            hops == route_view(route@),
            route_wf(hops),
            out@ == old(out)@ + seq![route@.len() as u8] + enc_hops(hops.take(i as int)),
        decreases route@.len() - i,
    {
        proof {
            assert(addr_wf(hops[i as int]));
            assert(route@[i as int]@ == hops[i as int]);
        }
        push_len16(out, route[i].len());
        append_bytes(out, &route[i]);
        proof {
            assert(hops.take(i as int + 1) =~= hops.take(i as int) + seq![hops[i as int]]);
            lemma_enc_hops_app(hops.take(i as int), seq![hops[i as int]]);
            assert(seq![hops[i as int]].skip(1) =~= Seq::<Seq<u8>>::empty());
            assert(seq![hops[i as int]][0] == hops[i as int]);
            assert(enc_hops(Seq::<Seq<u8>>::empty()) =~= Seq::<u8>::empty());
            assert(enc_hops(seq![hops[i as int]]) =~= enc_addr(hops[i as int]));
            assert(out@ =~= old(out)@ + seq![route@.len() as u8] + enc_hops(
                hops.take(i as int + 1),
            ));
        }
        i += 1;
    }
    proof {
        assert(hops.take(hops.len() as int) =~= hops);
        assert(old(out)@ + seq![route@.len() as u8] + enc_hops(hops) =~= old(out)@ + enc_route(
            hops,
        ));
    }
}

/// Encode a well-formed message into its wire form.
pub fn encode_message(msg: &TransportMessage) -> (r: Vec<u8>)
    requires
        msg.wf(),
    ensures
        r@ == enc_message(
            route_view(msg.onward_route@),
            route_view(msg.return_route@),
            msg.payload@,
        ),
{
    let mut out: Vec<u8> = Vec::new();
    encode_route_into(&mut out, &msg.onward_route);
    encode_route_into(&mut out, &msg.return_route);
    append_bytes(&mut out, &msg.payload);
    proof {
        assert(out@ =~= enc_message(
            route_view(msg.onward_route@),
            route_view(msg.return_route@),
            msg.payload@,
        ));
    }
    out
}

/// Encode any message, rejecting one whose routes do not fit the wire format.
pub fn encode_message_checked(msg: &TransportMessage) -> (r: Result<Vec<u8>, ApiError>)
    ensures
        match r {
            Ok(bytes) => msg.wf() && bytes@ == enc_message(
                route_view(msg.onward_route@),
                route_view(msg.return_route@),
                msg.payload@,
            ),
            Err(e) => e == ApiError::InvalidRoute && !msg.wf(),
        },
{
    if msg.check_wf() {
        Ok(encode_message(msg))
    } else {
        Err(ApiError::InvalidRoute)
    }
}

/// Put a two-byte big-endian length prefix in front of an encoded message.
pub fn frame_message(body: &Vec<u8>) -> (r: Vec<u8>)
    requires
        body@.len() <= 0xFFFF,
    ensures
        r@ == frame_of(body@),
{
    let mut out: Vec<u8> = Vec::new();
    push_len16(&mut out, body.len());
    append_bytes(&mut out, body);
    proof {
        assert(out@ =~= frame_of(body@));
    }
    out
}

/// The frame length carried by the two bytes of a frame's length prefix.
pub fn frame_length(b0: u8, b1: u8) -> (r: u16)
    ensures
        r == b0 * 256 + b1,
{
    (b0 as u16) * 256 + (b1 as u16)
}

// ------------------------------------------------------------------
// Executable decoder
// ------------------------------------------------------------------
/// Read one length-prefixed address starting at `pos`.
fn decode_addr(b: &Vec<u8>, pos: usize) -> (r: Option<(Vec<u8>, usize)>)
    requires
        pos <= b@.len(),
    ensures
        match r {
            Some(p) => pos <= p.1 <= b@.len() && dec_addr(b@.skip(pos as int)) == Some(
                (p.0@, b@.skip(p.1 as int)),
            ),
            None => dec_addr(b@.skip(pos as int)) is None,
        },
{
    let ghost tail = b@.skip(pos as int);
    if b.len() - pos < 2 {
        return None;
    }
    let n = (b[pos] as usize) * 256 + (b[pos + 1] as usize);
    proof {
        assert(tail[0] == b@[pos as int]);
        assert(tail[1] == b@[pos as int + 1]);
        assert(tail.skip(2) =~= b@.skip(pos as int + 2));
    }
    if n > b.len() - (pos + 2) {
        proof {
            assert(tail.skip(2).len() < n);
        }
        return None;
    }
    let start = pos + 2;
    let end = start + n;
    let mut a: Vec<u8> = Vec::new();
    let mut i: usize = 0;
    while i < n
        invariant
            i <= n,
            end == start + n,
            start + n <= b@.len(),
            a@ == b@.subrange(start as int, start as int + i as int),
        decreases n - i,
    {
        a.push(b[start + i]);
        assert(a@ =~= b@.subrange(start as int, start as int + i as int + 1));
        i += 1;
    }
    proof {
        assert(tail.skip(2).take(n as int) =~= b@.subrange(start as int, start as int + n as int));
        assert(tail.skip(2).skip(n as int) =~= b@.skip(start as int + n as int));
    }
    Some((a, start + n))
}

/// Read `count` addresses starting at `pos`.
fn decode_hops(b: &Vec<u8>, pos: usize, count: u8) -> (r: Option<(Vec<Vec<u8>>, usize)>)
    requires
        pos <= b@.len(),
    ensures
        match r {
            Some(p) => pos <= p.1 <= b@.len() && dec_hops(b@.skip(pos as int), count as nat)
                == Some((route_view(p.0@), b@.skip(p.1 as int))),
            None => dec_hops(b@.skip(pos as int), count as nat) is None,
        },
    decreases count,
{
    if count == 0 {
        let hops: Vec<Vec<u8>> = Vec::new();
        proof {
            assert(route_view(hops@) =~= Seq::<Seq<u8>>::empty());
        }
        return Some((hops, pos));
    }
    match decode_addr(b, pos) {
        None => None,
        Some((a, pos2)) => {
            match decode_hops(b, pos2, count - 1) {
                None => None,
                Some((mut hops, pos3)) => {
                    let ghost rest_hops = route_view(hops@);
                    hops.insert(0, a);
                    proof {
                        assert(route_view(hops@) =~= seq![a@] + rest_hops);
                    }
                    Some((hops, pos3))
                },
            }
        },
    }
}

/// Read one route starting at `pos`.
fn decode_route(b: &Vec<u8>, pos: usize) -> (r: Option<(Vec<Vec<u8>>, usize)>)
    requires
        pos <= b@.len(),
    ensures
        match r {
            Some(p) => pos <= p.1 <= b@.len() && dec_route(b@.skip(pos as int)) == Some(
                (route_view(p.0@), b@.skip(p.1 as int)),
            ),
            None => dec_route(b@.skip(pos as int)) is None,
        },
{
    let ghost tail = b@.skip(pos as int);
    if pos >= b.len() {
        return None;
    }
    let count = b[pos];
    proof {
        assert(tail[0] == b@[pos as int]);
        assert(tail.skip(1) =~= b@.skip(pos as int + 1));
    }
    decode_hops(b, pos + 1, count)
}

/// Decode a message from the bytes of one frame. A failure is the fatal
/// protocol error for that single message; the connection survives it.
pub fn decode_message(b: &Vec<u8>) -> (r: Result<TransportMessage, ApiError>)
    ensures
        match r {
            Ok(m) => dec_message(b@) == Some(
                (route_view(m.onward_route@), route_view(m.return_route@), m.payload@),
            ),
            Err(e) => e == ApiError::MalformedFrame && dec_message(b@) is None,
        },
{
    proof {
        assert(b@.skip(0) =~= b@);
    }
    let (onward, pos) = match decode_route(b, 0) {
        Some(p) => p,
        None => {
            return Err(ApiError::MalformedFrame);
        },
    };
    let (ret, pos2) = match decode_route(b, pos) {
        Some(p) => p,
        None => {
            return Err(ApiError::MalformedFrame);
        },
    };
    let mut payload: Vec<u8> = Vec::new();
    let mut i: usize = pos2;
    while i < b.len()
        invariant
            pos2 <= i <= b@.len(),
            payload@ == b@.subrange(pos2 as int, i as int),
        decreases b@.len() - i,
    {
        payload.push(b[i]);
        assert(payload@ =~= b@.subrange(pos2 as int, i as int + 1));
        i += 1;
    }
    proof {
        assert(payload@ =~= b@.skip(pos2 as int));
    }
    Ok(TransportMessage { onward_route: onward, return_route: ret, payload })
}

} // verus!
