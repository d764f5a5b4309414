//! The datagram layout: an optional big-endian type-id header, then the payload.
use vstd::prelude::*;
use byteorder::{BigEndian, ByteOrder};

verus! {

/// Width in bytes of the type-id header that precedes the payload.
pub const HEADER_LEN: usize = 8;

/// Id under which every datagram is filed when the wire carries no header.
pub const SHARED_ID: u64 = 1;

/// The eight bytes of `v`, most significant first.
pub open spec fn be_bytes(v: u64) -> Seq<u8> {
    seq![
        (v >> 56u64) as u8,
        (v >> 48u64) as u8,
        (v >> 40u64) as u8,
        (v >> 32u64) as u8,
        (v >> 24u64) as u8,
        (v >> 16u64) as u8,
        (v >> 8u64) as u8,
        v as u8,
    ]
}

/// The number whose big-endian encoding is the first eight bytes of `s`.
pub open spec fn be_value(s: Seq<u8>) -> u64
    recommends
        s.len() >= 8,
{
    ((s[0] as u64) << 56u64) | ((s[1] as u64) << 48u64) | ((s[2] as u64) << 40u64) | ((
    s[3] as u64) << 32u64) | ((s[4] as u64) << 24u64) | ((s[5] as u64) << 16u64) | ((
    s[6] as u64) << 8u64) | (s[7] as u64)
}

/// Relies on byteorder's `BigEndian::read_u64`: the first eight bytes of
/// `buf`, most significant first (it panics on fewer than eight).
#[verifier::external_body]
fn read_be_u64(buf: &[u8]) -> (r: u64)
    requires
        buf@.len() >= 8,
    ensures
        r == be_value(buf@),
{
    BigEndian::read_u64(buf)
}

/// Relies on byteorder's `BigEndian::write_u64`: writes `v` into eight
/// bytes, most significant first.
#[verifier::external_body]
fn be_u64_bytes(v: u64) -> (r: [u8; 8])
    ensures
        r@ == be_bytes(v),
{
    let mut buf = [0u8; 8];
    BigEndian::write_u64(&mut buf, v);
    buf
}

/// Reading back the eight bytes written for `v` gives `v`.
pub proof fn lemma_be_round_trip(v: u64)
    ensures
        be_value(be_bytes(v)) == v,
{
    let s = be_bytes(v);
    assert(((((v >> 56u64) as u8) as u64) << 56u64) | ((((v >> 48u64) as u8) as u64) << 48u64)
        | ((((v >> 40u64) as u8) as u64) << 40u64) | ((((v >> 32u64) as u8) as u64) << 32u64)
        | ((((v >> 24u64) as u8) as u64) << 24u64) | ((((v >> 16u64) as u8) as u64) << 16u64)
        | ((((v >> 8u64) as u8) as u64) << 8u64) | ((v as u8) as u64) == v) by (bit_vector);
}

/// The datagram that carries `payload`: behind the header of `id` when the
/// wire carries ids, bare otherwise.
pub open spec fn framed(use_ids: bool, id: u64, payload: Seq<u8>) -> Seq<u8> {
    if use_ids {
        be_bytes(id) + payload
    } else {
        payload
    }
}

/// The first `n` bytes of `s`, or all of `s` when it is shorter.
pub open spec fn truncated(s: Seq<u8>, n: int) -> Seq<u8> {
    if n < s.len() {
        s.take(n)
    } else {
        s
    }
}

/// What a received datagram is filed as: its id and its payload. With ids on,
/// a datagram too short to hold the header is dropped (`None`); with ids off,
/// everything is filed whole under `SHARED_ID`.
pub open spec fn unframed(use_ids: bool, datagram: Seq<u8>) -> Option<(u64, Seq<u8>)> {
    if !use_ids {
        Some((SHARED_ID, datagram))
    } else if datagram.len() < HEADER_LEN {
        None
    } else {
        Some((be_value(datagram), datagram.skip(HEADER_LEN as int)))
    }
}

/// A datagram framed for `id` is filed under `id` (under `SHARED_ID` when
/// the wire carries no ids) with its payload intact.
pub proof fn lemma_frame_round_trip(use_ids: bool, id: u64, payload: Seq<u8>)
    ensures
        unframed(use_ids, framed(use_ids, id, payload)) == Some(
            (if use_ids { id } else { SHARED_ID }, payload),
        ),
{
    if use_ids {
        let d = framed(use_ids, id, payload);
        lemma_be_round_trip(id);
        assert(d.take(8) =~= be_bytes(id));
        assert(be_value(d) == be_value(be_bytes(id)));
        assert(d.skip(HEADER_LEN as int) =~= payload);
    }
}

/// Builds the datagram that carries `payload` as a message of id `id`.
pub fn frame(use_ids: bool, id: u64, payload: Vec<u8>) -> (r: Vec<u8>)
    ensures
        r@ == framed(use_ids, id, payload@),
{
    let mut payload = payload;
    let mut wtr: Vec<u8> = Vec::new();
    if use_ids {
        let header = be_u64_bytes(id);
        let mut i: usize = 0;
        while i < HEADER_LEN
            invariant
                0 <= i <= HEADER_LEN,
                header@ == be_bytes(id),
                wtr@ == header@.take(i as int),
            decreases HEADER_LEN - i,
        {
            wtr.push(header[i]);
            i = i + 1;
        }
        assert(wtr@ =~= be_bytes(id));
    }
    let ghost body = payload@;
    wtr.append(&mut payload);
    assert(wtr@ =~= framed(use_ids, id, body));
    wtr
}

/// Splits a receive buffer, of which the first `received` bytes were
/// filled, into the id and the payload that it is filed under.
pub fn unframe(use_ids: bool, buffer: Vec<u8>, received: usize) -> (r: Option<(u64, Vec<u8>)>)
    ensures
        match (r, unframed(use_ids, truncated(buffer@, received as int))) {
            (Some((id, payload)), Some((uid, upayload))) => id == uid && payload@ == upayload,
            (None, None) => true,
            _ => false,
        },
{
    let ghost whole = buffer@;
    let mut buffer = buffer;
    buffer.truncate(received);
    assert(buffer@ =~= truncated(whole, received as int));
    if !use_ids {
        Some((SHARED_ID, buffer))
    } else if buffer.len() < HEADER_LEN {
        None
    } else {
        let id = read_be_u64(buffer.as_slice());
        let payload = buffer.split_off(HEADER_LEN);
        assert(payload@ =~= truncated(whole, received as int).skip(HEADER_LEN as int));
        Some((id, payload))
    }
}

} // verus!
