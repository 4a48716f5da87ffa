//! Length-delimited stream framing: one envelope per framed unit.
//!
//! On the wire a frame is a 4-byte big-endian length prefix followed by
//! that many payload bytes. The decoder is incremental: handed the front
//! of a receive buffer it either splits off one complete frame and says
//! how many bytes it consumed, or reports that more bytes are needed.

use vstd::prelude::*;

use crate::bytesutil::copy_range;

verus! {

/// Length of the length prefix.
pub const LENGTH_PREFIX_LEN: usize = 4;

/// The big-endian bytes of a 32-bit length.
pub open spec fn u32_be_bytes(n: u32) -> Seq<u8> {
    seq![(n >> 24) as u8, ((n >> 16) & 0xff) as u8, ((n >> 8) & 0xff) as u8, (n & 0xff) as u8]
}

/// The 32-bit value the four prefix bytes declare.
pub open spec fn u32_from_be(b0: u8, b1: u8, b2: u8, b3: u8) -> u32 {
    (((b0 as u32) << 24) | ((b1 as u32) << 16) | ((b2 as u32) << 8) | (b3 as u32)) as u32
}

/// Reading back the big-endian bytes of a length gives the length.
pub proof fn lemma_u32_be_round_trip(n: u32)
    ensures
        u32_from_be(
            (n >> 24) as u8,
            ((n >> 16) & 0xff) as u8,
            ((n >> 8) & 0xff) as u8,
            (n & 0xff) as u8,
        ) == n,
{
    assert((((((n >> 24) as u8) as u32) << 24) | (((((n >> 16) & 0xff) as u8) as u32) << 16) | ((((
    (n >> 8) & 0xff) as u8) as u32) << 8) | (((n & 0xff) as u8) as u32)) == n) by (bit_vector);
}

/// One payload framed for the wire: its length, then its bytes.
pub open spec fn frame_bytes(payload: Seq<u8>) -> Seq<u8> {
    u32_be_bytes(payload.len() as u32) + payload
}

/// The length the front of a buffer declares.
pub open spec fn declared_len(b: Seq<u8>) -> int
    recommends
        b.len() >= LENGTH_PREFIX_LEN,
{
    u32_from_be(b[0], b[1], b[2], b[3]) as int
}

/// Whether the front of the buffer holds one complete frame.
pub open spec fn has_complete_frame(b: Seq<u8>) -> bool {
    b.len() >= LENGTH_PREFIX_LEN && b.len() >= LENGTH_PREFIX_LEN + declared_len(b)
}

/// The payload of the buffer's first complete frame.
pub open spec fn first_frame_payload(b: Seq<u8>) -> Seq<u8>
    recommends
        has_complete_frame(b),
{
    b.subrange(LENGTH_PREFIX_LEN as int, LENGTH_PREFIX_LEN + declared_len(b))
}

/// Frames `payload` for the wire: the length prefix, then the payload.
pub fn encode_frame(payload: &[u8]) -> (r: Vec<u8>)
    requires
        payload@.len() <= u32::MAX,
    ensures
        r@ == frame_bytes(payload@),
        r@.len() == LENGTH_PREFIX_LEN + payload@.len(),
{
    let n: u32 = payload.len() as u32;
    let mut out: Vec<u8> = Vec::new();
    out.push((n >> 24) as u8);
    out.push(((n >> 16) & 0xff) as u8);
    out.push(((n >> 8) & 0xff) as u8);
    out.push((n & 0xff) as u8);
    crate::bytesutil::extend_bytes(&mut out, payload);
    proof {
        assert(out@ =~= u32_be_bytes(n) + payload@);
    }
    out
}

/// Splits one complete frame off the front of a receive buffer: the
/// payload and how many bytes of the buffer it consumed. `None` exactly
/// when the buffer does not yet hold a complete frame, so the reader keeps
/// buffering.
pub fn try_decode_frame(buf: &[u8]) -> (r: Option<(Vec<u8>, usize)>)
    ensures
        r is Some <==> has_complete_frame(buf@),
        r matches Some(p) ==> {
            &&& p.0@ == first_frame_payload(buf@)
            &&& p.1 == LENGTH_PREFIX_LEN + declared_len(buf@)
            &&& p.1 <= buf@.len()
        },
{
    if buf.len() < LENGTH_PREFIX_LEN {
        return None;
    }
    let n: u32 = ((buf[0] as u32) << 24) | ((buf[1] as u32) << 16) | ((buf[2] as u32) << 8) | (
    buf[3] as u32);
    assert(n == u32_from_be(buf@[0], buf@[1], buf@[2], buf@[3]));
    if buf.len() - LENGTH_PREFIX_LEN < n as usize {
        return None;
    }
    let end: usize = LENGTH_PREFIX_LEN + n as usize;
    let payload = copy_range(buf, LENGTH_PREFIX_LEN, end);
    Some((payload, end))
}

/// Framing round trip: a framed payload at the front of any buffer is
/// split back off as exactly that payload, consuming exactly the frame.
pub proof fn lemma_frame_round_trip(payload: Seq<u8>, rest: Seq<u8>)
    requires
        payload.len() <= u32::MAX,
    ensures
        has_complete_frame(frame_bytes(payload) + rest),
        first_frame_payload(frame_bytes(payload) + rest) == payload,
        declared_len(frame_bytes(payload) + rest) == payload.len(),
{
    let n = payload.len() as u32;
    let b = frame_bytes(payload) + rest;
    lemma_u32_be_round_trip(n);
    assert(b[0] == (n >> 24) as u8);
    assert(b[1] == ((n >> 16) & 0xff) as u8);
    assert(b[2] == ((n >> 8) & 0xff) as u8);
    assert(b[3] == (n & 0xff) as u8);
    assert(declared_len(b) == n as int);
    assert(first_frame_payload(b) =~= payload);
}

} // verus!
