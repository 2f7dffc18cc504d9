//! Framing of the header a distro-side helper sends over the byte-stream
//! transport when it connects: a 4-byte little-endian length prefix followed
//! by the encoded payload. The encoding of the payload itself happens at the
//! edge; this module owns the frame layout, so that what one end frames the
//! other end reads back.

use vstd::bytes::{
    lemma_auto_spec_u32_to_from_le_bytes, spec_u32_from_le_bytes, spec_u32_to_le_bytes,
    u32_from_le_bytes, u32_to_le_bytes,
};
use vstd::prelude::*;

verus! {

#[derive(Clone, Copy, Debug, PartialEq, Eq, Structural)]
pub enum FrameError {
    /// The payload is longer than the 4-byte length prefix can say.
    TooLong,
    /// The length prefix is not 4 bytes.
    BadPrefix,
}

/// The wire form of a header: its length, little endian, then its bytes.
pub open spec fn framed(payload: Seq<u8>) -> Seq<u8> {
    spec_u32_to_le_bytes(payload.len() as u32) + payload
}

/// Frames a header payload for the transport.
pub fn frame_header(payload: &Vec<u8>) -> (r: Result<Vec<u8>, FrameError>)
    ensures
        payload.len() <= u32::MAX <==> r is Ok,
        r matches Ok(out) ==> out@ == framed(payload@),
{
    if payload.len() > u32::MAX as usize {
        return Err(FrameError::TooLong);
    }
    let mut out = u32_to_le_bytes(payload.len() as u32);
    let n = payload.len();
    let ghost prefix = out@;
    let mut i: usize = 0;
    while i < n
        invariant
            n == payload.len(),
            i <= n,
            prefix == spec_u32_to_le_bytes(payload.len() as u32),
            out@ == prefix + payload@.take(i as int),
        decreases n - i,
    {
        out.push(payload[i]);
        i = i + 1;
    }
    proof {
        assert(out@ =~= framed(payload@));
    }
    Ok(out)
}

/// Reads the payload length out of a frame's 4-byte prefix.
pub fn frame_payload_len(prefix: &Vec<u8>) -> (r: Result<u32, FrameError>)
    ensures
        prefix.len() == 4 <==> r is Ok,
        r matches Ok(n) ==> n == spec_u32_from_le_bytes(prefix@),
{
    if prefix.len() != 4 {
        return Err(FrameError::BadPrefix);
    }
    Ok(u32_from_le_bytes(prefix.as_slice()))
}

/// Framing round trip: the prefix of a framed payload reads back as the
/// payload's length, and the rest is the payload itself.
pub proof fn lemma_frame_round_trip(payload: Seq<u8>)
    requires
        payload.len() <= u32::MAX,
    ensures
        framed(payload).len() == payload.len() + 4,
        spec_u32_from_le_bytes(framed(payload).take(4)) == payload.len(),
        framed(payload).skip(4) == payload,
{
    lemma_auto_spec_u32_to_from_le_bytes();
    assert(framed(payload).take(4) =~= spec_u32_to_le_bytes(payload.len() as u32));
    assert(framed(payload).skip(4) =~= payload);
}

} // verus!
