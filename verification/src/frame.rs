//! The sidecar wire format: each message is a four-byte little-endian length
//! followed by that many bytes of payload.
use vstd::prelude::*;

verus! {

/// Why a payload cannot be framed.
#[derive(Clone, Copy, Debug, PartialEq, Eq, Structural)]
pub enum FrameError {
    /// The payload is longer than a 32-bit length can describe.
    MessageTooLarge,
}

/// The little-endian bytes of `n`.
pub open spec fn le_bytes(n: u32) -> Seq<u8> {
    seq![
        (n % 256) as u8,
        ((n / 256) % 256) as u8,
        ((n / 65536) % 256) as u8,
        (n / 16777216) as u8,
    ]
}

/// The number four little-endian bytes encode.
pub open spec fn le_value(b: Seq<u8>) -> nat {
    (b[0] + 256 * b[1] + 65536 * b[2] + 16777216 * b[3]) as nat
}

/// A frame: the payload's length in four little-endian bytes, then the
/// payload.
pub open spec fn frame_of(payload: Seq<u8>) -> Seq<u8> {
    le_bytes(payload.len() as u32) + payload
}

/// Frames `payload`; a payload longer than `u32::MAX` bytes is refused.
pub fn encode_frame(payload: &[u8]) -> (r: Result<Vec<u8>, FrameError>)
    ensures
        match r {
            Ok(frame) => payload@.len() <= u32::MAX && frame@ == frame_of(payload@),
            Err(e) => payload@.len() > u32::MAX && e == FrameError::MessageTooLarge,
        },
{
    if payload.len() > 0xffff_ffff {
        return Err(FrameError::MessageTooLarge);
    }
    let n = payload.len() as u32;
    let mut frame: Vec<u8> = Vec::new();
    frame.push((n % 256) as u8);
    frame.push(((n / 256) % 256) as u8);
    frame.push(((n / 65536) % 256) as u8);
    frame.push((n / 16777216) as u8);
    let mut i: usize = 0;
    while i < payload.len()
        invariant
            i <= payload@.len(),
            n == payload@.len(),
            frame@ == le_bytes(n) + payload@.take(i as int),
        decreases payload@.len() - i,
    {
        frame.push(payload[i]);
        assert(frame@ =~= le_bytes(n) + payload@.take(i + 1));
        i += 1;
    }
    assert(payload@.take(payload@.len() as int) =~= payload@);
    Ok(frame)
}

/// The payload length announced by a frame header.
pub fn frame_length(header: [u8; 4]) -> (r: u32)
    ensures
        r == le_value(header@),
{
    header[0] as u32 + 256 * (header[1] as u32) + 65536 * (header[2] as u32) + 16777216 * (
    header[3] as u32)
}

/// Reading a frame's header gives back the payload's length, and the rest
/// of the frame is the payload.
pub proof fn law_frame_round_trip(payload: Seq<u8>)
    requires
        payload.len() <= u32::MAX,
    ensures
        frame_of(payload).len() == payload.len() + 4,
        le_value(frame_of(payload).take(4)) == payload.len(),
        frame_of(payload).skip(4) == payload,
{
    let n = payload.len() as u32;
    let f = frame_of(payload);
    assert(f.take(4) =~= le_bytes(n));
    assert(f.skip(4) =~= payload);
    assert(le_value(le_bytes(n)) == n) by (nonlinear_arith)
        requires
            le_bytes(n) == seq![
                (n % 256) as u8,
                ((n / 256) % 256) as u8,
                ((n / 65536) % 256) as u8,
                (n / 16777216) as u8,
            ],
    {
    }
}

} // verus!
