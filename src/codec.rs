use vstd::prelude::*;

verus! {

/// The four big-endian bytes of `n`.
pub open spec fn be_bytes(n: u32) -> Seq<u8> {
    seq![(n >> 24u32) as u8, (n >> 16u32) as u8, (n >> 8u32) as u8, n as u8]
}

/// The number that four big-endian bytes stand for.
#[verifier::opaque]
pub open spec fn be_value(b0: u8, b1: u8, b2: u8, b3: u8) -> u32 {
    ((b0 as u32) << 24u32) | ((b1 as u32) << 16u32) | ((b2 as u32) << 8u32) | (b3 as u32)
}

/// The length that the header at the start of `buf` announces.
pub open spec fn header_len(buf: Seq<u8>) -> u32
    recommends
        buf.len() >= 4,
{
    be_value(buf[0], buf[1], buf[2], buf[3])
}

/// A frame: the payload's length as a big-endian `u32`, then the payload.
pub open spec fn frame(payload: Seq<u8>) -> Seq<u8> {
    be_bytes(payload.len() as u32) + payload
}

/// `buf` starts with a whole frame with a non-empty payload.
pub open spec fn frame_complete(buf: Seq<u8>) -> bool {
    &&& buf.len() >= 4
    &&& header_len(buf) > 0
    &&& buf.len() >= 4 + header_len(buf)
}

/// The payload of the frame at the start of `buf`.
pub open spec fn frame_payload(buf: Seq<u8>) -> Seq<u8> {
    buf.subrange(4, 4 + header_len(buf))
}

/// Why a payload cannot be framed, or a header read.
#[derive(PartialEq, Eq, Structural, Debug, Clone, Copy)]
pub enum FrameError {
    /// A frame must carry at least one byte.
    Empty,
    /// The payload's length does not fit the `u32` header.
    TooLong,
}

/// The result of looking for a frame at the start of a buffer.
pub enum Decoded {
    /// More bytes are needed.
    Incomplete,
    /// A whole frame: its payload, and how many bytes of the buffer it took.
    Frame { payload: Vec<u8>, used: usize },
    /// The header announces an empty payload, which the protocol forbids.
    Invalid,
}

/// Frames a payload for the wire.
pub fn encode_frame(payload: &[u8]) -> (r: Result<Vec<u8>, FrameError>)
    ensures
        match r {
            Ok(v) => 0 < payload@.len() <= u32::MAX && v@ == frame(payload@),
            Err(FrameError::Empty) => payload@.len() == 0,
            Err(FrameError::TooLong) => payload@.len() > u32::MAX,
        },
{
    let len = payload.len();
    if len == 0 {
        return Err(FrameError::Empty);
    }
    if len > u32::MAX as usize {
        return Err(FrameError::TooLong);
    }
    let n = len as u32;
    let mut v: Vec<u8> = Vec::with_capacity(len);
    v.push(#[verifier::truncate] ((n >> 24u32) as u8));
    v.push(#[verifier::truncate] ((n >> 16u32) as u8));
    v.push(#[verifier::truncate] ((n >> 8u32) as u8));
    v.push(#[verifier::truncate] (n as u8));
    assert(v@ =~= be_bytes(n));
    let mut i: usize = 0;
    while i < len
        invariant
            i <= len,
            len == payload@.len(),
            n == len,
            v@ == be_bytes(n) + payload@.subrange(0, i as int),
        decreases len - i,
    {
        v.push(payload[i]);
        i = i + 1;
        assert(v@ =~= be_bytes(n) + payload@.subrange(0, i as int));
    }
    assert(payload@.subrange(0, len as int) =~= payload@);
    Ok(v)
}

/// Reads the payload length from a frame header. A header that announces
/// an empty payload is refused.
pub fn payload_len(header: &[u8; 4]) -> (r: Result<u32, FrameError>)
    ensures
        match r {
            Ok(n) => n == header_len(header@) && n > 0,
            Err(e) => e == FrameError::Empty && header_len(header@) == 0,
        },
{
    proof {
        reveal(be_value);
    }
    let n = ((header[0] as u32) << 24u32) | ((header[1] as u32) << 16u32) | ((header[2] as u32)
        << 8u32) | (header[3] as u32);
    if n == 0 {
        Err(FrameError::Empty)
    } else {
        Ok(n)
    }
}

/// Looks for a whole frame at the start of `buf`.
pub fn decode_frame(buf: &[u8]) -> (r: Decoded)
    ensures
        match r {
            Decoded::Frame { payload, used } => {
                &&& frame_complete(buf@)
                &&& payload@ == frame_payload(buf@)
                &&& used == 4 + header_len(buf@)
            },
            Decoded::Invalid => buf@.len() >= 4 && header_len(buf@) == 0,
            Decoded::Incomplete => buf@.len() < 4 || (header_len(buf@) > 0 && buf@.len() < 4
                + header_len(buf@)),
        },
{
    proof {
        reveal(be_value);
    }
    if buf.len() < 4 {
        return Decoded::Incomplete;
    }
    let n = ((buf[0] as u32) << 24u32) | ((buf[1] as u32) << 16u32) | ((buf[2] as u32) << 8u32)
        | (buf[3] as u32);
    if n == 0 {
        return Decoded::Invalid;
    }
    let len = n as usize;
    if buf.len() - 4 < len {
        return Decoded::Incomplete;
    }
    let mut payload: Vec<u8> = Vec::with_capacity(len);
    let mut i: usize = 0;
    while i < len
        invariant
            i <= len,
            len == header_len(buf@),
            4 + len <= buf.len(),
            payload@ == buf@.subrange(4, 4 + i),
        decreases len - i,
    {
        payload.push(buf[4 + i]);
        i = i + 1;
        assert(payload@ =~= buf@.subrange(4, 4 + i));
    }
    Decoded::Frame { payload, used: 4 + len }
}

/// The header of a frame reads back as the length it was written from.
pub proof fn lemma_be_round_trip(n: u32)
    ensures
        be_value(be_bytes(n)[0], be_bytes(n)[1], be_bytes(n)[2], be_bytes(n)[3]) == n,
{
    reveal(be_value);
    let b0 = (n >> 24u32) as u8;
    let b1 = (n >> 16u32) as u8;
    let b2 = (n >> 8u32) as u8;
    let b3 = n as u8;
    assert(((b0 as u32) << 24u32) | ((b1 as u32) << 16u32) | ((b2 as u32) << 8u32) | (b3 as u32)
        == n) by (bit_vector)
        requires
            b0 == (n >> 24u32) as u8,
            b1 == (n >> 16u32) as u8,
            b2 == (n >> 8u32) as u8,
            b3 == n as u8,
    ;
}

/// Framing round trip: a framed payload, followed by any further bytes of
/// the stream, decodes to that payload and takes exactly the frame's bytes.
pub proof fn lemma_frame_round_trip(payload: Seq<u8>, rest: Seq<u8>)
    requires
        0 < payload.len() <= u32::MAX,
    ensures
        frame_complete(frame(payload) + rest),
        frame_payload(frame(payload) + rest) == payload,
        4 + header_len(frame(payload) + rest) == frame(payload).len(),
{
    let n = payload.len() as u32;
    let h = be_bytes(n);
    lemma_be_round_trip(n);
    let buf = frame(payload) + rest;
    assert(h.len() == 4);
    assert(buf[0] == h[0]);
    assert(buf[1] == h[1]);
    assert(buf[2] == h[2]);
    assert(buf[3] == h[3]);
    assert(header_len(buf) == n);
    assert(frame_payload(buf) =~= payload);
}

} // verus!
