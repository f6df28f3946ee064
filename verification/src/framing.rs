//! Message framing: `magic (4) | payload length (u32, big-endian) |
//! payload`. The payload is an encoded control message; encoding it is the
//! caller's business.

use vstd::prelude::*;

use crate::error::Error;
use crate::stun::be32;

verus! {

/// Maximum payload size (10 MiB).
pub const MAX_MESSAGE_SIZE: u32 = 10485760;

/// The frame magic, "P2PF".
pub open spec fn spec_magic() -> Seq<u8> {
    seq![0x50u8, 0x32u8, 0x50u8, 0x46u8]
}

/// Big-endian bytes of a 32-bit value.
pub open spec fn be32_bytes(n: u32) -> Seq<u8> {
    seq![(n >> 24u32) as u8, ((n >> 16u32) & 0xffu32) as u8, ((n >> 8u32) & 0xffu32) as u8, (n & 0xffu32) as u8]
}

/// The frame that carries `payload`.
pub open spec fn spec_frame(payload: Seq<u8>) -> Seq<u8> {
    spec_magic() + be32_bytes(payload.len() as u32) + payload
}

/// Outcome of reading one frame from the front of `buf`, as a reader of
/// a byte stream sees it: a stream that ends before the magic is complete
/// is a clean disconnect; any other short read, a wrong magic or an
/// oversized length is a protocol error; otherwise the payload and the
/// number of bytes consumed.
pub ghost enum FrameOutcome {
    Frame(Seq<u8>, nat),
    Disconnected,
    ProtocolError,
}

/// What reading one frame from `buf` yields.
pub open spec fn spec_read_frame(buf: Seq<u8>) -> FrameOutcome {
    if buf.len() < 4 {
        FrameOutcome::Disconnected
    } else if buf.subrange(0, 4) != spec_magic() {
        FrameOutcome::ProtocolError
    } else if buf.len() < 8 {
        FrameOutcome::ProtocolError
    } else {
        let len = be32(buf[4], buf[5], buf[6], buf[7]);
        if len > MAX_MESSAGE_SIZE {
            FrameOutcome::ProtocolError
        } else if buf.len() < 8 + len {
            FrameOutcome::ProtocolError
        } else {
            FrameOutcome::Frame(buf.subrange(8, 8 + len as int), (8 + len) as nat)
        }
    }
}

/// Check the four magic bytes read at the start of a frame.
pub fn check_magic(magic: &[u8]) -> (r: Result<(), Error>)
    requires
        magic@.len() == 4,
    ensures
        r is Ok <==> magic@ == spec_magic(),
        r is Err ==> r matches Err(Error::Protocol(_)),
{
    if magic[0] == 0x50 && magic[1] == 0x32 && magic[2] == 0x50 && magic[3] == 0x46 {
        assert(magic@ =~= spec_magic());
        Ok(())
    } else {
        Err(crate::error::protocol_error("Invalid magic bytes"))
    }
}

/// Decode the four length bytes of a frame header, refusing lengths over
/// [`MAX_MESSAGE_SIZE`].
pub fn parse_frame_length(len_bytes: &[u8]) -> (r: Result<u32, Error>)
    requires
        len_bytes@.len() == 4,
    ensures
        be32(len_bytes@[0], len_bytes@[1], len_bytes@[2], len_bytes@[3]) <= MAX_MESSAGE_SIZE ==> r
            == Ok::<u32, Error>(be32(len_bytes@[0], len_bytes@[1], len_bytes@[2], len_bytes@[3])),
        be32(len_bytes@[0], len_bytes@[1], len_bytes@[2], len_bytes@[3]) > MAX_MESSAGE_SIZE ==> r
            matches Err(Error::Protocol(_)),
{
    let len = (len_bytes[0] as u32) * 16777216 + (len_bytes[1] as u32) * 65536 + (len_bytes[2] as u32)
        * 256 + (len_bytes[3] as u32);
    if len > MAX_MESSAGE_SIZE {
        Err(crate::error::protocol_error("Message too large"))
    } else {
        Ok(len)
    }
}

/// Frame `payload`; payloads over [`MAX_MESSAGE_SIZE`] are refused.
pub fn encode_frame(payload: &[u8]) -> (r: Result<Vec<u8>, Error>)
    ensures
        payload@.len() <= MAX_MESSAGE_SIZE ==> (r matches Ok(f) && f@ == spec_frame(payload@)),
        payload@.len() > MAX_MESSAGE_SIZE ==> r matches Err(Error::Protocol(_)),
{
    if payload.len() > MAX_MESSAGE_SIZE as usize {
        return Err(crate::error::protocol_error("Message too large"));
    }
    let n = payload.len() as u32;
    let mut frame: Vec<u8> = Vec::new();
    frame.push(0x50);
    frame.push(0x32);
    frame.push(0x50);
    frame.push(0x46);
    frame.push((n >> 24u32) as u8);
    frame.push(((n >> 16u32) & 0xffu32) as u8);
    frame.push(((n >> 8u32) & 0xffu32) as u8);
    frame.push((n & 0xffu32) as u8);
    let ghost header = frame@;
    assert(header =~= spec_magic() + be32_bytes(n));
    let mut i: usize = 0;
    while i < payload.len()
        invariant
            i <= payload@.len(),
            frame@ == header + payload@.take(i as int),
        decreases payload@.len() - i,
    {
        frame.push(payload[i]);
        proof {
            assert(payload@.take(i + 1) == payload@.take(i as int).push(payload@[i as int]));
        }
        i = i + 1;
    }
    proof {
        assert(payload@.take(payload@.len() as int) == payload@);
    }
    Ok(frame)
}

/// Read one frame from the front of `buf`: the payload and the number of
/// bytes consumed, or the error a stream reader reports (see
/// [`spec_read_frame`]).
pub fn decode_frame(buf: &[u8]) -> (r: Result<(Vec<u8>, usize), Error>)
    ensures
        match spec_read_frame(buf@) {
            FrameOutcome::Frame(p, n) => r matches Ok((v, m)) && v@ == p && m == n,
            FrameOutcome::Disconnected => r matches Err(Error::Disconnected),
            FrameOutcome::ProtocolError => r matches Err(Error::Protocol(_)),
        },
{
    if buf.len() < 4 {
        return Err(Error::Disconnected);
    }
    let magic = [buf[0], buf[1], buf[2], buf[3]];
    assert(magic@ =~= buf@.subrange(0, 4));
    match check_magic(&magic) {
        Ok(()) => {},
        Err(e) => return Err(e),
    }
    if buf.len() < 8 {
        return Err(crate::error::protocol_error("truncated frame header"));
    }
    let len_bytes = [buf[4], buf[5], buf[6], buf[7]];
    let len = match parse_frame_length(&len_bytes) {
        Ok(l) => l,
        Err(e) => return Err(e),
    };
    let total: usize = 8 + len as usize;
    if buf.len() < total {
        return Err(crate::error::protocol_error("truncated frame payload"));
    }
    let mut payload: Vec<u8> = Vec::new();
    let mut i: usize = 8;
    while i < total
        invariant
            8 <= i <= total,
            total <= buf@.len(),
            payload@ == buf@.subrange(8, i as int),
        decreases total - i,
    {
        payload.push(buf[i]);
        proof {
            assert(buf@.subrange(8, i + 1) == buf@.subrange(8, i as int).push(buf@[i as int]));
        }
        i = i + 1;
    }
    Ok((payload, total))
}

/// Reading a frame back gives the payload that was framed, and consumes
/// exactly the frame, whatever follows it in the stream.
pub proof fn lemma_frame_roundtrip(payload: Seq<u8>, rest: Seq<u8>)
    requires
        payload.len() <= MAX_MESSAGE_SIZE,
    ensures
        spec_read_frame(spec_frame(payload) + rest) == FrameOutcome::Frame(
            payload,
            (8 + payload.len()) as nat,
        ),
{
    let n = payload.len() as u32;
    let buf = spec_frame(payload) + rest;
    assert(buf.subrange(0, 4) =~= spec_magic());
    assert(buf[4] == (n >> 24u32) as u8);
    assert(buf[5] == ((n >> 16u32) & 0xffu32) as u8);
    assert(buf[6] == ((n >> 8u32) & 0xffu32) as u8);
    assert(buf[7] == (n & 0xffu32) as u8);
    assert(((n >> 24u32) as u8) as int * 16777216 + (((n >> 16u32) & 0xffu32) as u8) as int * 65536
        + (((n >> 8u32) & 0xffu32) as u8) as int * 256 + ((n & 0xffu32) as u8) as int == n as int)
        by (bit_vector);
    assert(be32(buf[4], buf[5], buf[6], buf[7]) == n);
    assert(buf.subrange(8, 8 + n as int) =~= payload);
}

/// A stream that ends before a frame's magic is complete reads as a clean
/// disconnect.
pub proof fn lemma_short_stream_disconnects(buf: Seq<u8>)
    requires
        buf.len() < 4,
    ensures
        spec_read_frame(buf) == FrameOutcome::Disconnected,
{
}

} // verus!
