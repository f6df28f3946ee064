//! Single-file chunking: how a file is cut into chunks, the per-chunk wire
//! format `[chunk_index: u64 LE | flags: u8 | payload]`, and the receiver's
//! checks on each chunk.

use vstd::prelude::*;

use crate::compression::{zstd_decoded, Decompressor};
use crate::error::Error;

verus! {

/// Header bytes before a chunk payload.
pub const CHUNK_HEADER_BYTES: usize = 9;

/// Flag bit 0: the payload is zstd-compressed.
pub const FLAG_COMPRESSED: u8 = 1;

/// Most bytes read from one chunk stream (16 MiB).
pub const MAX_CHUNK_STREAM_BYTES: usize = 16777216;

/// Little-endian bytes of a 64-bit value.
pub open spec fn le64_bytes(x: u64) -> Seq<u8> {
    seq![
        (x & 0xffu64) as u8,
        ((x >> 8u64) & 0xffu64) as u8,
        ((x >> 16u64) & 0xffu64) as u8,
        ((x >> 24u64) & 0xffu64) as u8,
        ((x >> 32u64) & 0xffu64) as u8,
        ((x >> 40u64) & 0xffu64) as u8,
        ((x >> 48u64) & 0xffu64) as u8,
        ((x >> 56u64) & 0xffu64) as u8,
    ]
}

/// Little-endian value of eight bytes.
pub open spec fn le64_value(b0: u8, b1: u8, b2: u8, b3: u8, b4: u8, b5: u8, b6: u8, b7: u8) -> u64 {
    (b0 as u64) | ((b1 as u64) << 8u64) | ((b2 as u64) << 16u64) | ((b3 as u64) << 24u64) | ((
    b4 as u64) << 32u64) | ((b5 as u64) << 40u64) | ((b6 as u64) << 48u64) | ((b7 as u64) << 56u64)
}

/// The stream carrying chunk `index` with `payload`.
pub open spec fn spec_chunk_stream(index: u64, compressed: bool, payload: Seq<u8>) -> Seq<u8> {
    le64_bytes(index) + seq![if compressed { FLAG_COMPRESSED } else { 0u8 }] + payload
}

/// A parsed chunk stream: (index, compressed flag, payload), or `None`
/// when the stream is shorter than the header or the index is not below
/// `total_chunks`.
pub open spec fn spec_parse_chunk(raw: Seq<u8>, total_chunks: u64) -> Option<(u64, bool, Seq<u8>)> {
    if raw.len() < 9 {
        None
    } else {
        let index = le64_value(raw[0], raw[1], raw[2], raw[3], raw[4], raw[5], raw[6], raw[7]);
        if index >= total_chunks {
            None
        } else {
            Some((index, (raw[8] & FLAG_COMPRESSED) != 0, raw.subrange(9, raw.len() as int)))
        }
    }
}

/// Number of chunks of a file: `size / chunk_size` rounded up.
pub open spec fn spec_total_chunks(file_size: u64, chunk_size: u64) -> u64 {
    ((file_size + chunk_size - 1) / chunk_size as int) as u64
}

/// Byte offset of chunk `index`.
pub open spec fn spec_chunk_offset(chunk_size: u64, index: u64) -> int {
    index as int * chunk_size as int
}

/// Length of chunk `index`: a whole chunk, or what remains of the file.
pub open spec fn spec_chunk_len(file_size: u64, chunk_size: u64, index: u64) -> int {
    let rem = file_size - spec_chunk_offset(chunk_size, index);
    if rem < chunk_size {
        rem
    } else {
        chunk_size as int
    }
}

/// Frame chunk `chunk_index` for its own stream.
pub fn encode_chunk_stream(chunk_index: u64, compressed: bool, data: &[u8]) -> (r: Vec<u8>)
    ensures
        r@ == spec_chunk_stream(chunk_index, compressed, data@),
{
    let mut out: Vec<u8> = Vec::new();
    out.push((chunk_index & 0xffu64) as u8);
    out.push(((chunk_index >> 8u64) & 0xffu64) as u8);
    out.push(((chunk_index >> 16u64) & 0xffu64) as u8);
    out.push(((chunk_index >> 24u64) & 0xffu64) as u8);
    out.push(((chunk_index >> 32u64) & 0xffu64) as u8);
    out.push(((chunk_index >> 40u64) & 0xffu64) as u8);
    out.push(((chunk_index >> 48u64) & 0xffu64) as u8);
    out.push(((chunk_index >> 56u64) & 0xffu64) as u8);
    let flags: u8 = if compressed {
        FLAG_COMPRESSED
    } else {
        0
    };
    out.push(flags);
    let ghost header = out@;
    assert(header =~= le64_bytes(chunk_index) + seq![flags]);
    let mut i: usize = 0;
    while i < data.len()
        invariant
            i <= data@.len(),
            out@ == header + data@.take(i as int),
        decreases data@.len() - i,
    {
        out.push(data[i]);
        proof {
            assert(data@.take(i + 1) == data@.take(i as int).push(data@[i as int]));
        }
        i = i + 1;
    }
    proof {
        assert(data@.take(data@.len() as int) == data@);
    }
    out
}

/// Parse a received chunk stream, checking its index against the number
/// of chunks the file has.
pub fn parse_chunk_stream(raw: &[u8], total_chunks: u64) -> (r: Result<(u64, bool, Vec<u8>), Error>)
    ensures
        match spec_parse_chunk(raw@, total_chunks) {
            Some((i, c, p)) => r matches Ok((i2, c2, p2)) && i2 == i && c2 == c && p2@ == p,
            None => r matches Err(Error::Protocol(_)),
        },
{
    if raw.len() < CHUNK_HEADER_BYTES {
        return Err(crate::error::protocol_error("chunk stream too short"));
    }
    let index = (raw[0] as u64) | ((raw[1] as u64) << 8u64) | ((raw[2] as u64) << 16u64) | ((
    raw[3] as u64) << 24u64) | ((raw[4] as u64) << 32u64) | ((raw[5] as u64) << 40u64) | ((
    raw[6] as u64) << 48u64) | ((raw[7] as u64) << 56u64);
    if index >= total_chunks {
        return Err(crate::error::protocol_error("chunk_index >= total_chunks"));
    }
    let compressed = (raw[8] & FLAG_COMPRESSED) != 0;
    let mut payload: Vec<u8> = Vec::new();
    let mut i: usize = 9;
    while i < raw.len()
        invariant
            9 <= i <= raw@.len(),
            payload@ == raw@.subrange(9, i as int),
        decreases raw@.len() - i,
    {
        payload.push(raw[i]);
        proof {
            assert(raw@.subrange(9, i + 1) == raw@.subrange(9, i as int).push(raw@[i as int]));
        }
        i = i + 1;
    }
    Ok((index, compressed, payload))
}

/// The payload bytes to write for a received chunk: decompressed when the
/// chunk is flagged compressed (an error when compression was not
/// negotiated), otherwise as received.
pub fn decode_chunk_payload(compressed: bool, compression_enabled: bool, payload: &[u8]) -> (r: Result<
    Vec<u8>,
    Error,
>)
    ensures
        !compressed ==> (r matches Ok(v) && v@ == payload@),
        compressed && !compression_enabled ==> r matches Err(Error::Protocol(_)),
        compressed && compression_enabled ==> match zstd_decoded(payload@) {
            Some(v) => r matches Ok(w) && w@ == v,
            None => r matches Err(Error::Decompression(_)),
        },
{
    if compressed {
        if !compression_enabled {
            return Err(
                crate::error::protocol_error("compressed chunk but compression disabled in config"),
            );
        }
        let d = Decompressor::new();
        d.decompress(payload)
    } else {
        let mut out: Vec<u8> = Vec::new();
        let mut i: usize = 0;
        while i < payload.len()
            invariant
                i <= payload@.len(),
                out@ == payload@.take(i as int),
            decreases payload@.len() - i,
        {
            out.push(payload[i]);
            proof {
                assert(payload@.take(i + 1) == payload@.take(i as int).push(payload@[i as int]));
            }
            i = i + 1;
        }
        proof {
            assert(payload@.take(payload@.len() as int) == payload@);
        }
        Ok(out)
    }
}

/// Number of chunks of a file of `file_size` bytes.
pub fn total_chunk_count(file_size: u64, chunk_size: u64) -> (r: u64)
    requires
        chunk_size > 0,
        file_size + chunk_size - 1 <= u64::MAX,
    ensures
        r == spec_total_chunks(file_size, chunk_size),
{
    (file_size + (chunk_size - 1)) / chunk_size
}

/// Offset and length of chunk `index` of a file of `file_size` bytes.
pub fn chunk_span(file_size: u64, chunk_size: u64, index: u64) -> (r: (u64, u64))
    requires
        chunk_size > 0,
        index as int * chunk_size as int <= file_size,
    ensures
        r.0 == spec_chunk_offset(chunk_size, index),
        r.1 == spec_chunk_len(file_size, chunk_size, index),
{
    let offset = index * chunk_size;
    let remaining = file_size - offset;
    let len = if remaining < chunk_size {
        remaining
    } else {
        chunk_size
    };
    (offset, len)
}

/// Whether `completed` lists `i`.
fn contains_u64(completed: &[u64], i: u64) -> (r: bool)
    ensures
        r == completed@.contains(i),
{
    let mut j: usize = 0;
    while j < completed.len()
        invariant
            j <= completed@.len(),
            forall|k: int| 0 <= k < j ==> completed@[k] != i,
        decreases completed@.len() - j,
    {
        if completed[j] == i {
            assert(completed@[j as int] == i);
            return true;
        }
        j = j + 1;
    }
    false
}

/// The indices `0..total_chunks` a sender still has to send, in order,
/// skipping those in `completed`.
pub open spec fn spec_pending(total_chunks: u64, completed: Seq<u64>) -> Seq<u64>
    decreases total_chunks,
{
    if total_chunks == 0 {
        Seq::empty()
    } else {
        let prev = spec_pending((total_chunks - 1) as u64, completed);
        if completed.contains((total_chunks - 1) as u64) {
            prev
        } else {
            prev.push((total_chunks - 1) as u64)
        }
    }
}

/// The chunk indices still to send, in ascending order.
pub fn pending_chunks(total_chunks: u64, completed: &[u64]) -> (r: Vec<u64>)
    ensures
        r@ == spec_pending(total_chunks, completed@),
{
    let mut out: Vec<u64> = Vec::new();
    let mut i: u64 = 0;
    while i < total_chunks
        invariant
            i <= total_chunks,
            out@ == spec_pending(i, completed@),
        decreases total_chunks - i,
    {
        if !contains_u64(completed, i) {
            out.push(i);
        }
        i = i + 1;
    }
    out
}

/// A resumed send sends exactly the chunks of the file not yet recorded
/// as sent, each once, in ascending order.
pub proof fn lemma_pending_is_unsent(total_chunks: u64, completed: Seq<u64>)
    ensures
        forall|c: u64|
            #[trigger] spec_pending(total_chunks, completed).contains(c) <==> (c < total_chunks
                && !completed.contains(c)),
        forall|i: int, j: int|
            0 <= i < j < spec_pending(total_chunks, completed).len() ==> spec_pending(
                total_chunks,
                completed,
            )[i] < spec_pending(total_chunks, completed)[j],
    decreases total_chunks,
{
    if total_chunks > 0 {
        let t = (total_chunks - 1) as u64;
        lemma_pending_is_unsent(t, completed);
        let prev = spec_pending(t, completed);
        assert forall|k: int| 0 <= k < prev.len() implies prev[k] < t by {
            assert(prev.contains(prev[k]));
        }
        if !completed.contains(t) {
            let cur = prev.push(t);
            assert(spec_pending(total_chunks, completed) == cur);
            assert forall|c: u64| cur.contains(c) <==> (c < total_chunks && !completed.contains(c)) by {
                if cur.contains(c) {
                    let k = choose|k: int| 0 <= k < cur.len() && cur[k] == c;
                    if k < prev.len() {
                        assert(prev[k] == c);
                        assert(prev.contains(c));
                    }
                }
                if c < total_chunks && !completed.contains(c) {
                    if c == t {
                        assert(cur[prev.len() as int] == c);
                    } else {
                        assert(prev.contains(c));
                        let k = choose|k: int| 0 <= k < prev.len() && prev[k] == c;
                        assert(cur[k] == c);
                    }
                }
            }
        }
    }
}

/// Reading a chunk stream back gives the index, flag and payload that
/// were framed, for any index within the file.
pub proof fn lemma_chunk_stream_roundtrip(index: u64, compressed: bool, payload: Seq<u8>, total_chunks: u64)
    requires
        index < total_chunks,
    ensures
        spec_parse_chunk(spec_chunk_stream(index, compressed, payload), total_chunks) == Some(
            (index, compressed, payload),
        ),
{
    let raw = spec_chunk_stream(index, compressed, payload);
    let b = le64_bytes(index);
    assert(raw[0] == b[0] && raw[1] == b[1] && raw[2] == b[2] && raw[3] == b[3]);
    assert(raw[4] == b[4] && raw[5] == b[5] && raw[6] == b[6] && raw[7] == b[7]);
    let x = index;
    assert(le64_value(
        (x & 0xffu64) as u8,
        ((x >> 8u64) & 0xffu64) as u8,
        ((x >> 16u64) & 0xffu64) as u8,
        ((x >> 24u64) & 0xffu64) as u8,
        ((x >> 32u64) & 0xffu64) as u8,
        ((x >> 40u64) & 0xffu64) as u8,
        ((x >> 48u64) & 0xffu64) as u8,
        ((x >> 56u64) & 0xffu64) as u8,
    ) == x) by (bit_vector);
    assert((1u8 & 1u8) != 0u8 && (0u8 & 1u8) == 0u8) by (bit_vector);
    assert(raw.subrange(9, raw.len() as int) =~= payload);
}

/// A chunk stream naming an index outside the file is refused.
pub proof fn lemma_out_of_range_chunk_refused(raw: Seq<u8>, total_chunks: u64)
    requires
        raw.len() >= 9,
        le64_value(raw[0], raw[1], raw[2], raw[3], raw[4], raw[5], raw[6], raw[7]) >= total_chunks,
    ensures
        spec_parse_chunk(raw, total_chunks) is None,
{
}

/// The chunks of a file tile it exactly: chunk `i` starts where chunk
/// `i - 1` ends, every chunk is non-empty, and the last one ends at the end
/// of the file.
pub proof fn lemma_chunks_tile_file(file_size: u64, chunk_size: u64, index: u64)
    requires
        chunk_size > 0,
        file_size + chunk_size - 1 <= u64::MAX,
        index < spec_total_chunks(file_size, chunk_size),
    ensures
        spec_chunk_offset(chunk_size, index) < file_size,
        spec_chunk_len(file_size, chunk_size, index) > 0,
        index + 1 < spec_total_chunks(file_size, chunk_size) ==> spec_chunk_offset(chunk_size, index)
            + spec_chunk_len(file_size, chunk_size, index) == spec_chunk_offset(
            chunk_size,
            (index + 1) as u64,
        ),
        index + 1 == spec_total_chunks(file_size, chunk_size) ==> spec_chunk_offset(
            chunk_size,
            index,
        ) + spec_chunk_len(file_size, chunk_size, index) == file_size,
{
    let n = spec_total_chunks(file_size, chunk_size) as int;
    let c = chunk_size as int;
    let f = file_size as int;
    let i = index as int;
    assert(n == (f + c - 1) / c);
    assert(i < (f + c - 1) / c);
    assert(i * c < f) by (nonlinear_arith)
        requires
            i < (f + c - 1) / c,
            c > 0,
            i >= 0,
            f >= 0,
    {
        assert((i + 1) * c <= ((f + c - 1) / c) * c);
        assert(((f + c - 1) / c) * c <= f + c - 1);
    }
    assert((i + 1) * c == i * c + c) by (nonlinear_arith);
    if i + 1 < n {
        assert((i + 1) * c < f) by (nonlinear_arith)
            requires
                i + 1 < (f + c - 1) / c,
                c > 0,
                i >= 0,
                f >= 0,
        {
            assert((i + 2) * c <= ((f + c - 1) / c) * c);
            assert(((f + c - 1) / c) * c <= f + c - 1);
        }
    }
    if i + 1 == n {
        assert(f <= (i + 1) * c) by (nonlinear_arith)
            requires
                i + 1 == (f + c - 1) / c,
                c > 0,
                f >= 0,
        {
            assert(f + c - 1 < ((f + c - 1) / c) * c + c);
        }
    }
}

} // verus!
