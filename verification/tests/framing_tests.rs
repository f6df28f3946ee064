use p2p_transfer::error::Error;
use p2p_transfer::framing::{decode_frame, encode_frame, MAX_MESSAGE_SIZE};
use p2p_transfer::transfer_file::{
    chunk_span, decode_chunk_payload, encode_chunk_stream, parse_chunk_stream, pending_chunks,
    total_chunk_count,
};

#[test]
fn read_on_empty_returns_disconnected() {
    let err = decode_frame(&[]).unwrap_err();
    assert!(matches!(err, Error::Disconnected), "expected Disconnected, got {err:?}");
}

#[test]
fn read_truncated_frame_returns_protocol_error() {
    let mut frame = encode_frame(&[7u8; 100]).unwrap();
    frame.truncate(50);
    let err = decode_frame(&frame).unwrap_err();
    assert!(matches!(err, Error::Protocol(_)), "expected Protocol, got {err:?}");
}

#[test]
fn frames_round_trip_and_consume_exactly_one_frame() {
    let payload = b"hello frame".to_vec();
    let mut buf = encode_frame(&payload).unwrap();
    assert_eq!(&buf[0..4], b"P2PF");
    assert_eq!(&buf[4..8], &(payload.len() as u32).to_be_bytes());
    buf.extend_from_slice(b"next");
    let (p, used) = decode_frame(&buf).unwrap();
    assert_eq!(p, payload);
    assert_eq!(used, 8 + payload.len());
}

#[test]
fn bad_magic_and_oversized_lengths_are_refused() {
    assert!(matches!(decode_frame(b"XXXX\0\0\0\0"), Err(Error::Protocol(_))));
    let mut big = b"P2PF".to_vec();
    big.extend_from_slice(&(MAX_MESSAGE_SIZE + 1).to_be_bytes());
    assert!(matches!(decode_frame(&big), Err(Error::Protocol(_))));
    assert!(matches!(decode_frame(b"P2P"), Err(Error::Disconnected)));
}

#[test]
fn chunk_streams_round_trip() {
    let raw = encode_chunk_stream(3, true, &[1, 2, 3]);
    assert_eq!(raw, vec![3, 0, 0, 0, 0, 0, 0, 0, 1, 1, 2, 3]);
    let (i, c, p) = parse_chunk_stream(&raw, 4).unwrap();
    assert_eq!((i, c, p), (3, true, vec![1, 2, 3]));
    assert!(matches!(parse_chunk_stream(&raw, 3), Err(Error::Protocol(_))));
    assert!(matches!(parse_chunk_stream(&raw[..5], 10), Err(Error::Protocol(_))));
}

#[test]
fn chunk_payloads_are_decoded_per_flag() {
    assert_eq!(decode_chunk_payload(false, false, &[9, 9]).unwrap(), vec![9, 9]);
    assert!(matches!(decode_chunk_payload(true, false, &[9, 9]), Err(Error::Protocol(_))));
    assert!(matches!(decode_chunk_payload(true, true, &[9, 9]), Err(Error::Decompression(_))));
    let packed = p2p_transfer::compression::compress(b"abcabcabc", 3).unwrap();
    assert_eq!(decode_chunk_payload(true, true, &packed).unwrap(), b"abcabcabc".to_vec());
}

#[test]
fn chunk_geometry() {
    assert_eq!(total_chunk_count(200, 64), 4);
    assert_eq!(total_chunk_count(0, 64), 0);
    assert_eq!(total_chunk_count(128, 64), 2);
    assert_eq!(chunk_span(200, 64, 3), (192, 8));
    assert_eq!(chunk_span(200, 64, 1), (64, 64));
    assert_eq!(pending_chunks(5, &[1, 3]), vec![0, 2, 4]);
    assert_eq!(pending_chunks(0, &[]), Vec::<u64>::new());
}
