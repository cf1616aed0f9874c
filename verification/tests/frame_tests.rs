//! The frame codec: little-endian length prefix, exact round trips, and
//! the all-or-nothing treatment of short buffers.

use browser_helper::frame::{decode_frame, encode_frame, u32_from_le_bytes, u32_to_le_bytes};

#[test]
fn length_prefix_is_little_endian() {
    assert_eq!(u32_to_le_bytes(0x01020304), vec![4, 3, 2, 1]);
    assert_eq!(u32_from_le_bytes(4, 3, 2, 1), 0x01020304);
    assert_eq!(u32_to_le_bytes(0), vec![0, 0, 0, 0]);
    assert_eq!(u32_from_le_bytes(255, 255, 255, 255), u32::MAX);
}

#[test]
fn encode_frame_prepends_length() {
    let payload = b"abc".to_vec();
    assert_eq!(encode_frame(&payload), b"\x03\x00\x00\x00abc".to_vec());
    let empty: Vec<u8> = Vec::new();
    assert_eq!(encode_frame(&empty), b"\x00\x00\x00\x00".to_vec());
}

#[test]
fn decode_frame_returns_exactly_the_payload() {
    let payload = b"hello world".to_vec();
    let framed = encode_frame(&payload);
    let (decoded, next) = decode_frame(&framed, 0).expect("whole frame must decode");
    assert_eq!(decoded, payload);
    assert_eq!(next, framed.len());
}

#[test]
fn decode_frame_fails_on_every_truncation() {
    let payload = b"abcdef".to_vec();
    let framed = encode_frame(&payload);
    for cut in 0..framed.len() {
        let short = framed[..cut].to_vec();
        assert!(decode_frame(&short, 0).is_none(), "cut at {} must not decode", cut);
    }
}

#[test]
fn decode_frame_reads_consecutive_frames() {
    let mut stream = encode_frame(&b"one".to_vec());
    stream.extend_from_slice(&encode_frame(&b"two".to_vec()));
    let (first, pos) = decode_frame(&stream, 0).unwrap();
    assert_eq!(first, b"one".to_vec());
    let (second, end) = decode_frame(&stream, pos).unwrap();
    assert_eq!(second, b"two".to_vec());
    assert_eq!(end, stream.len());
    assert!(decode_frame(&stream, end).is_none());
}

#[test]
fn decode_frame_ignores_bytes_before_start() {
    let mut stream = b"junk".to_vec();
    let pos = stream.len();
    stream.extend_from_slice(&encode_frame(&b"payload".to_vec()));
    let (decoded, _) = decode_frame(&stream, pos).unwrap();
    assert_eq!(decoded, b"payload".to_vec());
}
