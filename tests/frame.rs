use simplekv::{
    decode_frame, encode_frame, open_payload, parse_header, seal_message, KvError,
    COMPRESSION_LIMIT,
};

#[test]
fn frame_has_big_endian_length_header() {
    let frame = encode_frame(&[7, 8, 9], false).unwrap();
    assert_eq!(frame, vec![0, 0, 0, 3, 7, 8, 9]);
}

#[test]
fn compressed_frame_sets_top_bit() {
    let frame = encode_frame(&[1, 2], true).unwrap();
    assert_eq!(frame, vec![0x80, 0, 0, 2, 1, 2]);
}

#[test]
fn frame_round_trip() {
    let payload: Vec<u8> = (0..=255u8).collect();
    for compressed in [false, true] {
        let frame = encode_frame(&payload, compressed).unwrap();
        assert_eq!(decode_frame(&frame), Ok((compressed, payload.clone())));
    }
    let empty = encode_frame(&[], false).unwrap();
    assert_eq!(decode_frame(&empty), Ok((false, vec![])));
}

#[test]
fn header_gives_length_and_flag() {
    assert_eq!(parse_header(&[0, 0, 1, 2]), Ok((258, false)));
    assert_eq!(parse_header(&[0x80, 0, 0, 5]), Ok((5, true)));
    assert_eq!(parse_header(&[0x01, 0xff, 0xff, 0xff]), Ok((0x01ff_ffff, false)));
}

#[test]
fn oversized_header_is_a_protocol_error() {
    for header in [[0x02, 0, 0, 0], [0xff, 0xff, 0xff, 0xff], [0x7f, 0, 0, 1]] {
        assert!(matches!(parse_header(&header), Err(KvError::ProtocolError(_))));
    }
    assert!(matches!(decode_frame(&[0x02, 0, 0, 0]), Err(KvError::ProtocolError(_))));
}

#[test]
fn short_or_mismatched_frames_are_protocol_errors() {
    for buf in [vec![], vec![0, 0, 0], vec![0, 0, 0, 2, 1], vec![0, 0, 0, 1, 1, 2]] {
        assert!(matches!(decode_frame(&buf), Err(KvError::ProtocolError(_))));
    }
}

#[test]
fn large_payloads_travel_compressed() {
    let payload = vec![7u8; COMPRESSION_LIMIT + 100];
    let frame = seal_message(&payload).unwrap();
    assert!(frame.len() < payload.len());
    let (compressed, body) = decode_frame(&frame).unwrap();
    assert!(compressed);
    assert_eq!(open_payload(body, compressed), Ok(payload));
}

#[test]
fn small_payloads_travel_raw() {
    let payload = vec![1u8, 2, 3];
    let frame = seal_message(&payload).unwrap();
    assert_eq!(frame, vec![0, 0, 0, 3, 1, 2, 3]);
    assert_eq!(open_payload(vec![1, 2, 3], false), Ok(payload));
}

#[test]
fn bad_compressed_payload_is_a_protocol_error() {
    assert!(matches!(open_payload(vec![1, 2, 3], true), Err(KvError::ProtocolError(_))));
}
