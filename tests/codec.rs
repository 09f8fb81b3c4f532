use dfut::{decode_frame, encode_frame, payload_len, Decoded, FrameError};

#[test]
fn frame_has_big_endian_length() {
    assert_eq!(encode_frame(&[7, 8, 9]), Ok(vec![0, 0, 0, 3, 7, 8, 9]));
    let big = vec![1u8; 0x0102];
    let framed = encode_frame(&big).unwrap();
    assert_eq!(&framed[..4], &[0, 0, 1, 2]);
    assert_eq!(framed.len(), 4 + 0x0102);
}

#[test]
fn empty_payload_is_refused() {
    assert_eq!(encode_frame(&[]), Err(FrameError::Empty));
    assert_eq!(payload_len(&[0, 0, 0, 0]), Err(FrameError::Empty));
    assert!(matches!(decode_frame(&[0, 0, 0, 0, 5]), Decoded::Invalid));
}

#[test]
fn header_length_is_read() {
    assert_eq!(payload_len(&[0, 1, 0, 2]), Ok(65538));
    assert_eq!(payload_len(&[0xff, 0xff, 0xff, 0xff]), Ok(u32::MAX));
}

#[test]
fn frame_round_trip_leaves_rest() {
    let payload = vec![0xa1u8, 0x64, 0x43, 0x61, 0x6c, 0x6c];
    let mut stream = encode_frame(&payload).unwrap();
    stream.extend_from_slice(&[0, 0, 0, 1, 9]);
    match decode_frame(&stream) {
        Decoded::Frame { payload: p, used } => {
            assert_eq!(p, payload);
            assert_eq!(used, 10);
            match decode_frame(&stream[used..]) {
                Decoded::Frame { payload: q, used: u } => {
                    assert_eq!(q, vec![9]);
                    assert_eq!(u, 5);
                }
                _ => panic!("expected the second frame"),
            }
        }
        _ => panic!("expected a frame"),
    }
}

#[test]
fn partial_frame_is_incomplete() {
    assert!(matches!(decode_frame(&[0, 0]), Decoded::Incomplete));
    assert!(matches!(decode_frame(&[0, 0, 0, 3, 1, 2]), Decoded::Incomplete));
}

