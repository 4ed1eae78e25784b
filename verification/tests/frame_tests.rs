use rasta::frame::{decode_frame, decode_header, encode_frame, Frame, FrameError, FrameType};

fn frame(t: FrameType, id: u32, payload: &[u8]) -> Frame {
    Frame { frame_type: t, stream_id: id, payload: payload.to_vec() }
}

#[test]
fn frame_type_codes_roundtrip() {
    let all = [
        FrameType::FrameData,
        FrameType::FrameEOF,
        FrameType::FrameReset,
        FrameType::FramePing,
        FrameType::FramePong,
    ];
    for (i, t) in all.iter().enumerate() {
        assert_eq!(t.to_u8() as usize, i);
        assert_eq!(FrameType::try_from(t.to_u8()), Ok(*t));
    }
}

#[test]
fn frame_type_rejects_unknown_bytes() {
    assert_eq!(FrameType::try_from(5), Err(()));
    assert_eq!(FrameType::try_from(255), Err(()));
}

#[test]
fn encode_data_frame_exact_bytes() {
    let bytes = encode_frame(&frame(FrameType::FrameData, 0x01020304, b"hi")).unwrap();
    assert_eq!(bytes, vec![0, 1, 2, 3, 4, 0, 0, 0, 2, b'h', b'i']);
}

#[test]
fn encode_empty_pong_is_header_only() {
    let bytes = encode_frame(&frame(FrameType::FramePong, 7, b"")).unwrap();
    assert_eq!(bytes, vec![4, 0, 0, 0, 7, 0, 0, 0, 0]);
}

#[test]
fn decode_encode_roundtrip_with_trailing_bytes() {
    let f = frame(FrameType::FrameReset, 0xdeadbeef, &[9, 8, 7, 6, 5]);
    let mut bytes = encode_frame(&f).unwrap();
    let n = bytes.len();
    assert_eq!(n, 9 + 5);
    bytes.extend_from_slice(&[1, 2, 3]);
    let (g, used) = decode_frame(&bytes).unwrap();
    assert_eq!(g, f);
    assert_eq!(used, n);
}

#[test]
fn decode_every_prefix_is_incomplete() {
    let f = frame(FrameType::FrameData, 42, b"payload");
    let bytes = encode_frame(&f).unwrap();
    for k in 0..bytes.len() {
        assert_eq!(decode_frame(&bytes[..k]), Err(FrameError::Incomplete));
    }
}

#[test]
fn decode_rejects_unknown_type() {
    assert_eq!(
        decode_frame(&[7, 0, 0, 0, 1, 0, 0, 0, 0]),
        Err(FrameError::InvalidFrameType(7))
    );
    assert_eq!(decode_frame(&[9]), Err(FrameError::InvalidFrameType(9)));
}

#[test]
fn decode_header_fields() {
    assert_eq!(
        decode_header(&[3, 0, 0, 1, 0, 0, 0, 0x10, 0]),
        Ok((FrameType::FramePing, 256, 0x1000))
    );
    assert_eq!(decode_header(&[]), Err(FrameError::Incomplete));
    assert_eq!(decode_header(&[1, 0, 0]), Err(FrameError::Incomplete));
}

#[test]
fn decode_two_frames_in_a_row() {
    let a = frame(FrameType::FrameData, 1, b"ab");
    let b = frame(FrameType::FrameEOF, 1, b"");
    let mut bytes = encode_frame(&a).unwrap();
    bytes.extend(encode_frame(&b).unwrap());
    let (fa, na) = decode_frame(&bytes).unwrap();
    let (fb, nb) = decode_frame(&bytes[na..]).unwrap();
    assert_eq!(fa, a);
    assert_eq!(fb, b);
    assert_eq!(na + nb, bytes.len());
}
