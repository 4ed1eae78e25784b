use rasta::frame::{encode_frame, Frame, FrameError, FrameType};
use rasta::mux::{Mux, ReadError, ServeAction};
use rasta::stream::StreamError;

fn frame(t: FrameType, id: u32, payload: &[u8]) -> Frame {
    Frame { frame_type: t, stream_id: id, payload: payload.to_vec() }
}

#[test]
fn ping_is_answered_with_pong() {
    let mut m = Mux::new();
    match m.serve(Ok(frame(FrameType::FramePing, 3, b"x"))) {
        ServeAction::Reply(f) => {
            assert_eq!(f, frame(FrameType::FramePong, 3, b""));
        }
        _ => panic!("expected a reply"),
    }
    assert!(matches!(m.serve(Ok(frame(FrameType::FramePong, 3, b""))), ServeAction::Ignored));
    assert_eq!(m.accept(), None);
}

#[test]
fn first_data_opens_stream_once() {
    let mut m = Mux::new();
    assert!(matches!(
        m.serve(Ok(frame(FrameType::FrameData, 5, b"ab"))),
        ServeAction::Delivered { stream_id: 5, opened: true }
    ));
    assert!(matches!(
        m.serve(Ok(frame(FrameType::FrameData, 5, b"cd"))),
        ServeAction::Delivered { stream_id: 5, opened: false }
    ));
    assert_eq!(m.accept(), Some(Ok(5)));
    assert_eq!(m.accept(), None);
    let mut s = m.take_stream(5).unwrap();
    let mut p = vec![0u8; 8];
    assert_eq!(s.read(&mut p), Ok(4));
    assert_eq!(&p[..4], b"abcd");
    m.restore_stream(s);
    assert!(m.has_stream(5));
}

#[test]
fn accept_in_arrival_order() {
    let mut m = Mux::new();
    m.serve(Ok(frame(FrameType::FrameData, 2, b"a")));
    m.serve(Ok(frame(FrameType::FrameData, 1, b"b")));
    assert_eq!(m.accept(), Some(Ok(2)));
    assert_eq!(m.accept(), Some(Ok(1)));
    assert_eq!(m.accept(), None);
}

#[test]
fn eof_frame_half_closes_stream() {
    let mut m = Mux::new();
    m.serve(Ok(frame(FrameType::FrameData, 8, b"z")));
    assert!(matches!(m.serve(Ok(frame(FrameType::FrameEOF, 8, b""))), ServeAction::Eof(8)));
    let mut s = m.take_stream(8).unwrap();
    let mut p = vec![0u8; 2];
    assert_eq!(s.read(&mut p), Ok(1));
    assert_eq!(s.read(&mut p), Err(StreamError::UnexpectedEof));
}

#[test]
fn reset_detaches_stream_with_its_data() {
    let mut m = Mux::new();
    m.serve(Ok(frame(FrameType::FrameData, 4, b"qr")));
    match m.serve(Ok(frame(FrameType::FrameReset, 4, b""))) {
        ServeAction::Reset(mut s) => {
            assert_eq!(s.id(), 4);
            let mut p = vec![0u8; 4];
            assert_eq!(s.read(&mut p), Ok(2));
            assert_eq!(&p[..2], b"qr");
            assert_eq!(s.read(&mut p), Err(StreamError::UnexpectedEof));
        }
        _ => panic!("expected a reset"),
    }
    assert!(!m.has_stream(4));
    assert!(m.take_stream(4).is_none());
}

#[test]
fn failure_is_reported_once() {
    let mut m = Mux::new();
    m.serve(Ok(frame(FrameType::FrameData, 1, b"a")));
    assert!(matches!(m.serve(Err(ReadError::Disconnected)), ServeAction::Stop));
    assert!(matches!(
        m.serve(Err(ReadError::Malformed(FrameError::InvalidFrameType(9)))),
        ServeAction::Stop
    ));
    assert!(!m.accept_exhausted());
    assert_eq!(m.accept(), Some(Ok(1)));
    assert_eq!(m.accept(), Some(Err(ReadError::Disconnected)));
    assert!(m.accept_exhausted());
}

#[test]
fn read_frame_decodes_wire_bytes() {
    let m = Mux::new();
    let f = frame(FrameType::FrameData, 77, b"hello");
    let bytes = encode_frame(&f).unwrap();
    let (g, n) = m.read_frame(&bytes).unwrap();
    assert_eq!(g, f);
    assert_eq!(n, bytes.len());
    assert_eq!(m.read_frame(&bytes[..3]), Err(FrameError::Incomplete));
}

#[test]
fn restore_stream_replaces_by_id() {
    let mut m = Mux::new();
    assert!(m.take_stream(3).is_none());
    m.serve(Ok(frame(FrameType::FrameData, 3, b"x")));
    let s = m.take_stream(3).unwrap();
    assert!(!m.has_stream(3));
    m.restore_stream(s);
    assert!(m.has_stream(3));
}
