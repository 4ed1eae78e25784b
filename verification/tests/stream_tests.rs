use rasta::frame::FrameType;
use rasta::stream::{Stream, StreamError};

#[test]
fn new_stream_is_open_and_empty() {
    let mut s = Stream::new(5);
    assert_eq!(s.id(), 5);
    let mut p = vec![0u8; 4];
    assert_eq!(s.read(&mut p), Err(StreamError::WouldBlock));
    assert_eq!(p, vec![0, 0, 0, 0]);
}

#[test]
fn write_gives_data_frame() {
    let s = Stream::new(9);
    let f = s.write(vec![1, 2, 3]).unwrap();
    assert_eq!(f.frame_type, FrameType::FrameData);
    assert_eq!(f.stream_id, 9);
    assert_eq!(f.payload, vec![1, 2, 3]);
}

#[test]
fn read_copies_oldest_bytes_and_keeps_rest() {
    let mut s = Stream::new(1);
    s.ingest(vec![1, 2, 3, 4, 5]);
    let mut p = vec![0u8; 2];
    assert_eq!(s.read(&mut p), Ok(2));
    assert_eq!(p, vec![1, 2]);
    let mut q = vec![9u8; 5];
    assert_eq!(s.read(&mut q), Ok(3));
    assert_eq!(q, vec![3, 4, 5, 9, 9]);
    assert_eq!(s.read(&mut q), Err(StreamError::WouldBlock));
}

#[test]
fn ingested_chunks_read_in_order() {
    let mut s = Stream::new(1);
    s.ingest(vec![1, 2]);
    s.ingest(vec![3]);
    let mut p = vec![0u8; 8];
    assert_eq!(s.read(&mut p), Ok(3));
    assert_eq!(&p[..3], &[1, 2, 3]);
}

#[test]
fn read_into_empty_buffer_reads_nothing() {
    let mut s = Stream::new(1);
    s.ingest(vec![1]);
    let mut p: Vec<u8> = Vec::new();
    assert_eq!(s.read(&mut p), Ok(0));
    let mut q = vec![0u8; 1];
    assert_eq!(s.read(&mut q), Ok(1));
    assert_eq!(q, vec![1]);
}

#[test]
fn eof_keeps_buffered_data_then_reports_end() {
    let mut s = Stream::new(1);
    s.ingest(vec![7, 8]);
    s.signal_eof();
    let mut p = vec![0u8; 4];
    assert_eq!(s.read(&mut p), Ok(2));
    assert_eq!(&p[..2], &[7, 8]);
    assert_eq!(s.read(&mut p), Err(StreamError::UnexpectedEof));
    assert_eq!(s.read(&mut p), Err(StreamError::UnexpectedEof));
}

#[test]
fn close_is_idempotent_and_blocks_writes() {
    let mut s = Stream::new(4);
    let f = s.close().unwrap();
    assert_eq!(f.frame_type, FrameType::FrameReset);
    assert_eq!(f.stream_id, 4);
    assert!(f.payload.is_empty());
    assert!(s.close().is_none());
    assert_eq!(s.write(vec![1]), Err(StreamError::WriteOnClosed));
}

#[test]
fn read_after_local_close_is_broken_pipe() {
    let mut s = Stream::new(4);
    s.ingest(vec![1]);
    s.close();
    let mut p = vec![0u8; 1];
    assert_eq!(s.read(&mut p), Ok(1));
    assert_eq!(s.read(&mut p), Err(StreamError::BrokenPipe));
    s.signal_eof();
    assert_eq!(s.read(&mut p), Err(StreamError::UnexpectedEof));
}

#[test]
fn close_write_gives_eof_frame() {
    let s = Stream::new(12);
    let f = s.close_write();
    assert_eq!(f.frame_type, FrameType::FrameEOF);
    assert_eq!(f.stream_id, 12);
    assert!(f.payload.is_empty());
}
