use embedded_io::ErrorKind;
use mock_embedded_io::{MockError, Source};

#[test]
fn new_source_is_consumed() {
    let s = Source::new();
    assert!(s.is_consumed());
}

#[test]
fn read_data_then_error() {
    let data_bytes = "hello world!".as_bytes();
    let mut source = Source::new()
        .data(data_bytes)
        .error(MockError(ErrorKind::BrokenPipe));

    let mut buf = vec![0u8; 64];
    let res = source.read(&mut buf);
    assert_eq!(res, Ok(12));
    assert_eq!(&buf[0..12], data_bytes);

    let res = source.read(&mut buf);
    assert_eq!(res, Err(MockError(ErrorKind::BrokenPipe)));
    assert!(source.is_consumed());
}

#[test]
fn data_is_drained_across_small_buffers() {
    let mut source = Source::new().data(&[1, 2, 3, 4, 5]).data(&[6, 7]);

    let mut collected: Vec<u8> = Vec::new();
    let mut buf = vec![0u8; 2];
    while !source.is_consumed() {
        let n = source.read(&mut buf).unwrap();
        collected.extend_from_slice(&buf[0..n]);
    }
    // Whatever the chunking, the bytes come out in order and complete.
    assert_eq!(collected, vec![1, 2, 3, 4, 5, 6, 7]);
}

#[test]
fn read_never_coalesces_chunks() {
    let mut source = Source::new().data(&[1, 2, 3, 4, 5]).data(&[6, 7, 8, 9, 10, 11, 12]);

    let mut buf = vec![0u8; 64];
    // A large buffer still only sees the first chunk on the first call.
    assert_eq!(source.read(&mut buf), Ok(5));
    assert_eq!(&buf[0..5], &[1, 2, 3, 4, 5]);
    assert_eq!(source.read(&mut buf), Ok(7));
    assert_eq!(&buf[0..7], &[6, 7, 8, 9, 10, 11, 12]);
    assert!(source.is_consumed());
}

#[test]
fn read_with_empty_buffer_leaves_data_queued() {
    let mut source = Source::new().data(&[9, 8, 7]);

    let mut empty: Vec<u8> = Vec::new();
    assert_eq!(source.read(&mut empty), Ok(0));
    assert!(!source.is_consumed());

    let mut buf = vec![0u8; 8];
    assert_eq!(source.read(&mut buf), Ok(3));
    assert_eq!(&buf[0..3], &[9, 8, 7]);
    assert!(source.is_consumed());
}

#[test]
fn empty_data_chunk_is_one_zero_length_read() {
    let mut source = Source::new().data(&[]).data(&[5]);

    let mut buf = vec![0u8; 8];
    assert_eq!(source.read(&mut buf), Ok(0));
    assert!(!source.is_consumed());
    assert_eq!(source.read(&mut buf), Ok(1));
    assert_eq!(buf[0], 5);
    assert!(source.is_consumed());
}

#[test]
fn error_is_not_replayed() {
    let mut source = Source::new()
        .error(MockError(ErrorKind::TimedOut))
        .data(&[42]);

    let mut buf = vec![0u8; 8];
    assert_eq!(source.read(&mut buf), Err(MockError(ErrorKind::TimedOut)));
    // The following call observes the next queued outcome, not the error.
    assert_eq!(source.read(&mut buf), Ok(1));
    assert_eq!(buf[0], 42);
}

#[test]
fn closed_yields_one_zero_length_success() {
    let mut source = Source::new().closed().data(&[1]);

    let mut buf = vec![0u8; 8];
    assert_eq!(source.read(&mut buf), Ok(0));
    assert_eq!(source.read(&mut buf), Ok(1));
    assert!(source.is_consumed());
}

#[test]
fn is_consumed_tracks_every_outcome() {
    let mut source = Source::new()
        .data(&[1, 2])
        .error(MockError(ErrorKind::Other))
        .closed();
    assert!(!source.is_consumed());

    let mut buf = vec![0u8; 1];
    assert_eq!(source.read(&mut buf), Ok(1));
    assert!(!source.is_consumed());
    assert_eq!(source.read(&mut buf), Ok(1));
    assert!(!source.is_consumed());
    assert_eq!(source.read(&mut buf), Err(MockError(ErrorKind::Other)));
    assert!(!source.is_consumed());
    assert_eq!(source.read(&mut buf), Ok(0));
    assert!(source.is_consumed());
}

#[test]
fn mock_error_kind_is_the_wrapped_kind() {
    let e = MockError(ErrorKind::BrokenPipe);
    assert_eq!(e.kind(), ErrorKind::BrokenPipe);
    assert_ne!(e, MockError(ErrorKind::TimedOut));
    let copy = e;
    assert_eq!(copy, e);
}
