use embedded_io::ErrorKind;
use mock_embedded_io::{MockError, Sink, Source};

#[test]
fn handle_write_lands_in_the_original_sink() {
    let mut sink = Sink::new().accept_data(64);
    {
        let mut handle = sink.owned_handle();
        assert_eq!(handle.write("hello".as_bytes()), Ok(5));
    }
    // The handle is gone; the original sink saw the bytes.
    assert_eq!(sink.into_inner_data(), "hello".as_bytes());
}

#[test]
fn handle_read_drains_the_original_source() {
    let mut source = Source::new().data(&[1, 2, 3]);
    {
        let mut handle = source.owned_handle();
        let mut buf = vec![0u8; 8];
        assert_eq!(handle.read(&mut buf), Ok(3));
        assert_eq!(&buf[0..3], &[1, 2, 3]);
    }
    assert!(source.is_consumed());
}

#[test]
fn handle_forwards_errors_verbatim() {
    let mut source = Source::new().error(MockError(ErrorKind::BrokenPipe));
    let mut handle = source.owned_handle();
    let mut buf = vec![0u8; 8];
    assert_eq!(handle.read(&mut buf), Err(MockError(ErrorKind::BrokenPipe)));
}

#[test]
fn handle_flush_succeeds_and_changes_nothing() {
    let mut sink = Sink::new().accept_data(2);
    {
        let mut handle = sink.owned_handle();
        assert_eq!(handle.flush(), Ok(()));
        assert_eq!(handle.write(&[7]), Ok(1));
    }
    assert!(!sink.is_consumed());
    assert_eq!(sink.into_inner_data(), vec![7]);
}
