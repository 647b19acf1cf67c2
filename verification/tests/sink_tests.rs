use embedded_io::ErrorKind;
use mock_embedded_io::{MockError, Sink};

#[test]
fn new_sink_is_consumed() {
    let s = Sink::new();
    assert!(s.is_consumed());
    assert!(s.into_inner_data().is_empty());
}

#[test]
fn write_accepted_then_error() {
    let data_bytes = "hello world!".as_bytes();
    let mut sink = Sink::new()
        .accept_data(12)
        .error(MockError(ErrorKind::BrokenPipe));

    let res = sink.write(data_bytes);
    assert_eq!(res, Ok(12));

    let res = sink.write(data_bytes);
    assert_eq!(res, Err(MockError(ErrorKind::BrokenPipe)));

    // The error outcome records nothing; the log holds one copy.
    let written = sink.into_inner_data();
    assert_eq!(written, data_bytes);
}

#[test]
fn accept_limit_spans_multiple_writes() {
    let mut sink = Sink::new().accept_data(10);

    assert_eq!(sink.write(&[1, 2, 3, 4]), Ok(4));
    assert!(!sink.is_consumed());
    // 6 of the limit remain; a longer write is capped to them.
    assert_eq!(sink.write(&[5, 6, 7, 8, 9, 10, 11, 12]), Ok(6));
    assert!(sink.is_consumed());
}

#[test]
fn accepted_lengths_summing_to_limit_remove_the_outcome() {
    let mut sink = Sink::new().accept_data(6).closed();

    assert_eq!(sink.write(&[1, 2]), Ok(2));
    assert_eq!(sink.write(&[3]), Ok(1));
    assert_eq!(sink.write(&[4, 5, 6]), Ok(3));
    // The limit is used up: the next outcome is observed.
    assert_eq!(sink.write(&[7]), Ok(0));
    assert!(sink.is_consumed());
}

#[test]
fn whole_buffer_is_logged_beyond_the_accepted_count() {
    let mut sink = Sink::new().accept_data(3);

    assert_eq!(sink.write(&[1, 2, 3, 4, 5]), Ok(3));
    // The log keeps the entire presented buffer, not only the accepted prefix.
    assert_eq!(sink.into_inner_data(), vec![1, 2, 3, 4, 5]);
}

#[test]
fn zero_limit_accepts_nothing_but_logs_the_buffer() {
    let mut sink = Sink::new().accept_data(0);

    assert_eq!(sink.write(&[8, 9]), Ok(0));
    assert!(sink.is_consumed());
    assert_eq!(sink.into_inner_data(), vec![8, 9]);
}

#[test]
fn closed_write_logs_nothing() {
    let mut sink = Sink::new().closed().accept_data(2);

    assert_eq!(sink.write(&[1, 2]), Ok(0));
    assert_eq!(sink.write(&[3, 4]), Ok(2));
    assert_eq!(sink.into_inner_data(), vec![3, 4]);
}

#[test]
fn write_error_is_not_replayed() {
    let mut sink = Sink::new()
        .error(MockError(ErrorKind::ConnectionReset))
        .accept_data(1);

    assert_eq!(sink.write(&[1]), Err(MockError(ErrorKind::ConnectionReset)));
    assert_eq!(sink.write(&[1]), Ok(1));
    assert!(sink.is_consumed());
}

#[test]
fn flush_always_succeeds_and_touches_nothing() {
    let mut sink = Sink::new().accept_data(5);

    assert_eq!(sink.flush(), Ok(()));
    assert!(!sink.is_consumed());
    assert_eq!(sink.write(&[1, 2]), Ok(2));
    assert_eq!(sink.flush(), Ok(()));
    assert_eq!(sink.into_inner_data(), vec![1, 2]);
}
