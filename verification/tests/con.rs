use httpd2::con::{Connection, MAX_LINE_BYTES};
use httpd2::error::HttpError;

fn connection() -> Connection {
    Connection::new("REMOTE".to_string())
}

#[test]
fn test_connection_readline() {
    let mut c = connection();

    c.receive(b"\r\n");
    assert_eq!(b"", &c.readline().unwrap()[..]);
    c.receive(b"abcd\r\nohai\r\n");
    assert_eq!(b"abcd", &c.readline().unwrap()[..]);
    assert_eq!(b"ohai", &c.readline().unwrap()[..]);

    // Lines that end in a bare line feed are tolerated as well.
    c.receive(b"also just\nnewline\n");
    assert_eq!(b"also just", &c.readline().unwrap()[..]);
    assert_eq!(b"newline", &c.readline().unwrap()[..]);

    // Test what happens when the connection is dropped.
    c.receive(b"truncated");
    match c.readline().err() {
        Some(HttpError::ConnectionClosed) => (),
        Some(_) => panic!("Unexpected error from readline() at stream end"),
        _ => panic!("readline() must fail at stream end"),
    };
}

#[test]
fn test_readline_on_empty_input() {
    let mut c = connection();
    assert!(matches!(c.readline(), Err(HttpError::ConnectionClosed)));
}

#[test]
fn test_readline_drops_an_unfinished_line() {
    let mut c = connection();
    c.receive(b"trunc");
    assert!(c.readline().is_err());
    c.receive(b"ated\n");
    assert_eq!(&c.readline().unwrap()[..], b"ated");
}

#[test]
fn test_readline_strips_one_carriage_return() {
    let mut c = connection();
    c.receive(b"a\r\r\nb\rc\n\r\n");
    assert_eq!(&c.readline().unwrap()[..], b"a\r");
    assert_eq!(&c.readline().unwrap()[..], b"b\rc");
    assert_eq!(&c.readline().unwrap()[..], b"");
    assert!(c.readline().is_err());
}

#[test]
fn test_receive_in_pieces() {
    let mut c = connection();
    c.receive(b"GET / HT");
    c.receive(b"TP/1.0\r");
    c.receive(b"\nrest");
    assert_eq!(&c.readline().unwrap()[..], b"GET / HTTP/1.0");
}

#[test]
fn test_write() {
    let mut c = connection();
    c.write(b"abc");
    c.write(b"");
    c.write(b"def");
    assert_eq!(&c.flush_output()[..], b"abcdef");
    assert_eq!(&c.flush_output()[..], b"");
    c.write(b"g");
    assert_eq!(&c.flush_output()[..], b"g");
}

#[test]
fn test_write_decimal() {
    let mut c = connection();
    c.write_decimal(0);
    c.write(b" ");
    c.write_decimal(7);
    c.write(b" ");
    c.write_decimal(10);
    c.write(b" ");
    c.write_decimal(43);
    c.write(b" ");
    c.write_decimal(1234567890);
    c.write(b" ");
    c.write_decimal(18446744073709551615);
    assert_eq!(&c.flush_output()[..], &b"0 7 10 43 1234567890 18446744073709551615"[..]);
}

#[test]
fn test_write_hex() {
    let mut c = connection();
    c.write_hex(0);
    c.write(b" ");
    c.write_hex(9);
    c.write(b" ");
    c.write_hex(10);
    c.write(b" ");
    c.write_hex(15);
    c.write(b" ");
    c.write_hex(16);
    c.write(b" ");
    c.write_hex(1024);
    c.write(b" ");
    c.write_hex(0xdeadbeef);
    assert_eq!(&c.flush_output()[..], &b"0 9 a f 10 400 deadbeef"[..]);
}

#[test]
fn test_log() {
    let mut c = connection();
    c.log(b"./x/a", None, b"success");
    assert_eq!(&c.flush_log()[..], &b"REMOTE read ./x/a: success\n"[..]);
    c.log(b"./x/a.gz", Some(b"gzipped"), b"not ugo+r");
    assert_eq!(&c.flush_log()[..], &b"REMOTE read ./x/a.gz [gzipped]: not ugo+r\n"[..]);
    assert_eq!(&c.flush_log()[..], b"");
}

#[test]
fn test_log_truncates_long_paths() {
    let mut c = connection();
    let exactly = vec![b'a'; 100];
    c.log(&exactly, None, b"ok");
    let mut expected = b"REMOTE read ".to_vec();
    expected.extend_from_slice(&exactly);
    expected.extend_from_slice(b": ok\n");
    assert_eq!(c.flush_log(), expected);

    let mut longer = vec![b'a'; 100];
    longer.extend_from_slice(b"bcd");
    c.log(&longer, Some(b"ctx"), b"ok");
    let mut expected = b"REMOTE read ".to_vec();
    expected.extend_from_slice(&exactly);
    expected.extend_from_slice(b"... [ctx]: ok\n");
    assert_eq!(c.flush_log(), expected);
}

#[test]
fn test_log_other() {
    let mut c = connection();
    c.log_other(b"note: serving gzipped");
    c.log_other(b"note: not modified");
    assert_eq!(
        &c.flush_log()[..],
        &b"REMOTE note: serving gzipped\nREMOTE note: not modified\n"[..]
    );
}

#[test]
fn test_buffers_are_separate() {
    let mut c = connection();
    c.receive(b"in\n");
    c.write(b"out");
    c.log_other(b"log");
    assert_eq!(&c.flush_output()[..], b"out");
    assert_eq!(&c.flush_log()[..], b"REMOTE log\n");
    assert_eq!(&c.readline().unwrap()[..], b"in");
}

#[test]
fn test_readline_longest_line() {
    assert_eq!(MAX_LINE_BYTES, 16384);
    let longest = vec![b'a'; MAX_LINE_BYTES];
    let mut c = connection();
    c.receive(&longest);
    c.receive(b"\r\n");
    c.receive(&longest);
    c.receive(b"\n");
    assert_eq!(c.readline().unwrap(), longest);
    assert_eq!(c.readline().unwrap(), longest);
}

#[test]
fn test_readline_line_too_long() {
    let too_long = vec![b'a'; MAX_LINE_BYTES + 1];
    let mut c = connection();
    c.receive(&too_long);
    c.receive(b"\r\nnext\r\n");
    assert!(matches!(c.readline(), Err(HttpError::BadRequest)));
    // The line is consumed all the same.
    assert_eq!(&c.readline().unwrap()[..], b"next");

    c.receive(&too_long);
    c.receive(b"\n");
    assert!(matches!(c.readline(), Err(HttpError::BadRequest)));
}

#[test]
fn test_readline_without_end_in_sight() {
    // A line and its delimiter could still fit.
    let mut c = connection();
    c.receive(&vec![b'a'; MAX_LINE_BYTES + 1]);
    assert!(matches!(c.readline(), Err(HttpError::ConnectionClosed)));
    // They no longer can.
    c.receive(&vec![b'a'; MAX_LINE_BYTES + 2]);
    assert!(matches!(c.readline(), Err(HttpError::BadRequest)));
    assert!(matches!(c.readline(), Err(HttpError::ConnectionClosed)));
}
