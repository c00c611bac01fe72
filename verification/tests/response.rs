use httpd2::con::Connection;
use httpd2::date::Timestamp;
use httpd2::error::{HttpError, IoError, IoErrorKind};
use httpd2::file::OpenFile;
use httpd2::request::{Method, Protocol};
use httpd2::response::{
    barf, redirect, send, send_chunked, send_dated, send_unencoded, start_response,
    ContentEncoding, Transfer,
};

const DATE: &[u8] = b"Sun, 06 Nov 1994 08:49:37 GMT";
const MTIME: &[u8] = b"Sun, 02 Oct 2016 14:44:11 GMT";

fn connection() -> Connection {
    Connection::new("REMOTE".to_string())
}

fn text(bytes: &[u8]) -> String {
    String::from_utf8_lossy(bytes).into_owned()
}

/// Splits a response into its head, blank line included, and its body.
fn split(response: &[u8]) -> (String, Vec<u8>) {
    let at = response.windows(4).position(|w| w == b"\r\n\r\n").expect("no end of head") + 4;
    (text(&response[..at]), response[at..].to_vec())
}

fn content_length(head: &str) -> usize {
    let line = head.lines().find(|l| l.starts_with("Content-Length: ")).expect("no length");
    line["Content-Length: ".len()..].parse().unwrap()
}

#[test]
fn test_start_response() {
    let mut c = connection();
    start_response(&mut c, Protocol::Http10, DATE, b"200", b"OK");
    assert_eq!(
        text(&c.flush_output()),
        "HTTP/1.0 200 OK\r\nServer: abstract screaming\r\nDate: Sun, 06 Nov 1994 08:49:37 GMT\r\n"
    );
    start_response(&mut c, Protocol::Http11, DATE, b"404", b"not found");
    assert_eq!(
        text(&c.flush_output()),
        "HTTP/1.1 404 not found\r\nServer: abstract screaming\r\n\
         Date: Sun, 06 Nov 1994 08:49:37 GMT\r\n"
    );
}

#[test]
fn test_barf_exact() {
    let mut c = connection();
    barf(&mut c, Some(Protocol::Http11), true, HttpError::BadRequest, DATE);
    assert_eq!(
        text(&c.flush_output()),
        "HTTP/1.1 400 bad request\r\nServer: abstract screaming\r\n\
         Date: Sun, 06 Nov 1994 08:49:37 GMT\r\nContent-Length: 39\r\nConnection: close\r\n\
         Content-Type: text/html\r\n\r\n<html><body>bad request</body></html>\r\n"
    );
    assert_eq!(&c.flush_log()[..], b"");
}

#[test]
fn test_barf_without_protocol() {
    let mut c = connection();
    barf(&mut c, None, true, HttpError::BadMethod, DATE);
    assert_eq!(
        text(&c.flush_output()),
        "HTTP/1.0 501 bad method\r\nServer: abstract screaming\r\n\
         Date: Sun, 06 Nov 1994 08:49:37 GMT\r\nContent-Length: 38\r\n\
         Content-Type: text/html\r\n\r\n<html><body>bad method</body></html>\r\n"
    );
    barf(&mut c, Some(Protocol::Http10), true, HttpError::BadProtocol, DATE);
    let (head, _) = split(&c.flush_output());
    assert!(head.starts_with("HTTP/1.0 505 bad protocol\r\n"));
    assert!(!head.contains("Connection: close"));
}

#[test]
fn test_barf_body_length() {
    let errors = vec![
        HttpError::BadRequest,
        HttpError::NotFound(b"not ugo+r"),
        HttpError::RequestTimeout,
        HttpError::PreconditionFailed,
        HttpError::SpanishInquisition,
        HttpError::BadMethod,
        HttpError::NotImplemented(b"I can't receive messages"),
        HttpError::NotImplemented(b""),
        HttpError::BadProtocol,
        HttpError::IoError(IoError {
            kind: IoErrorKind::Other,
            description: b"something long enough to need three digits, or so one would hope \
                           when counting it by hand"
                .to_vec(),
        }),
    ];
    for error in errors {
        let reason = error.status().unwrap().1.to_vec();
        let mut c = connection();
        barf(&mut c, Some(Protocol::Http11), true, error, DATE);
        let (head, body) = split(&c.flush_output());
        assert_eq!(body.len(), reason.len() + 28);
        assert_eq!(content_length(&head), body.len());
        let mut expected = b"<html><body>".to_vec();
        expected.extend_from_slice(&reason);
        expected.extend_from_slice(b"</body></html>\r\n");
        assert_eq!(body, expected);
    }
}

#[test]
fn test_barf_codes() {
    let cases: Vec<(HttpError, &str)> = vec![
        (HttpError::BadRequest, "400 bad request"),
        (HttpError::NotFound(b"o+x but u-x"), "404 not found"),
        (HttpError::RequestTimeout, "408 type faster"),
        (HttpError::PreconditionFailed, "412 precondition failed"),
        (HttpError::SpanishInquisition, "417 unexpected"),
        (HttpError::BadMethod, "501 bad method"),
        (HttpError::NotImplemented(b"I can't receive messages"), "501 I can't receive messages"),
        (HttpError::BadProtocol, "505 bad protocol"),
        (
            HttpError::IoError(IoError {
                kind: IoErrorKind::Other,
                description: b"disk on fire".to_vec(),
            }),
            "500 disk on fire",
        ),
    ];
    for (error, status) in cases {
        let mut c = connection();
        barf(&mut c, Some(Protocol::Http11), true, error, DATE);
        let (head, _) = split(&c.flush_output());
        assert!(head.starts_with(&format!("HTTP/1.1 {}\r\n", status)));
    }
}

#[test]
fn test_barf_does_not_reveal_the_context_of_not_found() {
    let mut c = connection();
    barf(&mut c, Some(Protocol::Http11), true, HttpError::NotFound(b"not ugo+r"), DATE);
    let out = text(&c.flush_output());
    assert!(!out.contains("ugo"));
    assert!(out.ends_with("<html><body>not found</body></html>\r\n"));
}

#[test]
fn test_barf_without_content() {
    let mut c = connection();
    barf(&mut c, Some(Protocol::Http11), false, HttpError::BadRequest, DATE);
    let (head, body) = split(&c.flush_output());
    assert_eq!(content_length(&head), 39);
    assert_eq!(&body[..], b"");
}

#[test]
fn test_barf_connection_closed_is_silent() {
    let mut c = connection();
    barf(&mut c, Some(Protocol::Http11), true, HttpError::ConnectionClosed, DATE);
    assert_eq!(&c.flush_output()[..], b"");
    barf(&mut c, None, true, HttpError::ConnectionClosed, DATE);
    assert_eq!(&c.flush_output()[..], b"");
}

#[test]
fn test_redirect() {
    let mut c = connection();
    let r = redirect(&mut c, Protocol::Http11, true, b"http://a.b/dir/", DATE);
    assert!(r.is_ok());
    assert_eq!(
        text(&c.flush_output()),
        "HTTP/1.1 301 moved permanently\r\nServer: abstract screaming\r\n\
         Date: Sun, 06 Nov 1994 08:49:37 GMT\r\nContent-Length: 43\r\n\
         Location: http://a.b/dir/\r\nContent-Type: text/html\r\n\r\n\
         <html><body>moved permanently</body></html>"
    );
}

#[test]
fn test_redirect_closes_http10() {
    let mut c = connection();
    let r = redirect(&mut c, Protocol::Http10, false, b"http://a.b/dir/", DATE);
    assert!(matches!(r, Err(HttpError::ConnectionClosed)));
    let (head, body) = split(&c.flush_output());
    assert!(head.starts_with("HTTP/1.0 301 moved permanently\r\n"));
    assert_eq!(content_length(&head), 43);
    assert_eq!(&body[..], b"");
}

#[test]
fn test_send_dated_http10() {
    let mut c = connection();
    let resource = OpenFile { mtime: Timestamp { secs: 1475419451 }, length: 5 };
    let t = send_dated(
        &mut c,
        Method::Get,
        Protocol::Http10,
        DATE,
        MTIME,
        None,
        None,
        b"text/html",
        &resource,
    );
    assert_eq!(t, Transfer::Unencoded { remaining: 5 });
    assert_eq!(
        text(&c.flush_output()),
        "HTTP/1.0 200 OK\r\nServer: abstract screaming\r\nDate: Sun, 06 Nov 1994 08:49:37 GMT\r\n\
         Content-Type: text/html\r\nLast-Modified: Sun, 02 Oct 2016 14:44:11 GMT\r\n\
         Content-Length: 5\r\n\r\n"
    );
    assert_eq!(&c.flush_log()[..], b"");
}

#[test]
fn test_send_dated_http11_gzip() {
    let mut c = connection();
    let resource = OpenFile { mtime: Timestamp { secs: 1475419451 }, length: 5 };
    let t = send_dated(
        &mut c,
        Method::Get,
        Protocol::Http11,
        DATE,
        MTIME,
        Some(ContentEncoding::Gzip),
        Some(b"Sat, 01 Oct 2016 14:44:11 GMT"),
        b"text/css",
        &resource,
    );
    assert_eq!(t, Transfer::Chunked { open: true });
    assert_eq!(
        text(&c.flush_output()),
        "HTTP/1.1 200 OK\r\nServer: abstract screaming\r\nDate: Sun, 06 Nov 1994 08:49:37 GMT\r\n\
         Content-Type: text/css\r\nLast-Modified: Sun, 02 Oct 2016 14:44:11 GMT\r\n\
         Content-Encoding: gzip\r\nTransfer-Encoding: chunked\r\n\r\n"
    );
}

#[test]
fn test_send_dated_head() {
    let resource = OpenFile { mtime: Timestamp { secs: 1475419451 }, length: 5 };
    let mut c = connection();
    let t = send_dated(
        &mut c, Method::Head, Protocol::Http10, DATE, MTIME, None, None, b"text/html", &resource,
    );
    assert_eq!(t, Transfer::Unencoded { remaining: 0 });
    assert!(!t.is_open());
    let (head, body) = split(&c.flush_output());
    assert_eq!(content_length(&head), 5);
    assert_eq!(&body[..], b"");

    let t = send_dated(
        &mut c, Method::Head, Protocol::Http11, DATE, MTIME, None, None, b"text/html", &resource,
    );
    assert_eq!(t, Transfer::Chunked { open: false });
    assert!(!t.is_open());
}

#[test]
fn test_send_dated_not_modified() {
    let resource = OpenFile { mtime: Timestamp { secs: 1475419451 }, length: 5 };
    let mut c = connection();
    let t = send_dated(
        &mut c,
        Method::Get,
        Protocol::Http11,
        DATE,
        MTIME,
        Some(ContentEncoding::Gzip),
        Some(MTIME),
        b"text/html",
        &resource,
    );
    assert!(!t.is_open());
    let out = text(&c.flush_output());
    assert!(out.starts_with("HTTP/1.1 304 not modified\r\n"));
    assert!(!out.contains("Content-Encoding"));
    assert!(out.ends_with("Transfer-Encoding: chunked\r\n\r\n"));
    assert_eq!(&c.flush_log()[..], b"REMOTE note: not modified\n");
}

#[test]
fn test_send_compares_the_date_byte_for_byte() {
    let resource = OpenFile { mtime: Timestamp { secs: 1475419451 }, length: 5 };
    for since in [
        &b"sun, 02 Oct 2016 14:44:11 GMT"[..],
        b"Sun, 02 Oct 2016 14:44:11 GMT ",
        b"Sun, 02 Oct 2016 14:44:12 GMT",
        b"",
    ] {
        let mut c = connection();
        let t = send_dated(
            &mut c,
            Method::Get,
            Protocol::Http11,
            DATE,
            MTIME,
            None,
            Some(since),
            b"text/html",
            &resource,
        );
        assert!(t.is_open());
        assert!(text(&c.flush_output()).starts_with("HTTP/1.1 200 OK\r\n"));
    }
}

#[test]
fn test_send_formats_the_dates() {
    let mut c = connection();
    let resource = OpenFile { mtime: Timestamp { secs: 1475419451 }, length: 12 };
    let t = send(
        &mut c,
        Method::Get,
        Protocol::Http10,
        Timestamp { secs: 784111777 },
        None,
        Some(b"Sun, 02 Oct 2016 14:44:11 GMT"),
        b"text/plain",
        resource,
    );
    assert_eq!(t, Transfer::Unencoded { remaining: 0 });
    assert_eq!(
        text(&c.flush_output()),
        "HTTP/1.0 304 not modified\r\nServer: abstract screaming\r\n\
         Date: Sun, 06 Nov 1994 08:49:37 GMT\r\nContent-Type: text/plain\r\n\
         Last-Modified: Sun, 02 Oct 2016 14:44:11 GMT\r\nContent-Length: 12\r\n\r\n"
    );
}

#[test]
fn test_send_unencoded_and_chunked_headers() {
    let resource = OpenFile { mtime: Timestamp { secs: 0 }, length: 1234 };
    let mut c = connection();
    assert_eq!(send_unencoded(&mut c, true, &resource), Transfer::Unencoded { remaining: 1234 });
    assert_eq!(&c.flush_output()[..], &b"Content-Length: 1234\r\n\r\n"[..]);
    assert_eq!(send_unencoded(&mut c, false, &resource), Transfer::Unencoded { remaining: 0 });
    assert_eq!(&c.flush_output()[..], &b"Content-Length: 1234\r\n\r\n"[..]);
    assert_eq!(send_chunked(&mut c, true), Transfer::Chunked { open: true });
    assert_eq!(&c.flush_output()[..], &b"Transfer-Encoding: chunked\r\n\r\n"[..]);
    assert_eq!(send_chunked(&mut c, false), Transfer::Chunked { open: false });
}

#[test]
fn test_chunked_body() {
    let mut c = connection();
    let t = Transfer::Chunked { open: true };
    let t = t.data(&mut c, b"hello");
    assert!(t.is_open());
    let t = t.data(&mut c, &[b'x'; 26]);
    assert!(t.is_open());
    let t = t.data(&mut c, b"");
    assert!(!t.is_open());
    assert!(t.finish().is_ok());
    let mut expected = b"5\r\nhello\r\n1a\r\n".to_vec();
    expected.extend_from_slice(&[b'x'; 26]);
    expected.extend_from_slice(b"\r\n0\r\n\r\n");
    let out = c.flush_output();
    assert_eq!(out, expected);
    assert!(out.ends_with(b"0\r\n\r\n"));
    // Nothing follows the last chunk.
    let t = t.data(&mut c, b"more");
    assert!(!t.is_open());
    assert_eq!(&c.flush_output()[..], b"");
}

#[test]
fn test_chunked_body_of_an_empty_file() {
    let mut c = connection();
    let t = Transfer::Chunked { open: true }.data(&mut c, b"");
    assert!(!t.is_open());
    assert_eq!(&c.flush_output()[..], b"0\r\n\r\n");
}

#[test]
fn test_unencoded_body() {
    let mut c = connection();
    let t = Transfer::Unencoded { remaining: 11 };
    let t = t.data(&mut c, b"hello");
    assert_eq!(t, Transfer::Unencoded { remaining: 6 });
    let t = t.data(&mut c, b" world");
    assert_eq!(t, Transfer::Unencoded { remaining: 0 });
    assert!(!t.is_open());
    assert!(matches!(t.finish(), Err(HttpError::ConnectionClosed)));
    assert_eq!(&c.flush_output()[..], b"hello world");
}

#[test]
fn test_unencoded_body_of_a_file_that_grew() {
    let mut c = connection();
    let t = Transfer::Unencoded { remaining: 7 };
    let t = t.data(&mut c, b"hello");
    let t = t.data(&mut c, b" world");
    assert!(!t.is_open());
    let t = t.data(&mut c, b" and more");
    assert!(!t.is_open());
    assert_eq!(&c.flush_output()[..], b"hello w");
}

#[test]
fn test_unencoded_body_of_a_file_that_shrank() {
    let mut c = connection();
    let t = Transfer::Unencoded { remaining: 7 };
    let t = t.data(&mut c, b"hello");
    assert!(t.is_open());
    let t = t.data(&mut c, b"");
    assert!(!t.is_open());
    assert_eq!(&c.flush_output()[..], b"hello");
}
