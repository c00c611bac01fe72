use httpd2::con::{Connection, MAX_LINE_BYTES};
use httpd2::date::Timestamp;
use httpd2::error::{IoError, IoErrorKind};
use httpd2::file::Metadata;
use httpd2::error::HttpError;
use httpd2::request::{parse_request_line, Method, Protocol, Request};
use httpd2::server::{resolve, serve, Action, Ending, Event, Server, Source};

const NOW: Timestamp = Timestamp { secs: 784111777 };
const NOW_DATE: &str = "Sun, 06 Nov 1994 08:49:37 GMT";
const MTIME: Timestamp = Timestamp { secs: 1475419451 };
const MTIME_DATE: &str = "Sun, 02 Oct 2016 14:44:11 GMT";

fn text(bytes: &[u8]) -> String {
    String::from_utf8_lossy(bytes).into_owned()
}

fn file(mode: u32, mtime: Timestamp, length: u64) -> Event {
    Event::Opened {
        result: Ok(Metadata { mode, is_dir: false, is_file: true, modified: Ok(mtime), length }),
        type_override: None,
    }
}

fn directory() -> Event {
    Event::Opened {
        result: Ok(Metadata {
            mode: 0o40755,
            is_dir: true,
            is_file: false,
            modified: Ok(MTIME),
            length: 4096,
        }),
        type_override: None,
    }
}

fn missing() -> Event {
    Event::Opened {
        result: Err(IoError {
            kind: IoErrorKind::NotFound,
            description: b"entity not found".to_vec(),
        }),
        type_override: None,
    }
}

/// A connection and a server that has read `request`, and what it asks for.
fn after_request(request: &[u8]) -> (Connection, Server, Action) {
    let mut con = Connection::new("10.0.0.1".to_string());
    let (mut server, mut action) = Server::start();
    for line in request.split_inclusive(|b| *b == b'\n') {
        assert!(matches!(action, Action::ReadLine));
        assert!(server.admits(&Event::Input(line.to_vec())));
        let (s, a) = serve(server, Event::Input(line.to_vec()), NOW, &mut con);
        server = s;
        action = a;
    }
    (con, server, action)
}

fn opened_path(action: &Action) -> Vec<u8> {
    match action {
        Action::Open { path, .. } => path.clone(),
        other => panic!("expected a file to be asked for, not {:?}", other),
    }
}

#[test]
fn test_start() {
    let (server, action) = Server::start();
    assert!(matches!(server, Server::Reading(_)));
    assert!(matches!(action, Action::ReadLine));
}

#[test]
fn test_http10_without_host() {
    let (mut con, server, action) = after_request(b"GET / HTTP/1.0\r\n\r\n");
    assert!(matches!(action, Action::Open { source: Source::Primary, .. }));
    assert_eq!(&opened_path(&action)[..], b"./0/index.html");
    assert_eq!(&con.flush_output()[..], b"");

    let (server, action) = serve(server, file(0o100644, MTIME, 5), NOW, &mut con);
    assert!(matches!(action, Action::ReadFile(Source::Primary)));
    assert_eq!(
        text(&con.flush_output()),
        format!(
            "HTTP/1.0 200 OK\r\nServer: abstract screaming\r\nDate: {}\r\n\
             Content-Type: text/html\r\nLast-Modified: {}\r\nContent-Length: 5\r\n\r\n",
            NOW_DATE, MTIME_DATE
        )
    );
    assert_eq!(text(&con.flush_log()), "10.0.0.1 read ./0/index.html: success\n");

    let (server, action) = serve(server, Event::Data(b"hello".to_vec()), NOW, &mut con);
    assert_eq!(&con.flush_output()[..], b"hello");
    // The connection closes.
    assert!(matches!(action, Action::Close(Ending::Served)));
    assert!(matches!(server, Server::Closed));
}

#[test]
fn test_http11_with_host() {
    let (mut con, server, action) =
        after_request(b"GET / HTTP/1.1\r\nHost: Example.COM:80\r\n\r\n");
    assert_eq!(&opened_path(&action)[..], b"./example.com/index.html");

    let (server, action) = serve(server, file(0o100644, MTIME, 5), NOW, &mut con);
    assert!(matches!(action, Action::ReadFile(Source::Primary)));
    assert_eq!(
        text(&con.flush_output()),
        format!(
            "HTTP/1.1 200 OK\r\nServer: abstract screaming\r\nDate: {}\r\n\
             Content-Type: text/html\r\nLast-Modified: {}\r\nTransfer-Encoding: chunked\r\n\r\n",
            NOW_DATE, MTIME_DATE
        )
    );
    let (server, action) = serve(server, Event::Data(b"hello".to_vec()), NOW, &mut con);
    assert!(matches!(action, Action::ReadFile(Source::Primary)));
    let (server, action) = serve(server, Event::Data(Vec::new()), NOW, &mut con);
    assert_eq!(&con.flush_output()[..], b"5\r\nhello\r\n0\r\n\r\n");
    // The connection stays open.
    assert!(matches!(action, Action::ReadLine));
    assert!(matches!(server, Server::Reading(_)));

    // The next request is served on the same connection.
    let (server, action) = serve(server, Event::Input(b"HEAD /b HTTP/1.1\n".to_vec()), NOW, &mut con);
    assert!(matches!(action, Action::ReadLine));
    let (server, action) = serve(server, Event::Input(b"Host: y\n".to_vec()), NOW, &mut con);
    assert!(matches!(action, Action::ReadLine));
    let (_, action) = serve(server, Event::Input(b"\n".to_vec()), NOW, &mut con);
    assert_eq!(&opened_path(&action)[..], b"./y/b");
}

#[test]
fn test_directory_redirect() {
    let (mut con, server, action) = after_request(b"GET /dir HTTP/1.1\r\nHost: a.b\r\n\r\n");
    assert_eq!(&opened_path(&action)[..], b"./a.b/dir");
    let (server, action) = serve(server, directory(), NOW, &mut con);
    let out = text(&con.flush_output());
    assert!(out.starts_with("HTTP/1.1 301 moved permanently\r\n"));
    assert!(out.contains("\r\nLocation: http://a.b/dir/\r\n"));
    assert!(out.ends_with("\r\n\r\n<html><body>moved permanently</body></html>"));
    assert_eq!(text(&con.flush_log()), "10.0.0.1 read ./a.b/dir: directory redirect\n");
    assert!(matches!(action, Action::ReadLine));
    assert!(matches!(server, Server::Reading(_)));
}

#[test]
fn test_directory_redirect_http10() {
    let (mut con, server, _) = after_request(b"HEAD http://A.b:8080/dir HTTP/1.0\r\n\r\n");
    let (server, action) = serve(server, directory(), NOW, &mut con);
    let out = text(&con.flush_output());
    assert!(out.starts_with("HTTP/1.0 301 moved permanently\r\n"));
    // The location gives the host as the client gave it.
    assert!(out.contains("\r\nLocation: http://A.b:8080/dir/\r\n"));
    assert!(out.ends_with("Content-Type: text/html\r\n\r\n"));
    assert!(matches!(action, Action::Close(Ending::Served)));
    assert!(matches!(server, Server::Closed));
}

#[test]
fn test_directory_without_host_cannot_redirect() {
    let (mut con, server, action) = after_request(b"GET /dir HTTP/1.0\r\n\r\n");
    assert_eq!(&opened_path(&action)[..], b"./0/dir");
    let (_, action) = serve(server, directory(), NOW, &mut con);
    assert!(text(&con.flush_output()).starts_with("HTTP/1.0 404 not found\r\n"));
    assert_eq!(
        text(&con.flush_log()),
        "10.0.0.1 read ./0/dir: directory redirect\n"
    );
    assert!(matches!(action, Action::Close(Ending::Served)));
}

#[test]
fn test_unreadable_file() {
    let (mut con, server, action) = after_request(b"GET /secret HTTP/1.1\r\nHost: x\r\n\r\n");
    assert_eq!(&opened_path(&action)[..], b"./x/secret");
    let (server, action) = serve(server, file(0o100640, MTIME, 5), NOW, &mut con);
    let out = text(&con.flush_output());
    assert!(out.starts_with("HTTP/1.1 404 not found\r\n"));
    assert!(out.contains("\r\nConnection: close\r\n"));
    assert!(out.ends_with("<html><body>not found</body></html>\r\n"));
    assert!(!out.contains("ugo"));
    let log = text(&con.flush_log());
    assert!(log.contains("not ugo+r"));
    assert_eq!(log, "10.0.0.1 read ./x/secret: not ugo+r\n");
    assert!(matches!(action, Action::Close(Ending::Served)));
    assert!(matches!(server, Server::Closed));
}

#[test]
fn test_missing_file() {
    let (mut con, server, _) = after_request(b"GET /nope HTTP/1.1\r\nHost: x\r\n\r\n");
    let (_, action) = serve(server, missing(), NOW, &mut con);
    assert!(text(&con.flush_output()).starts_with("HTTP/1.1 404 not found\r\n"));
    assert_eq!(text(&con.flush_log()), "10.0.0.1 read ./x/nope: io not found\n");
    assert!(matches!(action, Action::Close(Ending::Served)));
}

#[test]
fn test_post_is_refused() {
    // The method is refused at the request line, before any header is read.
    let (mut con, server, action) = after_request(b"POST / HTTP/1.1\r\n");
    assert!(matches!(action, Action::Close(Ending::Unread)));
    assert!(matches!(server, Server::Closed));
    let out = text(&con.flush_output());
    assert!(out.starts_with("HTTP/1.0 501 bad method\r\n"));
    assert!(out.ends_with("<html><body>bad method</body></html>\r\n"));
}

#[test]
fn test_message_body_is_refused() {
    let mut con = Connection::new("10.0.0.1".to_string());
    let (mut server, mut action) = Server::start();
    for line in [&b"GET / HTTP/1.1\r\n"[..], b"Host: x\r\n", b"Content-Length: 5\r\n"] {
        let (s, a) = serve(server, Event::Input(line.to_vec()), NOW, &mut con);
        server = s;
        action = a;
        assert!(matches!(action, Action::ReadLine));
    }
    // The blank line completes the header, which is refused before any of
    // the body is read.
    let (server, action) = serve(server, Event::Input(b"\r\n".to_vec()), NOW, &mut con);
    assert!(matches!(action, Action::Close(Ending::Unread)));
    assert!(matches!(server, Server::Closed));
    let out = text(&con.flush_output());
    assert!(out.starts_with("HTTP/1.0 501 I can't receive messages\r\n"));
    assert!(out.contains("\r\nContent-Length: 52\r\n"));
    assert!(out.ends_with("\r\n\r\n<html><body>I can't receive messages</body></html>\r\n"));
}

#[test]
fn test_gzip_alternate_not_modified() {
    let request = format!(
        "GET /a HTTP/1.1\r\nHost: x\r\nAccept-Encoding: gzip, deflate\r\n\
         If-Modified-Since: {}\r\n\r\n",
        MTIME_DATE
    );
    let (mut con, server, action) = after_request(request.as_bytes());
    assert_eq!(&opened_path(&action)[..], b"./x/a");
    let (server, action) = serve(server, file(0o100644, MTIME, 100), NOW, &mut con);
    assert!(matches!(action, Action::Open { source: Source::Alternate, .. }));
    assert_eq!(&opened_path(&action)[..], b"./x/a.gz");
    assert_eq!(&con.flush_output()[..], b"");
    let newer = Timestamp { secs: MTIME.secs + 10 };
    let (server, action) = serve(server, file(0o100644, newer, 40), NOW, &mut con);
    let out = text(&con.flush_output());
    assert_eq!(
        out,
        format!(
            "HTTP/1.1 304 not modified\r\nServer: abstract screaming\r\nDate: {}\r\n\
             Content-Type: text/plain\r\nLast-Modified: {}\r\nTransfer-Encoding: chunked\r\n\r\n",
            NOW_DATE, MTIME_DATE
        )
    );
    assert!(!out.contains("Content-Encoding"));
    assert_eq!(
        text(&con.flush_log()),
        "10.0.0.1 read ./x/a: success\n10.0.0.1 read ./x/a.gz [gzipped]: success\n\
         10.0.0.1 note: serving gzipped\n10.0.0.1 note: not modified\n"
    );
    // No body: the next request is awaited at once.
    assert!(matches!(action, Action::ReadLine));
    assert!(matches!(server, Server::Reading(_)));
}

#[test]
fn test_gzip_alternate_served() {
    let (mut con, server, _) =
        after_request(b"GET /a.css HTTP/1.1\r\nHost: x\r\nAccept-Encoding: gzip\r\n\r\n");
    let (server, action) = serve(server, file(0o100644, MTIME, 100), NOW, &mut con);
    assert_eq!(&opened_path(&action)[..], b"./x/a.css.gz");
    // Equally fresh is fresh enough.
    let (server, action) = serve(server, file(0o100644, MTIME, 40), NOW, &mut con);
    assert!(matches!(action, Action::ReadFile(Source::Alternate)));
    assert_eq!(
        text(&con.flush_output()),
        format!(
            "HTTP/1.1 200 OK\r\nServer: abstract screaming\r\nDate: {}\r\n\
             Content-Type: text/css\r\nLast-Modified: {}\r\nContent-Encoding: gzip\r\n\
             Transfer-Encoding: chunked\r\n\r\n",
            NOW_DATE, MTIME_DATE
        )
    );
    let (_, action) = serve(server, Event::Data(b"zz".to_vec()), NOW, &mut con);
    assert!(matches!(action, Action::ReadFile(Source::Alternate)));
    assert_eq!(&con.flush_output()[..], b"2\r\nzz\r\n");
}

#[test]
fn test_gzip_alternate_length_on_http10() {
    let (mut con, server, _) =
        after_request(b"GET /a HTTP/1.0\r\nAccept-Encoding: gzip\r\n\r\n");
    let (server, _) = serve(server, file(0o100644, MTIME, 100), NOW, &mut con);
    let (_, action) = serve(server, file(0o100644, MTIME, 40), NOW, &mut con);
    assert!(matches!(action, Action::ReadFile(Source::Alternate)));
    let out = text(&con.flush_output());
    assert!(out.contains("\r\nContent-Encoding: gzip\r\n"));
    assert!(out.ends_with("\r\nContent-Length: 40\r\n\r\n"));
}

#[test]
fn test_stale_or_unusable_alternate_is_ignored() {
    let older = Timestamp { secs: MTIME.secs - 1 };
    let alternates = vec![
        (file(0o100644, older, 40), "10.0.0.1 read ./x/a.gz [gzipped]: success\n"),
        (file(0o100600, MTIME, 40), "10.0.0.1 read ./x/a.gz [gzipped]: not ugo+r\n"),
        (directory(), "10.0.0.1 read ./x/a.gz [gzipped]: directory redirect\n"),
        (missing(), "10.0.0.1 read ./x/a.gz [gzipped]: io not found\n"),
    ];
    for (alternate, logged) in alternates {
        let (mut con, server, _) =
            after_request(b"GET /a HTTP/1.1\r\nHost: x\r\nAccept-Encoding: gzip\r\n\r\n");
        let (server, _) = serve(server, file(0o100644, MTIME, 100), NOW, &mut con);
        con.flush_log();
        let (_, action) = serve(server, alternate, NOW, &mut con);
        assert!(matches!(action, Action::ReadFile(Source::Primary)));
        let out = text(&con.flush_output());
        assert!(out.starts_with("HTTP/1.1 200 OK\r\n"));
        assert!(!out.contains("Content-Encoding"));
        assert_eq!(text(&con.flush_log()), logged);
    }
}

#[test]
fn test_read_timeout() {
    let mut con = Connection::new("10.0.0.1".to_string());
    let (server, _) = Server::start();
    let timeout = httpd2::timeout::ready_or_timed_out(Ok(false)).unwrap_err();
    let (server, action) = serve(server, Event::InputFailed(timeout), NOW, &mut con);
    assert!(matches!(action, Action::Close(Ending::Unread)));
    assert!(matches!(server, Server::Closed));
    let out = text(&con.flush_output());
    assert!(out.starts_with("HTTP/1.0 408 type faster\r\n"));
    assert!(out.ends_with("<html><body>type faster</body></html>\r\n"));
}

#[test]
fn test_read_timeout_within_a_request() {
    let (mut con, server, action) = after_request(b"GET / HTTP/1.1\r\nHos");
    // The unfinished line counts as the end of the input.
    assert!(matches!(action, Action::Close(Ending::Unread)));
    assert!(matches!(server, Server::Closed));
    assert_eq!(&con.flush_output()[..], b"");

    let (mut con, server, _) = after_request(b"GET / HTTP/1.1\r\n");
    let timeout = IoError { kind: IoErrorKind::TimedOut, description: b"timed out".to_vec() };
    let (_, action) = serve(server, Event::InputFailed(timeout), NOW, &mut con);
    assert!(matches!(action, Action::Close(Ending::Unread)));
    assert!(text(&con.flush_output()).starts_with("HTTP/1.0 408 type faster\r\n"));
}

#[test]
fn test_client_goes_away() {
    let mut con = Connection::new("10.0.0.1".to_string());
    let (server, _) = Server::start();
    let (server, action) = serve(server, Event::Input(Vec::new()), NOW, &mut con);
    assert!(matches!(action, Action::Close(Ending::Unread)));
    assert!(matches!(server, Server::Closed));
    assert_eq!(&con.flush_output()[..], b"");
    assert_eq!(&con.flush_log()[..], b"");
}

#[test]
fn test_http11_without_host_is_a_bad_request() {
    let (mut con, server, action) = after_request(b"GET / HTTP/1.1\r\n\r\n");
    assert!(matches!(action, Action::Close(Ending::Served)));
    assert!(matches!(server, Server::Closed));
    let out = text(&con.flush_output());
    assert!(out.starts_with("HTTP/1.1 400 bad request\r\n"));
    assert!(out.contains("\r\nConnection: close\r\n"));
}

#[test]
fn test_bad_escape_is_a_bad_request() {
    let (mut con, _, action) = after_request(b"HEAD /a%zz HTTP/1.0\r\n\r\n");
    assert!(matches!(action, Action::Close(Ending::Served)));
    let out = text(&con.flush_output());
    assert!(out.starts_with("HTTP/1.0 400 bad request\r\n"));
    // No body for a HEAD.
    assert!(out.ends_with("Content-Type: text/html\r\n\r\n"));
}

#[test]
fn test_paths_stay_below_the_host() {
    let cases: [(&[u8], &[u8]); 6] = [
        (b"GET /../../etc/passwd HTTP/1.0", b"./0/:./:./etc/passwd"),
        (b"GET /%2e%2e/%2E%2E/etc/passwd HTTP/1.0", b"./0/:./:./etc/passwd"),
        (b"GET /a%2F%2F.b HTTP/1.0", b"./0/a/:b"),
        (b"GET /a%00b HTTP/1.0", b"./0/a_b"),
        (b"GET http://../x HTTP/1.0", b"./:./x"),
        (b"GET http://A/.B:9/c HTTP/1.0", b"./a/:B:9/c"),
    ];
    for (line, path) in cases.iter() {
        let req = parse_request_line(line.to_vec()).unwrap();
        let resolved = resolve(&req).unwrap();
        assert_eq!(&resolved[..], *path);
        assert!(!resolved.contains(&0));
        assert!(!resolved.windows(2).any(|w| w == b"//" || w == b"/."));
    }
}

#[test]
fn test_type_override() {
    let (mut con, server, _) = after_request(b"HEAD /a.html HTTP/1.0\r\n\r\n");
    let event = Event::Opened {
        result: Ok(Metadata {
            mode: 0o100444,
            is_dir: false,
            is_file: true,
            modified: Ok(MTIME),
            length: 5,
        }),
        type_override: Some(b"application/xhtml+xml".to_vec()),
    };
    let (_, action) = serve(server, event, NOW, &mut con);
    assert!(text(&con.flush_output()).contains("\r\nContent-Type: application/xhtml+xml\r\n"));
    // A HEAD has no body, and HTTP/1.0 closes.
    assert!(matches!(action, Action::Close(Ending::Served)));
}

#[test]
fn test_empty_file_on_http10() {
    let (mut con, server, _) = after_request(b"GET /empty HTTP/1.0\r\n\r\n");
    let (_, action) = serve(server, file(0o100644, MTIME, 0), NOW, &mut con);
    assert!(text(&con.flush_output()).ends_with("\r\nContent-Length: 0\r\n\r\n"));
    assert!(matches!(action, Action::Close(Ending::Served)));
}

#[test]
fn test_file_read_failure() {
    let (mut con, server, _) = after_request(b"GET /a HTTP/1.1\r\nHost: x\r\n\r\n");
    let (server, _) = serve(server, file(0o100644, MTIME, 100), NOW, &mut con);
    con.flush_output();
    let failure = IoError { kind: IoErrorKind::Other, description: b"disk on fire".to_vec() };
    let (server, action) = serve(server, Event::DataFailed(failure), NOW, &mut con);
    assert!(matches!(action, Action::Close(Ending::Served)));
    assert!(matches!(server, Server::Closed));
    assert!(text(&con.flush_output()).starts_with("HTTP/1.1 500 disk on fire\r\n"));
}

#[test]
fn test_unexpected_event_closes() {
    let mut con = Connection::new("10.0.0.1".to_string());
    let (server, _) = Server::start();
    let (server, action) = serve(server, Event::Data(b"x".to_vec()), NOW, &mut con);
    assert!(matches!(action, Action::Close(Ending::Served)));
    let (server, action) = serve(server, Event::Input(b"GET / HTTP/1.0\n".to_vec()), NOW, &mut con);
    assert!(matches!(action, Action::Close(Ending::Served)));
    assert!(matches!(server, Server::Closed));
    assert_eq!(&con.flush_output()[..], b"");
}

#[test]
fn test_admits() {
    let (_, server, _) = after_request(b"GET / HTTP/1.0\r\n\r\n");
    assert!(server.admits(&file(0o100644, MTIME, 5)));
    assert!(server.admits(&directory()));
    assert!(server.admits(&missing()));
    // A file from before 1970 has no HTTP date.
    assert!(!server.admits(&file(0o100644, Timestamp { secs: -1 }, 5)));
    // It is not served anyway if its mode is wrong.
    assert!(server.admits(&file(0o100600, Timestamp { secs: -1 }, 5)));
}

#[test]
fn test_line_too_long_is_a_bad_request() {
    let mut con = Connection::new("10.0.0.1".to_string());
    let (server, _) = Server::start();
    let mut line = b"GET /".to_vec();
    line.extend_from_slice(&vec![b'a'; MAX_LINE_BYTES]);
    let (server, action) = serve(server, Event::Input(line), NOW, &mut con);
    assert!(matches!(action, Action::Close(Ending::Unread)));
    assert!(matches!(server, Server::Closed));
    assert!(text(&con.flush_output()).starts_with("HTTP/1.0 400 bad request\r\n"));

    let (mut con, server, _) = after_request(b"GET / HTTP/1.1\r\n");
    let mut line = b"Host: ".to_vec();
    line.extend_from_slice(&vec![b'a'; MAX_LINE_BYTES]);
    line.extend_from_slice(b"\r\n");
    let (_, action) = serve(server, Event::Input(line), NOW, &mut con);
    assert!(matches!(action, Action::Close(Ending::Unread)));
    assert!(text(&con.flush_output()).starts_with("HTTP/1.0 400 bad request\r\n"));
}

fn request(protocol: Protocol, host: Option<&[u8]>, path: &[u8]) -> Request {
    Request {
        method: Method::Get,
        protocol,
        host: host.map(|h| h.to_vec()),
        path: path.to_vec(),
        if_modified_since: None,
        accept_gzip: false,
    }
}

#[test]
fn test_host_that_names_no_directory_counts_as_absent() {
    for host in [&b":80"[..], b":", b"/", b"//", b"/:80", b"///:x"] {
        // An HTTP/1.1 request must name a host.
        let req = request(Protocol::Http11, Some(host), b"/a");
        assert!(matches!(resolve(&req), Err(HttpError::BadRequest)));
        // An HTTP/1.0 request without one is served for the host 0.
        let req = request(Protocol::Http10, Some(host), b"/a");
        assert_eq!(&resolve(&req).unwrap()[..], b"./0/a");
        let req = request(Protocol::Http10, Some(host), b"/other.host/x");
        assert_eq!(&resolve(&req).unwrap()[..], b"./0/other.host/x");
    }
}

#[test]
fn test_host_that_is_only_a_port() {
    let (mut con, server, action) = after_request(b"GET /a HTTP/1.1\r\nHost: :80\r\n\r\n");
    assert!(matches!(action, Action::Close(Ending::Served)));
    assert!(matches!(server, Server::Closed));
    assert!(text(&con.flush_output()).starts_with("HTTP/1.1 400 bad request\r\n"));

    let (_, _, action) = after_request(b"GET /a HTTP/1.0\r\nHost: :80\r\n\r\n");
    assert_eq!(&opened_path(&action)[..], b"./0/a");

    let (_, _, action) = after_request(b"GET http://:80/a HTTP/1.0\r\n\r\n");
    assert_eq!(&opened_path(&action)[..], b"./0/a");
}

#[test]
fn test_every_path_begins_with_a_host_directory() {
    let hosts: [&[u8]; 9] =
        [b"a", b"A.b:80", b"..", b".", b"/x", b"x/", b"a//b", b"\x00", b"/./"];
    let paths: [&[u8]; 5] = [b"/a", b"//a", b"/../a", b"index.html", b"/%2e%2e/%2f/a"];
    for host in hosts.iter() {
        let root = resolve(&request(Protocol::Http11, Some(host), b"")).unwrap();
        assert!(root.len() >= 4);
        assert!(root.starts_with(b"./"));
        assert_ne!(root[2], b'/');
        assert_eq!(root.last(), Some(&b'/'));
        for path in paths.iter() {
            let resolved = resolve(&request(Protocol::Http11, Some(host), path)).unwrap();
            assert!(resolved.starts_with(&root));
        }
    }
    assert_eq!(&resolve(&request(Protocol::Http11, Some(b"/x"), b"/a")).unwrap()[..], b"./x/a");
    assert_eq!(&resolve(&request(Protocol::Http11, Some(b".."), b"/a")).unwrap()[..], b"./:./a");
}

#[test]
fn test_directory_with_a_host_that_names_none_cannot_redirect() {
    let (mut con, server, action) = after_request(b"GET /dir HTTP/1.0\r\nHost: :80\r\n\r\n");
    assert_eq!(&opened_path(&action)[..], b"./0/dir");
    let (_, action) = serve(server, directory(), NOW, &mut con);
    assert!(text(&con.flush_output()).starts_with("HTTP/1.0 404 not found\r\n"));
    assert!(matches!(action, Action::Close(Ending::Served)));
}
