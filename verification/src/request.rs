//! HTTP request support.

use vstd::prelude::*;
use vstd::slice::slice_subrange;
use vstd::string::*;
use crate::ascii::{has_prefix_ignore_case, AsciiPrefix};
use crate::bytes::{
    after,
    bytes_eq,
    first_index,
    first_index_found,
    first_index_is_first,
    lit,
    opt_view,
    indexof,
    to_vec,
};
use crate::con::{
    after_first_line,
    first_line,
    has_line,
    line_read,
    Connection,
    ConnectionView,
    MAX_LINE_BYTES,
};
use crate::error::{outcome, HttpError, HttpErrorView};

verus! {

/// The request methods that the server answers.
#[derive(Debug, PartialEq, Eq, Copy, Clone, Structural)]
pub enum Method {
    Get,
    Head,
}

/// The protocol versions that the server speaks.
#[derive(Debug, PartialEq, Eq, Copy, Clone, Structural)]
pub enum Protocol {
    Http10,
    Http11,
}

/// A request, as far as the server takes note of it.
#[derive(Debug)]
pub struct Request {
    pub method: Method,
    pub protocol: Protocol,
    /// The host as the client gave it, in the request line or else in a
    /// `Host` header; never empty.
    pub host: Option<Vec<u8>>,
    /// The path as the client gave it, still escaped, with `index.html`
    /// appended where it named a directory; never empty.
    pub path: Vec<u8>,
    /// The value of the last `If-Modified-Since` header.
    pub if_modified_since: Option<Vec<u8>>,
    /// Whether some `Accept-Encoding` header mentioned `gzip`.
    pub accept_gzip: bool,
}

/// The mathematical content of a [`Request`].
#[verifier::ext_equal]
pub struct RequestView {
    pub method: Method,
    pub protocol: Protocol,
    pub host: Option<Seq<u8>>,
    pub path: Seq<u8>,
    pub if_modified_since: Option<Seq<u8>>,
    pub accept_gzip: bool,
}

impl RequestView {
    /// Whether the request is one that a client can have sent: its path is
    /// not empty, and neither is its host, if it has one.
    pub open spec fn wf(self) -> bool {
        &&& self.path.len() > 0
        &&& self.host matches Some(host) ==> host.len() > 0
    }
}

impl View for Request {
    type V = RequestView;

    open spec fn view(&self) -> RequestView {
        RequestView {
            method: self.method,
            protocol: self.protocol,
            host: opt_view(self.host),
            path: self.path@,
            if_modified_since: opt_view(self.if_modified_since),
            accept_gzip: self.accept_gzip,
        }
    }
}

/// Whether `c` is a space or a tab, the white space of HTTP headers.
pub open spec fn is_ws(c: u8) -> bool {
    c == ' ' as u8 || c == '\t' as u8
}

/// The three parts of a request line: what stands in front of the first
/// space, between the first and the second space, and behind the second.
/// `None` unless the line holds exactly two spaces.
pub open spec fn request_line_parts(line: Seq<u8>) -> Option<(Seq<u8>, Seq<u8>, Seq<u8>)> {
    let a = first_index(line, ' ' as u8);
    let rest = after(line, a + 1);
    let b = first_index(rest, ' ' as u8);
    let version = after(rest, b + 1);
    if a < line.len() && b < rest.len() && !version.contains(' ' as u8) {
        Some((line.take(a), rest.take(b), version))
    } else {
        None
    }
}

/// The method that a request line's first part names.
pub open spec fn method_named(name: Seq<u8>) -> Option<Method> {
    if name == lit("GET") {
        Some(Method::Get)
    } else if name == lit("HEAD") {
        Some(Method::Head)
    } else {
        None
    }
}

/// The protocol that a request line's last part names.
pub open spec fn protocol_named(name: Seq<u8>) -> Option<Protocol> {
    if name == lit("HTTP/1.0") {
        Some(Protocol::Http10)
    } else if name == lit("HTTP/1.1") {
        Some(Protocol::Http11)
    } else {
        None
    }
}

/// Whether a request target gives a host: it begins with `http://`, in
/// letters of either case.
pub open spec fn is_absolute(target: Seq<u8>) -> bool {
    has_prefix_ignore_case(target, lit("http://"))
}

/// What follows the scheme in an absolute request target.
pub open spec fn target_authority_and_path(target: Seq<u8>) -> Seq<u8> {
    target.skip(lit("http://").len() as int)
}

/// The host that a request target gives: in an absolute target, what stands
/// between the scheme and the first `/` behind it, unless that is empty.
pub open spec fn target_host(target: Seq<u8>) -> Option<Seq<u8>> {
    if is_absolute(target) {
        let rest = target_authority_and_path(target);
        let n = first_index(rest, '/' as u8);
        if n == 0 {
            None
        } else {
            Some(rest.take(n))
        }
    } else {
        None
    }
}

/// The path that a request target gives: in an absolute target, what
/// begins at the first `/` behind the scheme; else the whole target.
pub open spec fn target_path(target: Seq<u8>) -> Seq<u8> {
    if is_absolute(target) {
        let rest = target_authority_and_path(target);
        rest.skip(first_index(rest, '/' as u8))
    } else {
        target
    }
}

/// A path with `index.html` appended where it is empty or ends in `/`.
pub open spec fn with_index(path: Seq<u8>) -> Seq<u8> {
    if path.len() == 0 || path.last() == '/' as u8 {
        path + lit("index.html")
    } else {
        path
    }
}

/// The request that a request line describes, or the error that it earns.
pub open spec fn request_line(line: Seq<u8>) -> Result<RequestView, HttpErrorView> {
    match request_line_parts(line) {
        None => Err(HttpErrorView::BadRequest),
        Some((method, target, version)) => match method_named(method) {
            None => Err(HttpErrorView::BadMethod),
            Some(method) => match protocol_named(version) {
                None => Err(HttpErrorView::BadProtocol),
                Some(protocol) => Ok(
                    RequestView {
                        method,
                        protocol,
                        host: target_host(target),
                        path: with_index(target_path(target)),
                        if_modified_since: None,
                        accept_gzip: false,
                    },
                ),
            },
        },
    }
}

/// Tells whether `c` is white space in an HTTP header.
pub fn is_http_ws(c: u8) -> (r: bool)
    ensures
        r == is_ws(c),
{
    c == ' ' as u8 || c == '\t' as u8
}

/// Parses the first line of a request.
pub fn parse_request_line(line: Vec<u8>) -> (r: Result<Request, HttpError>)
    ensures
        outcome(r) == request_line(line@),
{
    let line = line.as_slice();
    let a = indexof(line, ' ' as u8);
    if a == line.len() {
        return Err(HttpError::BadRequest);
    }
    let rest = slice_subrange(line, a + 1, line.len());
    let b = indexof(rest, ' ' as u8);
    if b == rest.len() {
        return Err(HttpError::BadRequest);
    }
    let version = slice_subrange(rest, b + 1, rest.len());
    proof {
        first_index_is_first(version@, ' ' as u8);
    }
    if indexof(version, ' ' as u8) != version.len() {
        return Err(HttpError::BadRequest);
    }
    let name = slice_subrange(line, 0, a);
    let raw = slice_subrange(rest, 0, b);
    assert(request_line_parts(line@) == Some((name@, raw@, version@)));

    let method = if bytes_eq(name, "GET".as_bytes()) {
        Method::Get
    } else if bytes_eq(name, "HEAD".as_bytes()) {
        Method::Head
    } else {
        return Err(HttpError::BadMethod);
    };

    // Distinguish an old-style path-only request from a HTTP/1.1-style URL
    // request by checking for the presence of an HTTP scheme.
    let scheme = "http://".as_bytes();
    let (host, mut path) = if raw.starts_with_ignore_ascii_case(scheme) {
        // Split the remainder at the first slash.  The bytes to the left are
        // the host name; to the right, including the delimiter, the path.
        let rest = slice_subrange(raw, scheme.len(), raw.len());
        let n = indexof(rest, '/' as u8);
        proof {
            first_index_is_first(rest@, '/' as u8);
        }
        let path = to_vec(slice_subrange(rest, n, rest.len()));
        if n == 0 {
            // A URL of the form `http:///foo` names an empty host, which is
            // treated as an absent one.
            (None, path)
        } else {
            (Some(to_vec(slice_subrange(rest, 0, n))), path)
        }
    } else {
        (None, to_vec(raw))
    };
    assert(opt_view(host) == target_host(raw@));
    assert(path@ == target_path(raw@));

    let protocol = if bytes_eq(version, "HTTP/1.0".as_bytes()) {
        Protocol::Http10
    } else if bytes_eq(version, "HTTP/1.1".as_bytes()) {
        Protocol::Http11
    } else {
        return Err(HttpError::BadProtocol);
    };

    // Slap an 'index.html' onto the end of any path that, from simple
    // textual inspection, ends in a directory.
    if path.len() == 0 || path[path.len() - 1] == '/' as u8 {
        path.extend_from_slice("index.html".as_bytes());
    }
    let req = Request {
        method,
        protocol,
        host,
        path,
        if_modified_since: None,
        accept_gzip: false,
    };
    assert(req@ =~= request_line(line@)->Ok_0);
    Ok(req)
}

/// `s` without its white space.
pub open spec fn without_ws(s: Seq<u8>) -> Seq<u8> {
    s.filter(|c: u8| !is_ws(c))
}

/// `s` without the white space that it begins with.
pub open spec fn trimmed_start(s: Seq<u8>) -> Seq<u8>
    decreases s.len(),
{
    if s.len() > 0 && is_ws(s[0]) {
        trimmed_start(s.skip(1))
    } else {
        s
    }
}

/// Whether `needle` occurs somewhere in `s`, in letters of either case.
pub open spec fn mentions(s: Seq<u8>, needle: Seq<u8>) -> bool {
    exists|i: int| 0 <= i <= s.len() && has_prefix_ignore_case(#[trigger] s.skip(i), needle)
}

/// Where the value begins in a header that begins with `host`.
pub const HOST_VALUE: usize = 5;

/// Where the value begins in a header that begins with `if-modified-since`.
pub const IF_MODIFIED_SINCE_VALUE: usize = 18;

/// Where the value begins in a header that begins with `accept-encoding:`.
pub const ACCEPT_ENCODING_VALUE: usize = 16;

/// The error that a header earns, if any: the server receives no message
/// bodies, meets no expectations and evaluates no preconditions.
pub open spec fn header_refused(hdr: Seq<u8>) -> Option<HttpErrorView> {
    if has_prefix_ignore_case(hdr, lit("content-length:")) || has_prefix_ignore_case(
        hdr,
        lit("transfer-encoding:"),
    ) {
        Some(HttpErrorView::NotImplemented(lit("I can't receive messages")))
    } else if has_prefix_ignore_case(hdr, lit("expect")) {
        Some(HttpErrorView::SpanishInquisition)
    } else if has_prefix_ignore_case(hdr, lit("if-match")) || has_prefix_ignore_case(
        hdr,
        lit("if-unmodified-since"),
    ) {
        Some(HttpErrorView::PreconditionFailed)
    } else {
        None
    }
}

/// The request as a header that is not refused leaves it.
pub open spec fn header_noted(req: RequestView, hdr: Seq<u8>) -> RequestView {
    if has_prefix_ignore_case(hdr, lit("host")) {
        let host = without_ws(after(hdr, HOST_VALUE as int));
        if req.host is None && host.len() > 0 {
            RequestView { host: Some(host), ..req }
        } else {
            req
        }
    } else if has_prefix_ignore_case(hdr, lit("if-modified-since")) {
        RequestView {
            if_modified_since: Some(trimmed_start(after(hdr, IF_MODIFIED_SINCE_VALUE as int))),
            ..req
        }
    } else if has_prefix_ignore_case(hdr, lit("accept-encoding:")) {
        if mentions(after(hdr, ACCEPT_ENCODING_VALUE as int), lit("gzip")) {
            RequestView { accept_gzip: true, ..req }
        } else {
            req
        }
    } else {
        req
    }
}

/// The request after one complete header, or the error that the header
/// earns.
pub open spec fn header_applied(req: RequestView, hdr: Seq<u8>) -> Result<
    RequestView,
    HttpErrorView,
> {
    match header_refused(hdr) {
        Some(e) => Err(e),
        None => Ok(header_noted(req, hdr)),
    }
}

fn tail(s: &[u8], n: usize) -> (r: &[u8])
    ensures
        r@ == after(s@, n as int),
{
    if n <= s.len() {
        slice_subrange(s, n, s.len())
    } else {
        slice_subrange(s, 0, 0)
    }
}

fn strip_ws(s: &[u8]) -> (r: Vec<u8>)
    ensures
        r@ == without_ws(s@),
{
    let mut r: Vec<u8> = Vec::new();
    let mut i: usize = 0;
    proof {
        reveal(Seq::filter);
    }
    assert(s@.take(0) == Seq::<u8>::empty());
    while i < s.len()
        invariant
            i <= s.len(),
            r@ == without_ws(s@.take(i as int)),
        decreases s.len() - i,
    {
        proof {
            reveal(Seq::filter);
        }
        assert(s@.take(i + 1).drop_last() == s@.take(i as int));
        if !is_http_ws(s[i]) {
            r.push(s[i]);
        }
        i += 1;
    }
    assert(s@.take(i as int) == s@);
    r
}

fn trim_start(s: &[u8]) -> (r: &[u8])
    ensures
        r@ == trimmed_start(s@),
{
    let mut i: usize = 0;
    assert(s@.skip(0) == s@);
    while i < s.len() && is_http_ws(s[i])
        invariant
            i <= s.len(),
            trimmed_start(s@) == trimmed_start(s@.skip(i as int)),
        decreases s.len() - i,
    {
        assert(s@.skip(i as int).skip(1) == s@.skip(i + 1));
        i += 1;
    }
    slice_subrange(s, i, s.len())
}

fn contains_ignore_case(s: &[u8], needle: &[u8]) -> (r: bool)
    ensures
        r == mentions(s@, needle@),
{
    let mut i: usize = 0;
    while i < s.len()
        invariant
            i <= s.len(),
            forall|j: int| 0 <= j < i ==> !has_prefix_ignore_case(#[trigger] s@.skip(j), needle@),
        decreases s.len() - i,
    {
        let window = slice_subrange(s, i, s.len());
        if window.starts_with_ignore_ascii_case(needle) {
            return true;
        }
        i += 1;
    }
    let window = slice_subrange(s, i, s.len());
    window.starts_with_ignore_ascii_case(needle)
}

/// Takes note of one complete header: refuses what the server does not
/// implement, and records the host, the date of the client's copy and the
/// acceptance of gzip.  Any other header is ignored.
pub fn apply_header(req: Request, hdr: &[u8]) -> (r: Result<Request, HttpError>)
    ensures
        outcome(r) == header_applied(req@, hdr@),
{
    let ghost before = req@;
    let mut req = req;
    if hdr.starts_with_ignore_ascii_case("content-length:".as_bytes())
        || hdr.starts_with_ignore_ascii_case("transfer-encoding:".as_bytes()) {
        return Err(HttpError::NotImplemented("I can't receive messages".as_bytes()));
    }
    if hdr.starts_with_ignore_ascii_case("expect".as_bytes()) {
        return Err(HttpError::SpanishInquisition);
    }
    if hdr.starts_with_ignore_ascii_case("if-match".as_bytes())
        || hdr.starts_with_ignore_ascii_case("if-unmodified-since".as_bytes()) {
        return Err(HttpError::PreconditionFailed);
    }
    if hdr.starts_with_ignore_ascii_case("host".as_bytes()) {
        // Only accept a host from the request headers if none was provided
        // in the start line.
        if req.host.is_none() {
            // Just drop whitespace characters from the host header.
            let new_host = strip_ws(tail(hdr, HOST_VALUE));
            if new_host.len() > 0 {
                req.host = Some(new_host);
            }
        }
    } else if hdr.starts_with_ignore_ascii_case("if-modified-since".as_bytes()) {
        req.if_modified_since = Some(to_vec(trim_start(tail(hdr, IF_MODIFIED_SINCE_VALUE))));
    } else if hdr.starts_with_ignore_ascii_case("accept-encoding:".as_bytes()) {
        // Any mention of gzip counts, whatever stands around it.
        if contains_ignore_case(tail(hdr, ACCEPT_ENCODING_VALUE), "gzip".as_bytes()) {
            req.accept_gzip = true;
        }
    }
    assert(req@ =~= header_noted(before, hdr@));
    Ok(req)
}

/// How far the reading of a request has come.
#[derive(Debug)]
pub enum Reader {
    /// No request line has arrived yet.
    RequestLine,
    /// The request line is accepted; `hdr` gathers the lines of the header
    /// that is arriving.
    Headers { req: Request, hdr: Vec<u8> },
}

/// The mathematical content of a [`Reader`].
#[verifier::ext_equal]
pub enum ReaderView {
    RequestLine,
    Headers { req: RequestView, hdr: Seq<u8> },
}

impl View for Reader {
    type V = ReaderView;

    open spec fn view(&self) -> ReaderView {
        match *self {
            Reader::RequestLine => ReaderView::RequestLine,
            Reader::Headers { req, hdr } => ReaderView::Headers { req: req@, hdr: hdr@ },
        }
    }
}

/// What one line does to the reading of a request.
#[derive(Debug)]
pub enum Progress {
    /// The request goes on with the next line.
    More(Reader),
    /// The line ended the request.
    Done(Request),
}

/// The mathematical content of a [`Progress`].
#[verifier::ext_equal]
pub enum ProgressView {
    More(ReaderView),
    Done(RequestView),
}

impl View for Progress {
    type V = ProgressView;

    open spec fn view(&self) -> ProgressView {
        match *self {
            Progress::More(reader) => ProgressView::More(reader@),
            Progress::Done(req) => ProgressView::Done(req@),
        }
    }
}

/// Whether `line` shows that the header gathered in `hdr` is complete: some
/// header is gathered, and the line is empty or does not continue it.
pub open spec fn completes_header(hdr: Seq<u8>, line: Seq<u8>) -> bool {
    hdr.len() > 0 && (line.len() == 0 || !is_ws(line[0]))
}

/// What one line, taken without its delimiter, does to the reading of a
/// request.
///
/// Blank lines in front of the request line are skipped.  Behind it, a line
/// that begins with white space continues the header in front of it; any
/// other line completes that header, which is then applied; and an empty
/// line ends the request.
pub open spec fn fed(state: ReaderView, line: Seq<u8>) -> Result<ProgressView, HttpErrorView> {
    match state {
        ReaderView::RequestLine => if line.len() == 0 {
            Ok(ProgressView::More(ReaderView::RequestLine))
        } else {
            match request_line(line) {
                Ok(req) => Ok(ProgressView::More(ReaderView::Headers { req, hdr: Seq::empty() })),
                Err(e) => Err(e),
            }
        },
        ReaderView::Headers { req, hdr } => {
            let applied = if completes_header(hdr, line) {
                header_applied(req, hdr)
            } else {
                Ok(req)
            };
            let kept = if completes_header(hdr, line) {
                Seq::empty()
            } else {
                hdr
            };
            match applied {
                Err(e) => Err(e),
                Ok(req) => if line.len() == 0 {
                    Ok(ProgressView::Done(req))
                } else {
                    Ok(ProgressView::More(ReaderView::Headers { req, hdr: kept + line }))
                },
            }
        },
    }
}

/// What reading a request off `input` gives, and what it leaves of the
/// input.  Where the input ends before the request does, the result is
/// `ConnectionClosed` and nothing is left.
pub open spec fn read_from(state: ReaderView, input: Seq<u8>) -> (
    Result<RequestView, HttpErrorView>,
    Seq<u8>,
)
    decreases input.len(),
    via read_from_decreases
{
    match line_read(input) {
        Err(e) => (Err(e), after_first_line(input)),
        Ok(line) => match fed(state, line) {
            Err(e) => (Err(e), after_first_line(input)),
            Ok(ProgressView::Done(req)) => (Ok(req), after_first_line(input)),
            Ok(ProgressView::More(next)) => read_from(next, after_first_line(input)),
        },
    }
}

#[via_fn]
proof fn read_from_decreases(state: ReaderView, input: Seq<u8>) {
    first_index_is_first(input, '\n' as u8);
}

impl Reader {
    /// A reader that has seen nothing of the request yet.
    pub fn new() -> (r: Reader)
        ensures
            r@ == ReaderView::RequestLine,
    {
        Reader::RequestLine
    }

    /// Takes in the next line of the request, without its delimiter.
    pub fn feed(self, line: Vec<u8>) -> (r: Result<Progress, HttpError>)
        ensures
            outcome(r) == fed(self@, line@),
    {
        match self {
            Reader::RequestLine => {
                // Tolerate and skip blank lines between requests.
                if line.len() == 0 {
                    return Ok(Progress::More(Reader::RequestLine));
                }
                match parse_request_line(line) {
                    Ok(req) => Ok(Progress::More(Reader::Headers { req, hdr: Vec::new() })),
                    Err(e) => Err(e),
                }
            },
            Reader::Headers { req, hdr } => {
                let mut req = req;
                let mut hdr = hdr;
                // At an empty line or a line beginning with non-whitespace,
                // the previous header has arrived in its entirety.
                if hdr.len() > 0 && (line.len() == 0 || !is_http_ws(line[0])) {
                    req = match apply_header(req, hdr.as_slice()) {
                        Ok(req) => req,
                        Err(e) => {
                            return Err(e);
                        },
                    };
                    hdr.clear();
                }
                if line.len() == 0 {
                    return Ok(Progress::Done(req));
                }
                hdr.extend_from_slice(line.as_slice());
                let next = Reader::Headers { req, hdr };
                assert(next@ =~= fed(self@, line@)->Ok_0->More_0);
                Ok(Progress::More(next))
            },
        }
    }
}

/// Accepts a request from what the connection holds of the client's input,
/// and returns its contents or an error.  The lines that were read are
/// consumed.
pub fn read(c: &mut Connection) -> (r: Result<Request, HttpError>)
    ensures
        outcome(r) == read_from(ReaderView::RequestLine, old(c)@.input).0,
        final(c)@ == (ConnectionView {
            input: read_from(ReaderView::RequestLine, old(c)@.input).1,
            ..old(c)@
        }),
{
    let mut state = Reader::new();
    loop
        invariant
            read_from(state@, c@.input) == read_from(ReaderView::RequestLine, old(c)@.input),
            c@ == (ConnectionView { input: c@.input, ..old(c)@ }),
        decreases c@.input.len(),
    {
        proof {
            first_index_is_first(c@.input, '\n' as u8);
        }
        let line = match c.readline() {
            Ok(line) => line,
            Err(e) => {
                return Err(e);
            },
        };
        state = match state.feed(line) {
            Ok(Progress::More(next)) => next,
            Ok(Progress::Done(req)) => {
                return Ok(req);
            },
            Err(e) => {
                return Err(e);
            },
        };
    }
}

/// A carriage return and a line feed, the delimiter that HTTP prescribes.
pub open spec fn crlf() -> Seq<u8> {
    seq!['\r' as u8, '\n' as u8]
}

/// A bare line feed, the delimiter that is tolerated.
pub open spec fn lf() -> Seq<u8> {
    seq!['\n' as u8]
}

/// The lines, each followed by the delimiter `eol`.
pub open spec fn joined(lines: Seq<Seq<u8>>, eol: Seq<u8>) -> Seq<u8>
    decreases lines.len(),
{
    if lines.len() == 0 {
        Seq::empty()
    } else {
        lines[0] + eol + joined(lines.skip(1), eol)
    }
}

/// What reading a request from lines that are already taken apart gives.
pub open spec fn read_lines(state: ReaderView, lines: Seq<Seq<u8>>) -> Result<
    RequestView,
    HttpErrorView,
>
    decreases lines.len(),
{
    if lines.len() == 0 {
        Err(HttpErrorView::ConnectionClosed)
    } else if lines[0].len() > MAX_LINE_BYTES {
        Err(HttpErrorView::BadRequest)
    } else {
        match fed(state, lines[0]) {
            Err(e) => Err(e),
            Ok(ProgressView::Done(req)) => Ok(req),
            Ok(ProgressView::More(next)) => read_lines(next, lines.skip(1)),
        }
    }
}

/// How far lines that are already taken apart bring the reading of a
/// request: to its end, to an error, or only further.  Lines behind the end
/// or the error do not count.
pub open spec fn fed_lines(state: ReaderView, lines: Seq<Seq<u8>>) -> Result<
    ProgressView,
    HttpErrorView,
>
    decreases lines.len(),
{
    if lines.len() == 0 {
        Ok(ProgressView::More(state))
    } else if lines[0].len() > MAX_LINE_BYTES {
        Err(HttpErrorView::BadRequest)
    } else {
        match fed(state, lines[0]) {
            Ok(ProgressView::More(next)) => fed_lines(next, lines.skip(1)),
            ended => ended,
        }
    }
}

/// Whether `line` can be told from its delimiter: it holds no line feed and
/// does not end in a carriage return.
pub open spec fn is_delimitable(line: Seq<u8>) -> bool {
    !line.contains('\n' as u8) && (line.len() > 0 ==> line.last() != '\r' as u8)
}

/// A line comes back as it was sent, whether a carriage return and a line
/// feed or a bare line feed ends it, and what follows is left in the input.
/// So `readline` returns the line and consumes it with its delimiter, as
/// long as the line is no longer than a line may be.
pub proof fn line_comes_back(line: Seq<u8>, rest: Seq<u8>)
    requires
        is_delimitable(line),
    ensures
        has_line(line + crlf() + rest),
        first_line(line + crlf() + rest) == line,
        after_first_line(line + crlf() + rest) == rest,
        has_line(line + lf() + rest),
        first_line(line + lf() + rest) == line,
        after_first_line(line + lf() + rest) == rest,
        line_read(line + crlf() + rest) == line_read(line + lf() + rest),
        line.len() <= MAX_LINE_BYTES ==> line_read(line + lf() + rest) == Ok::<
            Seq<u8>,
            HttpErrorView,
        >(line),
        line.len() > MAX_LINE_BYTES ==> line_read(line + lf() + rest) == Err::<
            Seq<u8>,
            HttpErrorView,
        >(HttpErrorView::BadRequest),
{
    let a = line + crlf() + rest;
    let b = line + lf() + rest;
    let n = line.len() as int;
    assert(a[n + 1] == '\n' as u8);
    assert(b[n] == '\n' as u8);
    assert forall|i: int| 0 <= i < n + 1 implies a[i] != '\n' as u8 by {
        if i < n {
            assert(a[i] == line[i]);
        }
    }
    assert forall|i: int| 0 <= i < n implies b[i] != '\n' as u8 by {
        assert(b[i] == line[i]);
    }
    first_index_found(a, '\n' as u8, n + 1);
    first_index_found(b, '\n' as u8, n);
    assert(a.take(n + 1).drop_last() == line);
    assert(a.take(n + 1).last() == '\r' as u8);
    assert(b.take(n) == line);
    assert(a.skip(n + 2) == rest);
    assert(b.skip(n + 1) == rest);
}

/// The kind of delimiter does not matter to what is read: a request whose
/// lines end in a carriage return and a line feed, and the same request
/// with lines that end in a bare line feed, give the same result.
pub proof fn crlf_and_lf_read_alike(state: ReaderView, lines: Seq<Seq<u8>>)
    requires
        forall|i: int| 0 <= i < lines.len() ==> is_delimitable(#[trigger] lines[i]),
    ensures
        read_from(state, joined(lines, crlf())).0 == read_lines(state, lines),
        read_from(state, joined(lines, lf())).0 == read_lines(state, lines),
    decreases lines.len(),
{
    if lines.len() == 0 {
        assert(!has_line(Seq::<u8>::empty()));
    } else {
        let tail = lines.skip(1);
        assert(is_delimitable(lines[0]));
        assert forall|i: int| 0 <= i < tail.len() implies is_delimitable(#[trigger] tail[i]) by {
            assert(tail[i] == lines[i + 1]);
        }
        line_comes_back(lines[0], joined(tail, crlf()));
        line_comes_back(lines[0], joined(tail, lf()));
        if lines[0].len() <= MAX_LINE_BYTES {
            match fed(state, lines[0]) {
                Ok(ProgressView::More(next)) => {
                    crlf_and_lf_read_alike(next, tail);
                },
                _ => {},
            }
        }
    }
}

impl ReaderView {
    /// Whether the request that is being read is well formed, as far as it
    /// is read.
    pub open spec fn wf(self) -> bool {
        self matches ReaderView::Headers { req, .. } ==> req.wf()
    }
}

/// A request line that is accepted gives a well-formed request, which knows
/// nothing yet of what the headers will say.
pub proof fn request_line_is_wf(line: Seq<u8>)
    ensures
        request_line(line) matches Ok(req) ==> {
            &&& req.wf()
            &&& req.if_modified_since is None
            &&& !req.accept_gzip
        },
{
    if let Ok(req) = request_line(line) {
        let target = request_line_parts(line).unwrap().1;
        reveal_strlit("index.html");
        assert(is_ascii("index.html"));
        is_ascii_spec_bytes("index.html");
        if is_absolute(target) {
            first_index_is_first(target_authority_and_path(target), '/' as u8);
        }
    }
}

/// A header changes neither the method, the protocol nor the path of a
/// request, and leaves a well-formed request well formed.
pub proof fn header_keeps_wf(req: RequestView, hdr: Seq<u8>)
    requires
        req.wf(),
    ensures
        header_applied(req, hdr) matches Ok(noted) ==> {
            &&& noted.wf()
            &&& noted.method == req.method
            &&& noted.protocol == req.protocol
            &&& noted.path == req.path
        },
{
}

/// Every request that is read is well formed.
pub proof fn read_request_is_wf(state: ReaderView, input: Seq<u8>)
    requires
        state.wf(),
    ensures
        read_from(state, input).0 matches Ok(req) ==> req.wf(),
    decreases input.len(),
{
    if let Ok(line) = line_read(input) {
        first_index_is_first(input, '\n' as u8);
        match state {
            ReaderView::RequestLine => {
                request_line_is_wf(line);
            },
            ReaderView::Headers { req, hdr } => {
                header_keeps_wf(req, hdr);
            },
        }
        if let Ok(ProgressView::More(next)) = fed(state, line) {
            read_request_is_wf(next, after_first_line(input));
        }
    }
}

/// A request line is a method, a space, a target, a space and a version,
/// none of which holds a space: such a line is taken apart into just these
/// three.
pub proof fn request_line_parts_of_joined(method: Seq<u8>, target: Seq<u8>, version: Seq<u8>)
    requires
        !method.contains(' ' as u8),
        !target.contains(' ' as u8),
        !version.contains(' ' as u8),
    ensures
        request_line_parts(method + seq![' ' as u8] + target + seq![' ' as u8] + version) == Some(
            (method, target, version),
        ),
{
    let sp = ' ' as u8;
    let line = method + seq![sp] + target + seq![sp] + version;
    let a = method.len() as int;
    assert(line[a] == sp);
    assert forall|i: int| 0 <= i < a implies line[i] != sp by {
        assert(line[i] == method[i]);
    }
    first_index_found(line, sp, a);
    let rest = after(line, a + 1);
    assert(rest == target + seq![sp] + version);
    let b = target.len() as int;
    assert(rest[b] == sp);
    assert forall|i: int| 0 <= i < b implies rest[i] != sp by {
        assert(rest[i] == target[i]);
    }
    first_index_found(rest, sp, b);
    assert(after(rest, b + 1) == version);
    assert(line.take(a) == method);
    assert(rest.take(b) == target);
}

/// The three parts of a request line hold no space, and the line is the
/// three of them with a space between each two.
pub proof fn request_line_parts_join(line: Seq<u8>)
    ensures
        request_line_parts(line) matches Some((method, target, version)) ==> {
            &&& line == method + seq![' ' as u8] + target + seq![' ' as u8] + version
            &&& !method.contains(' ' as u8)
            &&& !target.contains(' ' as u8)
            &&& !version.contains(' ' as u8)
        },
{
    if let Some((method, target, version)) = request_line_parts(line) {
        let sp = ' ' as u8;
        let a = first_index(line, sp);
        let rest = after(line, a + 1);
        let b = first_index(rest, sp);
        first_index_is_first(line, sp);
        first_index_is_first(rest, sp);
        assert(!method.contains(sp)) by {
            assert forall|i: int| 0 <= i < method.len() implies method[i] != sp by {
                assert(method[i] == line[i]);
            }
        }
        assert(!target.contains(sp)) by {
            assert forall|i: int| 0 <= i < target.len() implies target[i] != sp by {
                assert(target[i] == rest[i]);
            }
        }
        assert(rest == target + seq![sp] + version);
        assert(line == method + seq![sp] + rest);
        assert(line == method + seq![sp] + target + seq![sp] + version);
    }
}

/// Reading a request from lines gives the request that the lines bring the
/// reading to, or the error; where the lines end before the request does,
/// the connection counts as closed.
pub proof fn read_lines_is_fed_lines(state: ReaderView, lines: Seq<Seq<u8>>)
    ensures
        read_lines(state, lines) == match fed_lines(state, lines) {
            Ok(ProgressView::Done(req)) => Ok::<RequestView, HttpErrorView>(req),
            Ok(ProgressView::More(_)) => Err::<RequestView, HttpErrorView>(
                HttpErrorView::ConnectionClosed,
            ),
            Err(e) => Err::<RequestView, HttpErrorView>(e),
        },
    decreases lines.len(),
{
    if lines.len() > 0 && lines[0].len() <= MAX_LINE_BYTES {
        if let Ok(ProgressView::More(next)) = fed(state, lines[0]) {
            read_lines_is_fed_lines(next, lines.skip(1));
        }
    }
}

} // verus!
