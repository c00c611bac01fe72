//! The core HTTP server, which ties the other modules together.
//!
//! The server is a state machine.  It is told what happened, and answers
//! with what is to be done next; whatever it has to say to the client or to
//! the log meanwhile, it leaves in the connection's buffers.

use vstd::prelude::*;
use vstd::string::*;
use crate::ascii::{lower, lowered, to_lower};
use crate::bytes::{
    concat_assoc,
    concat_empty,
    first_index,
    first_index_found,
    first_index_is_first,
    lit,
    opt_slice_view,
    opt_view,
    to_vec,
};
use crate::con::{
    after_first_line,
    line_read,
    log_line,
    log_note,
    Connection,
    ConnectionView,
    MAX_LINE_BYTES,
};
use crate::date::Timestamp;
use crate::error::{outcome, HttpError, HttpErrorView, IoError, IoErrorView};
use crate::file::{
    checked,
    opened_view,
    readable_by_all,
    safe_open,
    FileOrDir,
    Metadata,
    MetadataView,
    OpenFile,
};
use crate::filetype::{from_path, mime_type};
use crate::path::{
    is_clean,
    sanitize,
    sanitized,
    sanitized_is_clean,
    sanitized_last,
    sanitized_prefix,
};
use crate::percent::{unescape, unescaped, well_formed};
use crate::request::{
    crlf,
    fed,
    fed_lines,
    is_delimitable,
    lf,
    line_comes_back,
    Method,
    Progress,
    ProgressView,
    Protocol,
    Reader,
    ReaderView,
    Request,
    RequestView,
};
use crate::response::{
    all_filled,
    barf,
    barfed,
    body_is_framed,
    complete_body_stays_silent,
    error_response,
    file_response_head,
    file_response_note,
    file_transfer,
    framing_header,
    redirect,
    redirect_response,
    response_start,
    send,
    sends_content,
    streamed,
    ContentEncoding,
    Transfer,
};
use crate::timeout::wait_outcome;

verus! {

/// The two files that a request can be served from.
#[derive(Clone, Copy, Debug, PartialEq, Eq, Structural)]
pub enum Source {
    /// The file that the request names.
    Primary,
    /// Its compressed alternate, the file of the same name with `.gz`
    /// appended.
    Alternate,
}

/// How much depends on sending what the server wrote last.
#[derive(Clone, Copy, Debug, PartialEq, Eq, Structural)]
pub enum Ending {
    /// A request was under way, or was answered: the connection has come to
    /// its ordinary end, whether or not the last bytes can still be sent.
    Served,
    /// No request could be read.  If the client cannot even be told so, the
    /// connection as a whole has failed.
    Unread,
}

/// What the server asks its caller to do next.
#[derive(Debug)]
pub enum Action {
    /// Read from the client up to and including the next line feed, or up
    /// to the end of the input, and report `Input`; or report `InputFailed`.
    /// No more than `MAX_LINE_BYTES + 2` bytes need to be read in search of
    /// the line feed.
    ReadLine,
    /// Open the file at `path` for reading, on behalf of `source`, ask the
    /// system about it, and report `Opened`.
    Open { source: Source, path: Vec<u8> },
    /// Read the next bytes of the file that was opened for this source, and
    /// report `Data`, empty at the end of the file; or report `DataFailed`.
    ReadFile(Source),
    /// Send what is written, and end the connection.
    Close(Ending),
}

/// The mathematical content of an [`Action`].
#[verifier::ext_equal]
pub enum ActionView {
    ReadLine,
    Open { source: Source, path: Seq<u8> },
    ReadFile(Source),
    Close(Ending),
}

impl View for Action {
    type V = ActionView;

    open spec fn view(&self) -> ActionView {
        match *self {
            Action::ReadLine => ActionView::ReadLine,
            Action::Open { source, path } => ActionView::Open { source, path: path@ },
            Action::ReadFile(source) => ActionView::ReadFile(source),
            Action::Close(ending) => ActionView::Close(ending),
        }
    }
}

/// What the caller reports of the action that it was asked for.
#[derive(Debug)]
pub enum Event {
    /// These bytes arrived from the client.
    Input(Vec<u8>),
    /// Reading from the client failed.
    InputFailed(IoError),
    /// The attempt to open a file ended like this.  Where the environment
    /// overrides the MIME type of the path, `type_override` is that type.
    Opened { result: Result<Metadata, IoError>, type_override: Option<Vec<u8>> },
    /// These bytes are next in the file; none, if the file has ended.
    Data(Vec<u8>),
    /// Reading from the file failed.
    DataFailed(IoError),
}

/// The mathematical content of an [`Event`].
#[verifier::ext_equal]
pub enum EventView {
    Input(Seq<u8>),
    InputFailed(IoErrorView),
    Opened { result: Result<MetadataView, IoErrorView>, type_override: Option<Seq<u8>> },
    Data(Seq<u8>),
    DataFailed(IoErrorView),
}

impl View for Event {
    type V = EventView;

    open spec fn view(&self) -> EventView {
        match *self {
            Event::Input(raw) => EventView::Input(raw@),
            Event::InputFailed(e) => EventView::InputFailed(e@),
            Event::Opened { result, type_override } => EventView::Opened {
                result: opened_view(result),
                type_override: opt_view(type_override),
            },
            Event::Data(chunk) => EventView::Data(chunk@),
            Event::DataFailed(e) => EventView::DataFailed(e@),
        }
    }
}

/// The state of the server between two events.
#[derive(Debug)]
pub enum Server {
    /// A request is being read.
    Reading(Reader),
    /// A request is read, and the file that it names is being opened.
    /// `started` is the time at which the request was complete.
    Opening { req: Request, file_path: Vec<u8>, started: Timestamp },
    /// The file is found, and its compressed alternate at `file_path` is
    /// being opened.
    OpeningAlternate {
        req: Request,
        file_path: Vec<u8>,
        content_type: Vec<u8>,
        primary: OpenFile,
        started: Timestamp,
    },
    /// The head of the response is written, and the body is on its way.
    Sending { protocol: Protocol, method: Method, transfer: Transfer, source: Source },
    /// The connection has ended.
    Closed,
}

/// The mathematical content of a [`Server`].
#[verifier::ext_equal]
pub enum ServerView {
    Reading(ReaderView),
    Opening { req: RequestView, file_path: Seq<u8>, started: Timestamp },
    OpeningAlternate {
        req: RequestView,
        file_path: Seq<u8>,
        content_type: Seq<u8>,
        primary: OpenFile,
        started: Timestamp,
    },
    Sending { protocol: Protocol, method: Method, transfer: Transfer, source: Source },
    Closed,
}

impl View for Server {
    type V = ServerView;

    open spec fn view(&self) -> ServerView {
        match *self {
            Server::Reading(reader) => ServerView::Reading(reader@),
            Server::Opening { req, file_path, started } => ServerView::Opening {
                req: req@,
                file_path: file_path@,
                started,
            },
            Server::OpeningAlternate {
                req,
                file_path,
                content_type,
                primary,
                started,
            } => ServerView::OpeningAlternate {
                req: req@,
                file_path: file_path@,
                content_type: content_type@,
                primary,
                started,
            },
            Server::Sending { protocol, method, transfer, source } => ServerView::Sending {
                protocol,
                method,
                transfer,
                source,
            },
            Server::Closed => ServerView::Closed,
        }
    }
}

impl ServerView {
    /// Whether every time that the state holds for a header has an HTTP
    /// date.
    pub open spec fn wf(self) -> bool {
        match self {
            ServerView::Opening { started, .. } => started.has_date(),
            ServerView::OpeningAlternate { primary, started, .. } => started.has_date()
                && primary.mtime.has_date(),
            _ => true,
        }
    }

    /// Whether the server can answer `event`: where the event brings the
    /// file that the response will be about, the file's modification time
    /// has an HTTP date.
    pub open spec fn admits(self, event: EventView) -> bool {
        match (self, event) {
            (ServerView::Opening { .. }, EventView::Opened { result, .. }) => checked(
                result,
            ) matches Ok(FileOrDir::File(f)) ==> f.mtime.has_date(),
            _ => true,
        }
    }
}

/// One turn of the server: the state that it is in afterwards, what it asks
/// for, and what has become of the connection.
#[verifier::ext_equal]
pub struct Turn {
    pub server: ServerView,
    pub action: ActionView,
    pub con: ConnectionView,
}

/// A host as it names a directory: without its port, in lower case.
pub open spec fn normalized_host(host: Seq<u8>) -> Seq<u8> {
    lowered(host.take(first_index(host, ':' as u8)))
}

/// Whether a normalized host names a directory: it holds a byte other than
/// `/`.  An empty host names none, and neither does one that is all
/// slashes, which would vanish from the path.
pub open spec fn names_directory(host: Seq<u8>) -> bool {
    exists|i: int| 0 <= i < host.len() && #[trigger] host[i] != '/' as u8
}

/// The host that a request names, as the client gave it.  A host that names
/// no directory, such as a bare port, counts as absent.
pub open spec fn named_host(req: RequestView) -> Option<Seq<u8>> {
    match req.host {
        Some(host) => if names_directory(normalized_host(host)) {
            Some(host)
        } else {
            None
        },
        None => None,
    }
}

/// The host that a request is served for, in its normal form: the one that
/// the request names, or `0` for an HTTP/1.0 request that names none.  An
/// HTTP/1.1 request must name one.
pub open spec fn effective_host(req: RequestView) -> Option<Seq<u8>> {
    match named_host(req) {
        Some(host) => Some(normalized_host(host)),
        None => match req.protocol {
            Protocol::Http10 => Some(lit("0")),
            Protocol::Http11 => None,
        },
    }
}

/// The directory of a host, as the start of a path: `./`, what sanitizing
/// makes of the host, and `/`.
pub open spec fn host_root(host: Seq<u8>) -> Seq<u8> {
    sanitized(lit("./") + host + lit("/"))
}

/// The path of the file that a request names, below the directory of its
/// host; `BadRequest` where the request lacks a host that it must have, or
/// its path is badly escaped.
pub open spec fn file_path(req: RequestView) -> Result<Seq<u8>, HttpErrorView> {
    match effective_host(req) {
        None => Err(HttpErrorView::BadRequest),
        Some(host) => if well_formed(req.path) {
            Ok(sanitized(lit("./") + host + lit("/") + unescaped(req.path)))
        } else {
            Err(HttpErrorView::BadRequest)
        },
    }
}

/// Where a request for a directory is sent: the URL that it asked for, with
/// a slash behind it.
pub open spec fn redirect_location(host: Seq<u8>, path: Seq<u8>) -> Seq<u8> {
    lit("http://") + host + path + lit("/")
}

/// The turn that brings the connection to its ordinary end.
pub open spec fn closing(con: ConnectionView) -> Turn {
    Turn { server: ServerView::Closed, action: ActionView::Close(Ending::Served), con }
}

/// The turn that goes on to the next request.
pub open spec fn reading(con: ConnectionView) -> Turn {
    Turn {
        server: ServerView::Reading(ReaderView::RequestLine),
        action: ActionView::ReadLine,
        con,
    }
}

/// The turn that reports an error to the client, as far as the error can be
/// reported, and ends the connection.  `protocol` is the protocol of the
/// request that was under way; there is none where no request could be read.
pub open spec fn refused(
    con: ConnectionView,
    protocol: Option<Protocol>,
    send_content: bool,
    error: HttpErrorView,
    now: Timestamp,
) -> Turn {
    Turn {
        server: ServerView::Closed,
        action: ActionView::Close(
            match protocol {
                Some(_) => Ending::Served,
                None => Ending::Unread,
            },
        ),
        con: con.wrote(barfed(protocol, now.date(), error, send_content)),
    }
}

/// The turn that starts on a request that was read: it asks for the file
/// that the request names.
pub open spec fn request_begun(req: RequestView, con: ConnectionView, now: Timestamp) -> Turn {
    match file_path(req) {
        Err(e) => refused(con, Some(req.protocol), req.method == Method::Get, e, now),
        Ok(path) => Turn {
            server: ServerView::Opening { req, file_path: path, started: now },
            action: ActionView::Open { source: Source::Primary, path },
            con,
        },
    }
}

/// The turn that takes the next line off the input.
pub open spec fn line_taken(reader: ReaderView, con: ConnectionView, now: Timestamp) -> Turn {
    let rest = ConnectionView { input: after_first_line(con.input), ..con };
    match line_read(con.input) {
        Err(e) => refused(rest, None, true, e, now),
        Ok(line) => match fed(reader, line) {
            Err(e) => refused(rest, None, true, e, now),
            Ok(ProgressView::More(next)) => Turn {
                server: ServerView::Reading(next),
                action: ActionView::ReadLine,
                con: rest,
            },
            Ok(ProgressView::Done(req)) => request_begun(req, rest, now),
        },
    }
}

/// What the log says of an attempt to open a file.
pub open spec fn open_note(
    remote: Seq<u8>,
    path: Seq<u8>,
    context: Option<Seq<u8>>,
    opened: Result<FileOrDir, HttpErrorView>,
) -> Seq<u8> {
    match opened {
        Ok(FileOrDir::File(_)) => log_line(remote, path, context, lit("success")),
        Ok(FileOrDir::Dir) => log_line(remote, path, context, lit("directory redirect")),
        Err(e) => match e.log_message() {
            Some(message) => log_line(remote, path, context, message),
            None => Seq::empty(),
        },
    }
}

/// How the server goes on behind the head of a response: it asks for the
/// file's bytes while the body wants them, and then does what the framing
/// has it do, which is to read on or to close.
pub open spec fn transfer_next(
    protocol: Protocol,
    method: Method,
    transfer: Transfer,
    source: Source,
) -> (ServerView, ActionView) {
    if transfer.wants_data() {
        (
            ServerView::Sending { protocol, method, transfer, source },
            ActionView::ReadFile(source),
        )
    } else {
        match transfer.outcome() {
            Ok(_) => (ServerView::Reading(ReaderView::RequestLine), ActionView::ReadLine),
            Err(_) => (ServerView::Closed, ActionView::Close(Ending::Served)),
        }
    }
}

/// The turn that follows the head of a response.
pub open spec fn transferring(
    protocol: Protocol,
    method: Method,
    transfer: Transfer,
    source: Source,
    con: ConnectionView,
) -> Turn {
    let next = transfer_next(protocol, method, transfer, source);
    Turn { server: next.0, action: next.1, con }
}

/// The turn that writes the head of the response that serves a file.
pub open spec fn responded(
    req: RequestView,
    content_type: Seq<u8>,
    resource: OpenFile,
    encoding: Option<ContentEncoding>,
    source: Source,
    started: Timestamp,
    con: ConnectionView,
) -> Turn {
    let last_modified = resource.mtime.date();
    transferring(
        req.protocol,
        req.method,
        file_transfer(
            req.protocol,
            sends_content(req.method, req.if_modified_since, last_modified),
            resource.length,
        ),
        source,
        ConnectionView {
            output: con.output + file_response_head(
                req.protocol,
                started.date(),
                last_modified,
                encoding,
                req.if_modified_since,
                content_type,
                resource.length,
            ),
            log: con.log + file_response_note(con.remote, req.if_modified_since, last_modified),
            ..con
        },
    )
}

/// The turn that sends the client on to the directory that it asked for.
pub open spec fn redirected(
    req: RequestView,
    host: Seq<u8>,
    con: ConnectionView,
    now: Timestamp,
) -> Turn {
    let answered = con.wrote(
        redirect_response(
            req.protocol,
            now.date(),
            redirect_location(host, req.path),
            req.method == Method::Get,
        ),
    );
    match req.protocol {
        Protocol::Http10 => closing(answered),
        Protocol::Http11 => reading(answered),
    }
}

/// The turn that follows the attempt to open the file that a request names.
pub open spec fn primary_opened(
    req: RequestView,
    path: Seq<u8>,
    started: Timestamp,
    result: Result<MetadataView, IoErrorView>,
    type_override: Option<Seq<u8>>,
    con: ConnectionView,
    now: Timestamp,
) -> Turn {
    let opened = checked(result);
    let noted = con.logged(open_note(con.remote, path, None, opened));
    match opened {
        Err(e) => refused(noted, Some(req.protocol), req.method == Method::Get, e, now),
        Ok(FileOrDir::Dir) => match named_host(req) {
            Some(host) => redirected(req, host, noted, now),
            None => refused(
                noted,
                Some(req.protocol),
                req.method == Method::Get,
                HttpErrorView::NotFound(lit("cannot redirect")),
                now,
            ),
        },
        Ok(FileOrDir::File(primary)) => {
            let content_type = mime_type(path, type_override);
            if req.accept_gzip {
                Turn {
                    server: ServerView::OpeningAlternate {
                        req,
                        file_path: path + lit(".gz"),
                        content_type,
                        primary,
                        started,
                    },
                    action: ActionView::Open { source: Source::Alternate, path: path + lit(".gz") },
                    con: noted,
                }
            } else {
                responded(req, content_type, primary, None, Source::Primary, started, noted)
            }
        },
    }
}

/// Whether the compressed alternate is served in place of the file: it is a
/// file that passed the checks, and it is no older than the file.
pub open spec fn alternate_chosen(primary: OpenFile, opened: Result<FileOrDir, HttpErrorView>) -> bool {
    opened matches Ok(FileOrDir::File(alt)) && alt.mtime.secs >= primary.mtime.secs
}

/// The turn that follows the attempt to open the compressed alternate.  The
/// alternate gives the response its content and length; the time of the
/// last modification stays that of the file.
pub open spec fn alternate_opened(
    req: RequestView,
    path: Seq<u8>,
    content_type: Seq<u8>,
    primary: OpenFile,
    started: Timestamp,
    result: Result<MetadataView, IoErrorView>,
    con: ConnectionView,
) -> Turn {
    let opened = checked(result);
    let noted = con.logged(open_note(con.remote, path, Some(lit("gzipped")), opened));
    if alternate_chosen(primary, opened) {
        responded(
            req,
            content_type,
            OpenFile { mtime: primary.mtime, length: opened->Ok_0->File_0.length },
            Some(ContentEncoding::Gzip),
            Source::Alternate,
            started,
            noted.logged(log_note(con.remote, lit("note: serving gzipped"))),
        )
    } else {
        responded(req, content_type, primary, None, Source::Primary, started, noted)
    }
}

/// What the server does when `event` reaches it in the state `server`, at
/// the time `now`.  An event that the state did not ask for ends the
/// connection.
pub open spec fn served(
    server: ServerView,
    event: EventView,
    now: Timestamp,
    con: ConnectionView,
) -> Turn {
    match (server, event) {
        (ServerView::Reading(reader), EventView::Input(raw)) => line_taken(
            reader,
            con.received(raw),
            now,
        ),
        (ServerView::Reading(_), EventView::InputFailed(e)) => refused(
            con,
            None,
            true,
            HttpErrorView::from_io(e),
            now,
        ),
        (
            ServerView::Opening { req, file_path, started },
            EventView::Opened { result, type_override },
        ) => primary_opened(req, file_path, started, result, type_override, con, now),
        (
            ServerView::OpeningAlternate { req, file_path, content_type, primary, started },
            EventView::Opened { result, .. },
        ) => alternate_opened(req, file_path, content_type, primary, started, result, con),
        (
            ServerView::Sending { protocol, method, transfer, source },
            EventView::Data(chunk),
        ) => transferring(
            protocol,
            method,
            transfer.fed(chunk),
            source,
            con.wrote(transfer.emitted(chunk)),
        ),
        (ServerView::Sending { protocol, method, .. }, EventView::DataFailed(e)) => refused(
            con,
            Some(protocol),
            method == Method::Get,
            HttpErrorView::from_io(e),
            now,
        ),
        _ => closing(con),
    }
}

/// The turn that an answer of the server amounts to.
pub open spec fn turn_of(answer: (Server, Action), con: ConnectionView) -> Turn {
    Turn { server: answer.0@, action: answer.1@, con }
}

// If the client provided a host, we must normalize it for use as a directory
// name: downcase it and strip off the port, if any.
fn normalize_host(orig: &[u8], out: &mut Vec<u8>)
    ensures
        final(out)@ == old(out)@ + normalized_host(orig@),
{
    let ghost base = out@;
    let mut i: usize = 0;
    assert(out@ == base + lowered(orig@.take(0)));
    while i < orig.len() && orig[i] != ':' as u8
        invariant
            i <= orig.len(),
            forall|j: int| 0 <= j < i ==> orig@[j] != ':' as u8,
            out@ == base + lowered(orig@.take(i as int)),
        decreases orig.len() - i,
    {
        out.push(to_lower(orig[i]));
        assert(lowered(orig@.take(i + 1)) == lowered(orig@.take(i as int)).push(
            lower(orig@[i as int]),
        ));
        i += 1;
    }
    proof {
        first_index_found(orig@, ':' as u8, i as int);
    }
}

fn names_host(req: &Request) -> (r: bool)
    ensures
        r == (named_host(req@) is Some),
{
    match &req.host {
        Some(host) => {
            let mut normal: Vec<u8> = Vec::new();
            normalize_host(host.as_slice(), &mut normal);
            assert(normal@ == normalized_host(host@));
            names_a_directory(normal.as_slice())
        },
        None => false,
    }
}

fn names_a_directory(host: &[u8]) -> (r: bool)
    ensures
        r == names_directory(host@),
{
    let mut i: usize = 0;
    while i < host.len()
        invariant
            i <= host.len(),
            forall|j: int| 0 <= j < i ==> host@[j] == '/' as u8,
        decreases host.len() - i,
    {
        if host[i] != '/' as u8 {
            return true;
        }
        i += 1;
    }
    false
}

/// Works out the path of the file that a request names: `./`, the host in
/// its normal form, `/`, and the unescaped path, all of it sanitized.
pub fn resolve(req: &Request) -> (r: Result<Vec<u8>, HttpError>)
    ensures
        outcome(r) == file_path(req@),
{
    let mut file_path: Vec<u8> = Vec::new();
    file_path.extend_from_slice("./".as_bytes());
    let start = file_path.len();
    match &req.host {
        Some(h) => normalize_host(h.as_slice(), &mut file_path),
        None => {
            assert(file_path@ + Seq::<u8>::empty() == file_path@);
        },
    }
    let ghost named = match req@.host {
        Some(host) => normalized_host(host),
        None => Seq::empty(),
    };
    assert(file_path@ == lit("./") + named);
    let named_host = vstd::slice::slice_subrange(file_path.as_slice(), start, file_path.len());
    assert(named_host@ == named);
    if !names_a_directory(named_host) {
        // The request may not have included a Host, or none that could name
        // a directory, but one is needed to form a file path.  Tolerate its
        // absence for HTTP/1.0 requests by replacing it with the simulated
        // host "0".
        file_path.truncate(start);
        assert(file_path@ == lit("./"));
        match req.protocol {
            Protocol::Http10 => file_path.extend_from_slice("0".as_bytes()),
            // HTTP 1.1 requests must include a host, one way or another.
            Protocol::Http11 => {
                return Err(HttpError::BadRequest);
            },
        }
    }
    assert(file_path@ == lit("./") + effective_host(req@).unwrap());
    file_path.extend_from_slice("/".as_bytes());
    match unescape(req.path.as_slice(), &mut file_path) {
        Ok(_) => {},
        Err(_) => {
            return Err(HttpError::BadRequest);
        },
    }
    assert(file_path@ == lit("./") + effective_host(req@).unwrap() + lit("/") + unescaped(
        req.path@,
    ));
    sanitize(&mut file_path);
    Ok(file_path)
}

fn refuse(
    con: &mut Connection,
    protocol: Option<Protocol>,
    send_content: bool,
    error: HttpError,
    now: Timestamp,
) -> (r: (Server, Action))
    requires
        now.has_date(),
    ensures
        turn_of(r, final(con)@) == refused(old(con)@, protocol, send_content, error@, now),
{
    let date = now.http_date();
    barf(con, protocol, send_content, error, date.as_slice());
    let ending = match protocol {
        Some(_) => Ending::Served,
        None => Ending::Unread,
    };
    (Server::Closed, Action::Close(ending))
}

/// Starts on a request that was read at the time `now`: asks for the file
/// that the request names to be opened, or refuses the request.
pub fn serve_request(req: Request, con: &mut Connection, now: Timestamp) -> (r: (Server, Action))
    requires
        now.has_date(),
    ensures
        turn_of(r, final(con)@) == request_begun(req@, old(con)@, now),
        r.0@.wf(),
{
    match resolve(&req) {
        Err(e) => {
            let get = req.method == Method::Get;
            refuse(con, Some(req.protocol), get, e, now)
        },
        Ok(file_path) => {
            let asked = to_vec(file_path.as_slice());
            (
                Server::Opening { req, file_path, started: now },
                Action::Open { source: Source::Primary, path: asked },
            )
        },
    }
}

fn take_line(reader: Reader, con: &mut Connection, now: Timestamp) -> (r: (Server, Action))
    requires
        now.has_date(),
    ensures
        turn_of(r, final(con)@) == line_taken(reader@, old(con)@, now),
        r.0@.wf(),
{
    let line = match con.readline() {
        Ok(line) => line,
        Err(e) => {
            return refuse(con, None, true, e, now);
        },
    };
    match reader.feed(line) {
        Err(e) => refuse(con, None, true, e, now),
        Ok(Progress::More(next)) => (Server::Reading(next), Action::ReadLine),
        Ok(Progress::Done(req)) => serve_request(req, con, now),
    }
}

fn open_resource(
    con: &mut Connection,
    path: &[u8],
    context: Option<&'static [u8]>,
    opened: Result<Metadata, IoError>,
) -> (r: Result<FileOrDir, HttpError>)
    ensures
        outcome(r) == checked(opened_view(opened)),
        final(con)@ == old(con)@.logged(
            open_note(
                old(con)@.remote,
                path@,
                opt_slice_view(context),
                checked(opened_view(opened)),
            ),
        ),
{
    let result = safe_open(opened);
    match &result {
        Ok(FileOrDir::File(_)) => {
            con.log(path, context, "success".as_bytes());
        },
        Ok(FileOrDir::Dir) => {
            con.log(path, context, "directory redirect".as_bytes());
        },
        Err(e) => {
            proof {
                concat_empty(con@.log);
            }
            if let Some(message) = e.log_message() {
                con.log(path, context, message);
            }
        },
    }
    result
}

fn proceed(protocol: Protocol, method: Method, transfer: Transfer, source: Source) -> (r: (
    Server,
    Action,
))
    ensures
        (r.0@, r.1@) == transfer_next(protocol, method, transfer, source),
        r.0@.wf(),
{
    if transfer.is_open() {
        (Server::Sending { protocol, method, transfer, source }, Action::ReadFile(source))
    } else {
        match transfer.finish() {
            // A successful HTTP/1.1 response leaves the connection open;
            // carry on accepting requests.
            Ok(_) => (Server::Reading(Reader::new()), Action::ReadLine),
            Err(_) => (Server::Closed, Action::Close(Ending::Served)),
        }
    }
}

fn respond(
    req: Request,
    content_type: Vec<u8>,
    resource: OpenFile,
    encoding: Option<ContentEncoding>,
    source: Source,
    started: Timestamp,
    con: &mut Connection,
) -> (r: (Server, Action))
    requires
        started.has_date(),
        resource.mtime.has_date(),
    ensures
        turn_of(r, final(con)@) == responded(
            req@,
            content_type@,
            resource,
            encoding,
            source,
            started,
            old(con)@,
        ),
        r.0@.wf(),
{
    let since: Option<&[u8]> = match &req.if_modified_since {
        Some(v) => Some(v.as_slice()),
        None => None,
    };
    let transfer = send(
        con,
        req.method,
        req.protocol,
        started,
        encoding,
        since,
        content_type.as_slice(),
        resource,
    );
    proceed(req.protocol, req.method, transfer, source)
}

fn send_redirect(req: Request, con: &mut Connection, now: Timestamp) -> (r: (Server, Action))
    requires
        now.has_date(),
        named_host(req@) is Some,
    ensures
        turn_of(r, final(con)@) == redirected(req@, named_host(req@).unwrap(), old(con)@, now),
        r.0@.wf(),
{
    let mut url: Vec<u8> = Vec::new();
    url.extend_from_slice("http://".as_bytes());
    match &req.host {
        Some(orig_host) => url.extend_from_slice(orig_host.as_slice()),
        None => {},
    }
    url.extend_from_slice(req.path.as_slice());
    url.extend_from_slice("/".as_bytes());
    assert(url@ == redirect_location(named_host(req@).unwrap(), req@.path));
    let date = now.http_date();
    let get = req.method == Method::Get;
    match redirect(con, req.protocol, get, url.as_slice(), date.as_slice()) {
        Ok(_) => (Server::Reading(Reader::new()), Action::ReadLine),
        Err(_) => (Server::Closed, Action::Close(Ending::Served)),
    }
}

fn primary(
    req: Request,
    file_path: Vec<u8>,
    started: Timestamp,
    result: Result<Metadata, IoError>,
    type_override: Option<Vec<u8>>,
    con: &mut Connection,
    now: Timestamp,
) -> (r: (Server, Action))
    requires
        now.has_date(),
        started.has_date(),
        checked(opened_view(result)) matches Ok(FileOrDir::File(f)) ==> f.mtime.has_date(),
    ensures
        turn_of(r, final(con)@) == primary_opened(
            req@,
            file_path@,
            started,
            opened_view(result),
            opt_view(type_override),
            old(con)@,
            now,
        ),
        r.0@.wf(),
{
    let get = req.method == Method::Get;
    match open_resource(con, file_path.as_slice(), None, result) {
        Err(e) => refuse(con, Some(req.protocol), get, e, now),
        Ok(FileOrDir::Dir) => {
            // It's a dir.
            if names_host(&req) {
                send_redirect(req, con, now)
            } else {
                refuse(
                    con,
                    Some(req.protocol),
                    get,
                    HttpError::NotFound("cannot redirect".as_bytes()),
                    now,
                )
            }
        },
        Ok(FileOrDir::File(resource)) => {
            let content_type = from_path(file_path.as_slice(), type_override);
            if req.accept_gzip {
                // See if there's *also* a GZIPped alternate with accessible
                // permissions.
                let mut file_path = file_path;
                file_path.extend_from_slice(".gz".as_bytes());
                let asked = to_vec(file_path.as_slice());
                (
                    Server::OpeningAlternate {
                        req,
                        file_path,
                        content_type,
                        primary: resource,
                        started,
                    },
                    Action::Open { source: Source::Alternate, path: asked },
                )
            } else {
                respond(req, content_type, resource, None, Source::Primary, started, con)
            }
        },
    }
}

fn alternate(
    req: Request,
    file_path: Vec<u8>,
    content_type: Vec<u8>,
    primary: OpenFile,
    started: Timestamp,
    result: Result<Metadata, IoError>,
    con: &mut Connection,
) -> (r: (Server, Action))
    requires
        started.has_date(),
        primary.mtime.has_date(),
    ensures
        turn_of(r, final(con)@) == alternate_opened(
            req@,
            file_path@,
            content_type@,
            primary,
            started,
            opened_view(result),
            old(con)@,
        ),
        r.0@.wf(),
{
    match open_resource(con, file_path.as_slice(), Some("gzipped".as_bytes()), result) {
        Ok(FileOrDir::File(alt)) => {
            // It must be at least as recent as the primary, or it counts as
            // stale clutter and is ignored.
            if alt.mtime.at_least(&primary.mtime) {
                // Take the alternate's length, but leave everything else
                // (particularly mtime).
                con.log_other("note: serving gzipped".as_bytes());
                let resource = OpenFile { mtime: primary.mtime, length: alt.length };
                respond(
                    req,
                    content_type,
                    resource,
                    Some(ContentEncoding::Gzip),
                    Source::Alternate,
                    started,
                    con,
                )
            } else {
                respond(req, content_type, primary, None, Source::Primary, started, con)
            }
        },
        _ => respond(req, content_type, primary, None, Source::Primary, started, con),
    }
}

impl Server {
    /// A server at the start of a connection, and the first thing it asks
    /// for.
    pub fn start() -> (r: (Server, Action))
        ensures
            r.0@ == ServerView::Reading(ReaderView::RequestLine),
            r.1@ == ActionView::ReadLine,
            r.0@.wf(),
    {
        (Server::Reading(Reader::new()), Action::ReadLine)
    }

    /// Tells whether the server can answer `event`.
    pub fn admits(&self, event: &Event) -> (r: bool)
        ensures
            r == self@.admits(event@),
    {
        match self {
            Server::Opening { .. } => match event {
                Event::Opened { result: Ok(meta), .. } => match crate::file::mtime_if_served(meta) {
                    Some(mtime) => mtime.is_datable(),
                    None => true,
                },
                _ => true,
            },
            _ => true,
        }
    }
}

/// Takes the server one turn further: tells it of `event`, which happened
/// at the time `now`, and returns the state that it is in afterwards and
/// what it asks for next.  What it writes and logs is left in `con`.
pub fn serve(server: Server, event: Event, now: Timestamp, con: &mut Connection) -> (r: (
    Server,
    Action,
))
    requires
        server@.wf(),
        server@.admits(event@),
        now.has_date(),
    ensures
        turn_of(r, final(con)@) == served(server@, event@, now, old(con)@),
        r.0@.wf(),
{
    match server {
        Server::Reading(reader) => match event {
            Event::Input(raw) => {
                con.receive(raw.as_slice());
                take_line(reader, con, now)
            },
            Event::InputFailed(e) => refuse(con, None, true, HttpError::from_io(e), now),
            _ => (Server::Closed, Action::Close(Ending::Served)),
        },
        Server::Opening { req, file_path, started } => match event {
            Event::Opened { result, type_override } => primary(
                req,
                file_path,
                started,
                result,
                type_override,
                con,
                now,
            ),
            _ => (Server::Closed, Action::Close(Ending::Served)),
        },
        Server::OpeningAlternate { req, file_path, content_type, primary, started } => match event {
            Event::Opened { result, .. } => alternate(
                req,
                file_path,
                content_type,
                primary,
                started,
                result,
                con,
            ),
            _ => (Server::Closed, Action::Close(Ending::Served)),
        },
        Server::Sending { protocol, method, transfer, source } => match event {
            Event::Data(chunk) => {
                let next = transfer.data(con, chunk.as_slice());
                proceed(protocol, method, next, source)
            },
            Event::DataFailed(e) => {
                // Try to report this to the client.  Error reporting is
                // best-effort.
                let get = method == Method::Get;
                refuse(con, Some(protocol), get, HttpError::from_io(e), now)
            },
            _ => (Server::Closed, Action::Close(Ending::Served)),
        },
        Server::Closed => (Server::Closed, Action::Close(Ending::Served)),
    }
}

/// The two bytes that every file path begins with.
pub open spec fn dot_slash() -> Seq<u8> {
    seq!['.' as u8, '/' as u8]
}

/// Slashes behind `./` vanish when the path is sanitized.
proof fn sanitized_slashes(slashes: Seq<u8>)
    requires
        forall|i: int| 0 <= i < slashes.len() ==> slashes[i] == '/' as u8,
    ensures
        sanitized(dot_slash() + slashes) == dot_slash(),
    decreases slashes.len(),
{
    let s = dot_slash() + slashes;
    if slashes.len() == 0 {
        assert(s == dot_slash());
        let dot = seq!['.' as u8];
        assert(dot_slash().drop_last() == dot);
        assert(dot.drop_last() == Seq::<u8>::empty());
        assert(sanitized(dot.drop_last()) == Seq::<u8>::empty());
        assert(sanitized(dot) == dot);
        assert(sanitized(dot_slash()) == dot.push('/' as u8));
    } else {
        let shorter = slashes.drop_last();
        sanitized_slashes(shorter);
        assert(s.drop_last() == dot_slash() + shorter);
        assert(s.drop_last().last() == '/' as u8);
        assert(s.last() == '/' as u8);
    }
}

/// Behind `./`, a host that names a directory leaves a byte other than `/`
/// when the path is sanitized.
proof fn sanitized_host(host: Seq<u8>)
    requires
        names_directory(host),
    ensures
        sanitized(dot_slash() + host).len() >= 3,
        sanitized(dot_slash() + host).take(2) == dot_slash(),
        sanitized(dot_slash() + host)[2] != '/' as u8,
    decreases host.len(),
{
    let s = dot_slash() + host;
    let shorter = host.drop_last();
    assert(s.drop_last() == dot_slash() + shorter);
    if names_directory(shorter) {
        sanitized_host(shorter);
        let before = sanitized(dot_slash() + shorter);
        assert(sanitized(s).take(2) == before.take(2));
        assert(sanitized(s)[2] == before[2]);
    } else {
        let i = choose|i: int| 0 <= i < host.len() && #[trigger] host[i] != '/' as u8;
        if i < shorter.len() {
            assert(shorter[i] == host[i]);
        }
        assert forall|j: int| 0 <= j < shorter.len() implies shorter[j] == '/' as u8 by {}
        sanitized_slashes(shorter);
        assert(s.drop_last().last() == '/' as u8);
        assert(s.last() == host[i]);
        assert(sanitized(s) == dot_slash().push(sanitized(s)[2]));
    }
}

/// The host that a request is served for names a directory.
pub proof fn effective_host_names_directory(req: RequestView)
    ensures
        effective_host(req) matches Some(host) ==> names_directory(host),
{
    reveal_strlit("0");
    assert(is_ascii("0"));
    is_ascii_spec_bytes("0");
    assert(lit("0")[0] != '/' as u8);
}

/// No request reaches outside the directory of its host.  The path of the
/// file that a request names begins with the directory of the host that the
/// request is served for, which is `./`, a name that is not empty, and `/`;
/// the name is that of the host alone, whatever the request's path.  And the
/// whole path, unescaped and sanitized, holds no NUL, no two adjacent
/// slashes, and no component that begins with a dot, `..` included.
pub proof fn file_path_is_below_host(req: RequestView)
    ensures
        file_path(req) matches Ok(path) ==> {
            let root = host_root(effective_host(req).unwrap());
            &&& is_clean(path)
            &&& root.len() <= path.len()
            &&& path.take(root.len() as int) == root
            &&& root.len() >= 4
            &&& root.take(2) == dot_slash()
            &&& root[2] != '/' as u8
            &&& root.last() == '/' as u8
        },
{
    if let Ok(path) = file_path(req) {
        let host = effective_host(req).unwrap();
        effective_host_names_directory(req);
        reveal_strlit("./");
        reveal_strlit("/");
        assert(is_ascii("./"));
        assert(is_ascii("/"));
        is_ascii_spec_bytes("./");
        is_ascii_spec_bytes("/");
        assert(lit("./") == dot_slash());
        assert(lit("/") == seq!['/' as u8]);
        let named = lit("./") + host;
        let whole = named + lit("/") + unescaped(req.path);
        sanitized_is_clean(whole);
        sanitized_prefix(named + lit("/"), unescaped(req.path));
        sanitized_prefix(named, lit("/"));
        sanitized_host(host);
        sanitized_last(named + lit("/"));
        let root = host_root(host);
        assert(root.take(sanitized(named).len() as int) == sanitized(named));
        assert(root.take(2) == sanitized(named).take(2));
        assert(root[2] == sanitized(named)[2]);
    }
}

/// A host in its normal form holds no colon and no upper-case letter.
pub proof fn normalized_host_is_normal(host: Seq<u8>)
    ensures
        !normalized_host(host).contains(':' as u8),
        forall|i: int|
            0 <= i < normalized_host(host).len() ==> !('A' as u8 <= #[trigger] normalized_host(
                host,
            )[i] && normalized_host(host)[i] <= 'Z' as u8),
{
    first_index_is_first(host, ':' as u8);
    let cut = host.take(first_index(host, ':' as u8));
    assert forall|i: int| 0 <= i < cut.len() implies lowered(cut)[i] != ':' as u8 by {
        assert(cut[i] == host[i]);
    }
}

/// What the server has done when the fills of file bytes have reached it one
/// by one, starting from `turn`.
pub open spec fn served_fills(turn: Turn, fills: Seq<Seq<u8>>, now: Timestamp) -> Turn
    decreases fills.len(),
{
    if fills.len() == 0 {
        turn
    } else {
        served_fills(
            served(turn.server, EventView::Data(fills[0]), now, turn.con),
            fills.skip(1),
            now,
        )
    }
}

proof fn closed_stays_closed(con: ConnectionView, fills: Seq<Seq<u8>>, now: Timestamp)
    ensures
        served_fills(closing(con), fills, now) == closing(con),
    decreases fills.len(),
{
    if fills.len() > 0 {
        closed_stays_closed(con, fills.skip(1), now);
    }
}

/// One fill of file bytes takes a body that wants it one step further.
proof fn fill_is_served(
    protocol: Protocol,
    method: Method,
    transfer: Transfer,
    source: Source,
    fill: Seq<u8>,
    now: Timestamp,
    con: ConnectionView,
)
    requires
        transfer.wants_data(),
    ensures
        served(
            transferring(protocol, method, transfer, source, con).server,
            EventView::Data(fill),
            now,
            transferring(protocol, method, transfer, source, con).con,
        ) == transferring(
            protocol,
            method,
            transfer.fed(fill),
            source,
            con.wrote(transfer.emitted(fill)),
        ),
{
}

/// A body that is complete from the start leaves the server where it is,
/// unless it is a chunked one.
proof fn complete_body_is_served(
    protocol: Protocol,
    method: Method,
    source: Source,
    fills: Seq<Seq<u8>>,
    now: Timestamp,
    con: ConnectionView,
)
    ensures
        served_fills(
            transferring(protocol, method, Transfer::Unencoded { remaining: 0 }, source, con),
            fills,
            now,
        ) == transferring(
            protocol,
            method,
            streamed(Transfer::Unencoded { remaining: 0 }, fills).1,
            source,
            con.wrote(streamed(Transfer::Unencoded { remaining: 0 }, fills).0),
        ),
    decreases fills.len(),
{
    let done = Transfer::Unencoded { remaining: 0 };
    complete_body_stays_silent(done, fills);
    assert(streamed(done, fills).1 == done) by {
        stays_complete(fills);
    }
    concat_empty(con.output);
    assert(con.wrote(Seq::<u8>::empty()) == con);
    assert(transferring(protocol, method, done, source, con) == closing(con));
    closed_stays_closed(con, fills, now);
}

proof fn stays_complete(fills: Seq<Seq<u8>>)
    ensures
        streamed(Transfer::Unencoded { remaining: 0 }, fills).1
            == (Transfer::Unencoded { remaining: 0 }),
    decreases fills.len(),
{
    if fills.len() > 0 {
        stays_complete(fills.skip(1));
    }
}

/// The body of a response reaches the client as the file is read.  When the
/// fills of file bytes, and then the end of the file, have reached the
/// server behind the head of a response, it has written what the body makes
/// of them, and goes on as the body's framing has it.
pub proof fn body_reaches_the_client(
    protocol: Protocol,
    method: Method,
    transfer: Transfer,
    source: Source,
    fills: Seq<Seq<u8>>,
    now: Timestamp,
    con: ConnectionView,
)
    requires
        all_filled(fills),
        transfer is Chunked ==> transfer.wants_data(),
    ensures
        served_fills(
            transferring(protocol, method, transfer, source, con),
            fills.push(Seq::empty()),
            now,
        ) == transferring(
            protocol,
            method,
            streamed(transfer, fills.push(Seq::empty())).1,
            source,
            con.wrote(streamed(transfer, fills.push(Seq::empty())).0),
        ),
    decreases fills.len(),
{
    let all = fills.push(Seq::empty());
    let turn = transferring(protocol, method, transfer, source, con);
    let body = streamed(transfer, all);
    if !transfer.wants_data() {
        complete_body_is_served(protocol, method, source, all, now, con);
    } else {
        let next = transfer.fed(all[0]);
        let wrote = con.wrote(transfer.emitted(all[0]));
        let after = transferring(protocol, method, next, source, wrote);
        fill_is_served(protocol, method, transfer, source, all[0], now, con);
        assert(served_fills(turn, all, now) == served_fills(after, all.skip(1), now));
        let tail = streamed(next, all.skip(1));
        assert(body == (transfer.emitted(all[0]) + tail.0, tail.1));
        assert(wrote.wrote(tail.0) == con.wrote(body.0)) by {
            concat_assoc(con.output, transfer.emitted(all[0]), tail.0);
        }
        if fills.len() == 0 {
            assert(all.skip(1).len() == 0);
            assert(tail == (Seq::<u8>::empty(), next));
            assert(wrote.wrote(tail.0) == wrote) by {
                concat_empty(wrote.output);
            }
        } else {
            let rest = fills.skip(1);
            assert(all[0] == fills[0]);
            assert(fills[0].len() > 0);
            assert(all.skip(1) == rest.push(Seq::empty()));
            assert forall|i: int| 0 <= i < rest.len() implies (#[trigger] rest[i]).len() > 0 by {
                assert(rest[i] == fills[i + 1]);
            }
            body_reaches_the_client(protocol, method, next, source, rest, now, wrote);
        }
    }
}

proof fn framing_is_kept(transfer: Transfer, fills: Seq<Seq<u8>>)
    ensures
        streamed(transfer, fills).1 is Unencoded <==> transfer is Unencoded,
    decreases fills.len(),
{
    if fills.len() > 0 {
        framing_is_kept(transfer.fed(fills[0]), fills.skip(1));
    }
}

/// A response without content, which answers a `HEAD` or finds the client's
/// copy up to date, asks for none of the file: behind its head, an HTTP/1.0
/// connection is closed, and on an HTTP/1.1 connection the next request is
/// awaited.
pub proof fn response_without_content_is_complete(
    protocol: Protocol,
    method: Method,
    length: u64,
    source: Source,
    con: ConnectionView,
)
    ensures
        transferring(protocol, method, file_transfer(protocol, false, length), source, con)
            == match protocol {
            Protocol::Http10 => closing(con),
            Protocol::Http11 => reading(con),
        },
{
}

/// A response that sends a file is completed, and the connection goes on as
/// its protocol has it.  When the file has been read to its end, the server
/// has written the body as `body_is_framed` describes it; an HTTP/1.0
/// connection is then closed, and on an HTTP/1.1 connection the next request
/// is awaited, as at the start of the connection.
pub proof fn response_is_completed(
    protocol: Protocol,
    method: Method,
    length: u64,
    source: Source,
    fills: Seq<Seq<u8>>,
    now: Timestamp,
    con: ConnectionView,
)
    requires
        all_filled(fills),
    ensures
        served_fills(
            transferring(protocol, method, file_transfer(protocol, true, length), source, con),
            fills.push(Seq::empty()),
            now,
        ) == match protocol {
            Protocol::Http10 => closing(
                con.wrote(
                    streamed(
                        file_transfer(protocol, true, length),
                        fills.push(Seq::empty()),
                    ).0,
                ),
            ),
            Protocol::Http11 => reading(
                con.wrote(
                    streamed(
                        file_transfer(protocol, true, length),
                        fills.push(Seq::empty()),
                    ).0,
                ),
            ),
        },
{
    let transfer = file_transfer(protocol, true, length);
    let all = fills.push(Seq::empty());
    body_reaches_the_client(protocol, method, transfer, source, fills, now, con);
    body_is_framed(protocol, true, length, fills);
    framing_is_kept(transfer, all);
}

/// A request for a directory is answered with a redirect to the same URL
/// with a slash behind it, host and path as the client gave them, and the
/// attempt is logged.  An HTTP/1.1 connection then goes on; an HTTP/1.0
/// connection is closed.
pub proof fn directory_is_redirected(
    req: RequestView,
    path: Seq<u8>,
    started: Timestamp,
    result: Result<MetadataView, IoErrorView>,
    type_override: Option<Seq<u8>>,
    con: ConnectionView,
    now: Timestamp,
)
    requires
        checked(result) == Ok::<FileOrDir, HttpErrorView>(FileOrDir::Dir),
        named_host(req) is Some,
    ensures
        ({
            let turn = primary_opened(req, path, started, result, type_override, con, now);
            &&& turn.con == (ConnectionView {
                output: con.output + redirect_response(
                    req.protocol,
                    now.date(),
                    lit("http://") + req.host.unwrap() + req.path + lit("/"),
                    req.method == Method::Get,
                ),
                log: con.log + log_line(con.remote, path, None, lit("directory redirect")),
                ..con
            })
            &&& match req.protocol {
                Protocol::Http10 => turn.server == ServerView::Closed && turn.action
                    == ActionView::Close(Ending::Served),
                Protocol::Http11 => turn.server == ServerView::Reading(ReaderView::RequestLine)
                    && turn.action == ActionView::ReadLine,
            }
        }),
{
}

/// A file that is not readable by user, group and others is not found: the
/// client is told `404 not found` and nothing more, the log is told why,
/// and the connection ends.
pub proof fn unreadable_file_is_not_found(
    req: RequestView,
    path: Seq<u8>,
    started: Timestamp,
    meta: MetadataView,
    type_override: Option<Seq<u8>>,
    con: ConnectionView,
    now: Timestamp,
)
    requires
        !readable_by_all(meta.mode),
    ensures
        primary_opened(req, path, started, Ok(meta), type_override, con, now) == (Turn {
            server: ServerView::Closed,
            action: ActionView::Close(Ending::Served),
            con: ConnectionView {
                output: con.output + error_response(
                    Some(req.protocol),
                    now.date(),
                    lit("404"),
                    lit("not found"),
                    req.method == Method::Get,
                ),
                log: con.log + log_line(con.remote, path, None, lit("not ugo+r")),
                ..con
            },
        }),
{
}

/// The compressed alternate is served exactly if it is a file that passed
/// the checks and is no older than the file.  It then gives the response its
/// length and its content; the time of the last modification, by which the
/// client's copy is judged, is that of the file in either case.
pub proof fn alternate_is_served_if_fresh(
    req: RequestView,
    path: Seq<u8>,
    content_type: Seq<u8>,
    primary: OpenFile,
    started: Timestamp,
    result: Result<MetadataView, IoErrorView>,
    con: ConnectionView,
)
    ensures
        ({
            let opened = checked(result);
            let fresh = opened matches Ok(FileOrDir::File(alt)) && alt.mtime.secs
                >= primary.mtime.secs;
            let noted = con.logged(open_note(con.remote, path, Some(lit("gzipped")), opened));
            alternate_opened(req, path, content_type, primary, started, result, con) == responded(
                req,
                content_type,
                OpenFile {
                    mtime: primary.mtime,
                    length: if fresh {
                        opened->Ok_0->File_0.length
                    } else {
                        primary.length
                    },
                },
                if fresh {
                    Some(ContentEncoding::Gzip)
                } else {
                    None
                },
                if fresh {
                    Source::Alternate
                } else {
                    Source::Primary
                },
                started,
                if fresh {
                    noted.logged(log_note(con.remote, lit("note: serving gzipped")))
                } else {
                    noted
                },
            )
        }),
{
}

/// A client whose copy is up to date, which is one that gives the date of
/// the file's last modification byte for byte, is answered with `304 not
/// modified`, without a body and without an encoding, whatever the method
/// and whichever file would have been sent.
pub proof fn unmodified_is_answered_without_body(
    req: RequestView,
    content_type: Seq<u8>,
    resource: OpenFile,
    encoding: Option<ContentEncoding>,
    source: Source,
    started: Timestamp,
    con: ConnectionView,
)
    requires
        req.if_modified_since == Some(resource.mtime.date()),
    ensures
        ({
            let turn = responded(req, content_type, resource, encoding, source, started, con);
            &&& turn.con.output == con.output + (response_start(
                req.protocol,
                started.date(),
                lit("304"),
                lit("not modified"),
            ) + lit("Content-Type: ") + content_type + lit("\r\n") + lit("Last-Modified: ")
                + resource.mtime.date() + lit("\r\n") + framing_header(
                req.protocol,
                resource.length,
            ))
            &&& match req.protocol {
                Protocol::Http10 => turn.server == ServerView::Closed && turn.action
                    == ActionView::Close(Ending::Served),
                Protocol::Http11 => turn.server == ServerView::Reading(ReaderView::RequestLine)
                    && turn.action == ActionView::ReadLine,
            }
        }),
{
    let turn = responded(req, content_type, resource, encoding, source, started, con);
    let start = response_start(
        req.protocol,
        started.date(),
        lit("304"),
        lit("not modified"),
    ) + lit("Content-Type: ") + content_type + lit("\r\n") + lit("Last-Modified: ")
        + resource.mtime.date() + lit("\r\n");
    concat_empty(start);
    assert(turn.con.output =~= con.output + (start + framing_header(
        req.protocol,
        resource.length,
    )));
}

/// A client that sends nothing while the server waits for a line is told
/// `408 type faster`, and the connection ends.
pub proof fn timeout_is_reported(reader: ReaderView, con: ConnectionView, now: Timestamp)
    ensures
        wait_outcome(Ok(false)) is Err,
        served(
            ServerView::Reading(reader),
            EventView::InputFailed(wait_outcome(Ok(false))->Err_0),
            now,
            con,
        ) == (Turn {
            server: ServerView::Closed,
            action: ActionView::Close(Ending::Unread),
            con: con.wrote(
                error_response(
                    None,
                    now.date(),
                    lit("408"),
                    lit("type faster"),
                    true,
                ),
            ),
        }),
{
}

/// What the server has done when the lines of a request have reached it one
/// by one, each with the delimiter `eol` behind it, for as long as it went
/// on reading.
pub open spec fn served_lines(
    reader: ReaderView,
    lines: Seq<Seq<u8>>,
    eol: Seq<u8>,
    now: Timestamp,
    con: ConnectionView,
) -> Turn
    decreases lines.len(),
{
    if lines.len() == 0 {
        Turn { server: ServerView::Reading(reader), action: ActionView::ReadLine, con }
    } else {
        let turn = served(
            ServerView::Reading(reader),
            EventView::Input(lines[0] + eol),
            now,
            con,
        );
        match turn.server {
            ServerView::Reading(next) => served_lines(next, lines.skip(1), eol, now, turn.con),
            _ => turn,
        }
    }
}

/// What the lines of a request lead to: more reading, the start of the
/// answer, or the report of an error.
pub open spec fn lines_answered(
    reader: ReaderView,
    lines: Seq<Seq<u8>>,
    now: Timestamp,
    con: ConnectionView,
) -> Turn {
    match fed_lines(reader, lines) {
        Ok(ProgressView::More(next)) => Turn {
            server: ServerView::Reading(next),
            action: ActionView::ReadLine,
            con,
        },
        Ok(ProgressView::Done(req)) => request_begun(req, con, now),
        Err(e) => refused(con, None, true, e, now),
    }
}

proof fn line_is_served(
    reader: ReaderView,
    line: Seq<u8>,
    crlf_ends: bool,
    now: Timestamp,
    con: ConnectionView,
)
    requires
        con.input.len() == 0,
        is_delimitable(line),
    ensures
        served(
            ServerView::Reading(reader),
            EventView::Input(
                line + if crlf_ends {
                    crlf()
                } else {
                    lf()
                },
            ),
            now,
            con,
        ) == if line.len() > MAX_LINE_BYTES {
            refused(con, None, true, HttpErrorView::BadRequest, now)
        } else {
            match fed(reader, line) {
                Err(e) => refused(con, None, true, e, now),
                Ok(ProgressView::More(next)) => Turn {
                    server: ServerView::Reading(next),
                    action: ActionView::ReadLine,
                    con,
                },
                Ok(ProgressView::Done(req)) => request_begun(req, con, now),
            }
        },
{
    let eol = if crlf_ends {
        crlf()
    } else {
        lf()
    };
    line_comes_back(line, Seq::empty());
    let raw = line + eol;
    assert(raw + Seq::<u8>::empty() == raw);
    assert(con.input + raw == raw);
    let got = con.received(raw);
    assert(got.input == raw);
    assert((ConnectionView { input: after_first_line(got.input), ..got }) == con);
}

/// The server reads a request as `read` does, line by line, and answers it
/// when it is complete.  Whether a carriage return and a line feed or a bare
/// line feed ends the lines makes no difference to what it does.
pub proof fn request_is_read_line_by_line(
    reader: ReaderView,
    lines: Seq<Seq<u8>>,
    now: Timestamp,
    con: ConnectionView,
)
    requires
        con.input.len() == 0,
        forall|i: int| 0 <= i < lines.len() ==> is_delimitable(#[trigger] lines[i]),
    ensures
        served_lines(reader, lines, crlf(), now, con) == lines_answered(reader, lines, now, con),
        served_lines(reader, lines, lf(), now, con) == lines_answered(reader, lines, now, con),
    decreases lines.len(),
{
    if lines.len() > 0 {
        let rest = lines.skip(1);
        assert(is_delimitable(lines[0]));
        assert forall|i: int| 0 <= i < rest.len() implies is_delimitable(#[trigger] rest[i]) by {
            assert(rest[i] == lines[i + 1]);
        }
        line_is_served(reader, lines[0], true, now, con);
        line_is_served(reader, lines[0], false, now, con);
        if lines[0].len() <= MAX_LINE_BYTES {
            if let Ok(ProgressView::More(next)) = fed(reader, lines[0]) {
                request_is_read_line_by_line(next, rest, now, con);
            }
        }
    }
}

} // verus!
