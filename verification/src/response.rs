//! HTTP response support.

use vstd::prelude::*;
use vstd::slice::slice_subrange;
use vstd::string::*;
use crate::bytes::{bytes_eq, concat_assoc, concat_empty, lit, opt_slice_view};
use crate::con::{decimal, hex, log_note, Connection, ConnectionView};
use crate::date::Timestamp;
use crate::error::{HttpError, HttpErrorView};
use crate::file::OpenFile;
use crate::request::{Method, Protocol};

verus! {

/// The size of the buffer through which a file is read: no fill of file
/// bytes needs to be longer.
pub const FILE_BUF_BYTES: usize = 1024;

/// The encodings in which a file's content can be sent.
#[derive(Clone, Copy, Debug, PartialEq, Eq, Structural)]
pub enum ContentEncoding {
    Gzip,
}

/// How a response names its protocol.
pub open spec fn protocol_tag(protocol: Protocol) -> Seq<u8> {
    match protocol {
        Protocol::Http10 => lit("HTTP/1.0 "),
        Protocol::Http11 => lit("HTTP/1.1 "),
    }
}

/// The start of every response: the status line and the headers `Server`
/// and `Date`.
pub open spec fn response_start(
    protocol: Protocol,
    date: Seq<u8>,
    code: Seq<u8>,
    msg: Seq<u8>,
) -> Seq<u8> {
    protocol_tag(protocol) + code + lit(" ") + msg + lit(
        "\r\nServer: abstract screaming\r\nDate: ",
    ) + date + lit("\r\n")
}

/// The body that tells the client of an error.
pub open spec fn error_body(reason: Seq<u8>) -> Seq<u8> {
    lit("<html><body>") + reason + lit("</body></html>\r\n")
}

/// The response that tells the client of an error.  It announces the
/// length of the body whether or not the body is sent, and asks an HTTP/1.1
/// client to close the connection.
pub open spec fn error_response(
    protocol: Option<Protocol>,
    date: Seq<u8>,
    code: Seq<u8>,
    reason: Seq<u8>,
    send_content: bool,
) -> Seq<u8> {
    response_start(
        match protocol {
            Some(p) => p,
            None => Protocol::Http10,
        },
        date,
        code,
        reason,
    ) + lit("Content-Length: ") + decimal(error_body(reason).len()) + lit("\r\n") + (if protocol
        == Some(Protocol::Http11) {
        lit("Connection: close\r\n")
    } else {
        Seq::empty()
    }) + lit("Content-Type: text/html\r\n\r\n") + (if send_content {
        error_body(reason)
    } else {
        Seq::empty()
    })
}

/// What `barf` writes for an error: nothing where the error has no status.
pub open spec fn barfed(
    protocol: Option<Protocol>,
    date: Seq<u8>,
    error: HttpErrorView,
    send_content: bool,
) -> Seq<u8> {
    match error.status() {
        None => Seq::empty(),
        Some((code, reason)) => error_response(protocol, date, code, reason, send_content),
    }
}

/// The body of a redirect.
pub open spec fn redirect_body() -> Seq<u8> {
    lit("<html><body>moved permanently</body></html>")
}

/// The response that sends the client to `location` for good.
pub open spec fn redirect_response(
    protocol: Protocol,
    date: Seq<u8>,
    location: Seq<u8>,
    send_content: bool,
) -> Seq<u8> {
    response_start(protocol, date, lit("301"), lit("moved permanently")) + lit("Content-Length: ")
        + decimal(redirect_body().len()) + lit("\r\nLocation: ") + location + lit("\r\n") + lit(
        "Content-Type: text/html\r\n\r\n",
    ) + (if send_content {
        redirect_body()
    } else {
        Seq::empty()
    })
}

/// Whether the client's copy is up to date: the date that it gave is, byte
/// for byte, the date of the file's last modification.
pub open spec fn is_unmodified(if_modified_since: Option<Seq<u8>>, last_modified: Seq<u8>) -> bool {
    if_modified_since == Some(last_modified)
}

/// The end of a head that announces a body of `length` bytes, sent as it
/// is.
pub open spec fn length_header(length: u64) -> Seq<u8> {
    lit("Content-Length: ") + decimal(length as nat) + lit("\r\n\r\n")
}

/// The end of a head that announces a body in chunks.
pub open spec fn chunked_header() -> Seq<u8> {
    lit("Transfer-Encoding: chunked\r\n\r\n")
}

/// The end of the head of a response that serves a file, which announces
/// how the body is framed: by its length for HTTP/1.0, in chunks for
/// HTTP/1.1.
pub open spec fn framing_header(protocol: Protocol, length: u64) -> Seq<u8> {
    match protocol {
        Protocol::Http10 => length_header(length),
        Protocol::Http11 => chunked_header(),
    }
}

/// The head of the response that serves a file: everything in front of the
/// body.  The encoding is named only where the file is sent.
pub open spec fn file_response_head(
    protocol: Protocol,
    date: Seq<u8>,
    last_modified: Seq<u8>,
    encoding: Option<ContentEncoding>,
    if_modified_since: Option<Seq<u8>>,
    content_type: Seq<u8>,
    length: u64,
) -> Seq<u8> {
    let unmodified = is_unmodified(if_modified_since, last_modified);
    (if unmodified {
        response_start(protocol, date, lit("304"), lit("not modified"))
    } else {
        response_start(protocol, date, lit("200"), lit("OK"))
    }) + lit("Content-Type: ") + content_type + lit("\r\n") + lit("Last-Modified: ")
        + last_modified + lit("\r\n") + (if encoding is Some && !unmodified {
        lit("Content-Encoding: gzip\r\n")
    } else {
        Seq::empty()
    }) + framing_header(protocol, length)
}

/// One chunk of a chunked body: the length in hexadecimal, the bytes, and a
/// line end behind each.
pub open spec fn chunk_frame(chunk: Seq<u8>) -> Seq<u8> {
    hex(chunk.len()) + lit("\r\n") + chunk + lit("\r\n")
}

/// The bytes of `chunk` that still fit into a body that owes `remaining`
/// bytes.
pub open spec fn within(chunk: Seq<u8>, remaining: u64) -> Seq<u8> {
    if chunk.len() <= remaining {
        chunk
    } else {
        chunk.take(remaining as int)
    }
}

/// What is left to do for a response whose head is written: the state of its
/// body.
#[derive(Clone, Copy, Debug, PartialEq, Eq, Structural)]
pub enum Transfer {
    /// The body is sent as it is, and `remaining` bytes of the announced
    /// length are still owed.
    Unencoded { remaining: u64 },
    /// The body is sent in chunks; `open` until the last chunk is written.
    Chunked { open: bool },
}

impl Transfer {
    /// Whether the body wants more of the file.
    pub open spec fn wants_data(self) -> bool {
        match self {
            Transfer::Unencoded { remaining } => remaining > 0,
            Transfer::Chunked { open } => open,
        }
    }

    /// What a fill of file bytes adds to the output.  An empty fill stands
    /// for the end of the file.  An unencoded body takes no more than it
    /// announced; a chunked body takes every fill as one chunk, the empty
    /// one as its last.
    pub open spec fn emitted(self, chunk: Seq<u8>) -> Seq<u8> {
        match self {
            Transfer::Unencoded { remaining } => within(chunk, remaining),
            Transfer::Chunked { open } => if open {
                chunk_frame(chunk)
            } else {
                Seq::empty()
            },
        }
    }

    /// The state of the body after a fill of file bytes.
    pub open spec fn fed(self, chunk: Seq<u8>) -> Transfer {
        match self {
            Transfer::Unencoded { remaining } => if chunk.len() == 0 {
                Transfer::Unencoded { remaining: 0 }
            } else {
                Transfer::Unencoded { remaining: (remaining - within(chunk, remaining).len()) as u64 }
            },
            Transfer::Chunked { open } => Transfer::Chunked { open: open && chunk.len() > 0 },
        }
    }

    /// How the response ends once the body is complete: an unencoded
    /// response closes the connection, a chunked one keeps it.
    pub open spec fn outcome(self) -> Result<(), HttpErrorView> {
        match self {
            Transfer::Unencoded { .. } => Err(HttpErrorView::ConnectionClosed),
            Transfer::Chunked { .. } => Ok(()),
        }
    }

    /// Tells whether the body wants more of the file.
    pub fn is_open(&self) -> (r: bool)
        ensures
            r == self.wants_data(),
    {
        match self {
            Transfer::Unencoded { remaining } => *remaining > 0,
            Transfer::Chunked { open } => *open,
        }
    }

    /// Writes what a fill of file bytes adds to the body; an empty fill
    /// stands for the end of the file.
    pub fn data(self, con: &mut Connection, chunk: &[u8]) -> (next: Transfer)
        ensures
            next == self.fed(chunk@),
            final(con)@ == (ConnectionView {
                output: old(con)@.output + self.emitted(chunk@),
                ..old(con)@
            }),
    {
        match self {
            Transfer::Unencoded { remaining } => {
                if chunk.len() == 0 {
                    assert(con@.output + Seq::<u8>::empty() == con@.output);
                    Transfer::Unencoded { remaining: 0 }
                } else if chunk.len() as u64 <= remaining {
                    con.write(chunk);
                    Transfer::Unencoded { remaining: remaining - chunk.len() as u64 }
                } else {
                    con.write(slice_subrange(chunk, 0, remaining as usize));
                    Transfer::Unencoded { remaining: 0 }
                }
            },
            Transfer::Chunked { open } => {
                if open {
                    send_chunk(con, chunk);
                } else {
                    assert(con@.output + Seq::<u8>::empty() == con@.output);
                }
                Transfer::Chunked { open: open && chunk.len() > 0 }
            },
        }
    }

    /// Ends the response: tells whether the connection goes on.
    pub fn finish(self) -> (r: Result<(), HttpError>)
        ensures
            crate::error::outcome(r) == self.outcome(),
    {
        match self {
            // Unencoded responses go to HTTP/1.0 clients, which are taken
            // not to use persistent connections.
            Transfer::Unencoded { .. } => Err(HttpError::ConnectionClosed),
            // Leave the connection open for more requests.
            Transfer::Chunked { .. } => Ok(()),
        }
    }
}

fn send_chunk(con: &mut Connection, chunk: &[u8])
    ensures
        final(con)@ == (ConnectionView {
            output: old(con)@.output + chunk_frame(chunk@),
            ..old(con)@
        }),
{
    con.write_hex(chunk.len() as u128);
    con.write("\r\n".as_bytes());
    con.write(chunk);
    con.write("\r\n".as_bytes());
}

/// Writes `data` behind the `written` bytes that the caller has written
/// since the output was `base`.
fn emit(con: &mut Connection, data: &[u8], Ghost(base): Ghost<Seq<u8>>, written: &mut Ghost<Seq<u8>>)
    requires
        old(con)@.output == base + old(written)@,
    ensures
        final(written)@ == old(written)@ + data@,
        final(con)@ == (ConnectionView { output: base + final(written)@, ..old(con)@ }),
{
    con.write(data);
    proof {
        concat_assoc(base, written@, data@);
    }
    *written = Ghost(written@ + data@);
}

/// Begins a response, printing the status line and a set of common headers.
/// The caller should follow up by adding any desired headers and then writing
/// a CRLF.  `date` is the current time as an HTTP date.
pub fn start_response(con: &mut Connection, prot: Protocol, date: &[u8], code: &[u8], msg: &[u8])
    ensures
        final(con)@ == (ConnectionView {
            output: old(con)@.output + response_start(prot, date@, code@, msg@),
            ..old(con)@
        }),
{
    con.write(
        match prot {
            Protocol::Http10 => "HTTP/1.0 ".as_bytes(),
            Protocol::Http11 => "HTTP/1.1 ".as_bytes(),
        },
    );
    con.write(code);
    con.write(" ".as_bytes());
    con.write(msg);
    con.write("\r\nServer: abstract screaming\r\nDate: ".as_bytes());
    con.write(date);
    con.write("\r\n".as_bytes());
}

/// The body of an error response is 28 bytes longer than the reason it
/// gives, which is the length that the response announces.
pub proof fn error_body_len(reason: Seq<u8>)
    ensures
        error_body(reason).len() == reason.len() + 28,
{
    reveal_strlit("<html><body>");
    reveal_strlit("</body></html>\r\n");
    assert(is_ascii("<html><body>"));
    assert(is_ascii("</body></html>\r\n"));
    is_ascii_spec_bytes("<html><body>");
    is_ascii_spec_bytes("</body></html>\r\n");
}

/// An error response with content is the response without content and the
/// body behind it, and the body has the length that both of them announce:
/// that of the reason and 28 bytes more.
pub proof fn error_response_announces_its_body(
    protocol: Option<Protocol>,
    date: Seq<u8>,
    code: Seq<u8>,
    reason: Seq<u8>,
)
    ensures
        error_response(protocol, date, code, reason, true) == error_response(
            protocol,
            date,
            code,
            reason,
            false,
        ) + error_body(reason),
        error_body(reason).len() == reason.len() + 28,
{
    error_body_len(reason);
    let head = error_response(protocol, date, code, reason, false);
    concat_empty(head);
    assert(error_response(protocol, date, code, reason, true) =~= head + error_body(reason));
}

/// Signals the given error to the client; an error without a status is
/// passed over in silence.  `protocol` is the protocol of the request, where
/// one was read; `date` is the current time as an HTTP date.
///
/// The caller is expected to close the connection afterwards.
pub fn barf(
    con: &mut Connection,
    protocol: Option<Protocol>,
    send_content: bool,
    error: HttpError,
    date: &[u8],
)
    ensures
        final(con)@ == (ConnectionView {
            output: old(con)@.output + barfed(protocol, date@, error@, send_content),
            ..old(con)@
        }),
{
    let ghost base = con@.output;
    let ghost before = con@;
    proof {
        concat_empty(base);
    }
    let (code, message) = match error.status() {
        None => {
            return ;
        },
        Some(pair) => pair,
    };
    let prot = match protocol {
        Some(p) => p,
        None => Protocol::Http10,
    };
    start_response(con, prot, date, code, message);
    let mut written = Ghost(response_start(prot, date@, code@, message@));
    emit(con, "Content-Length: ".as_bytes(), Ghost(base), &mut written);
    proof {
        error_body_len(message@);
        concat_assoc(base, written@, decimal(error_body(message@).len()));
    }
    con.write_decimal(message.len() as u128 + 28);  // length of HTML wrapper
    written = Ghost(written@ + decimal(error_body(message@).len()));
    emit(con, "\r\n".as_bytes(), Ghost(base), &mut written);
    let closing = match protocol {
        Some(Protocol::Http11) => true,
        _ => false,
    };
    if closing {
        emit(con, "Connection: close\r\n".as_bytes(), Ghost(base), &mut written);
    } else {
        proof {
            concat_empty(written@);
        }
        written = Ghost(written@ + Seq::<u8>::empty());
    }
    emit(con, "Content-Type: text/html\r\n\r\n".as_bytes(), Ghost(base), &mut written);
    if send_content {
        let ghost head = written@;
        let ghost body = error_body(message@);
        con.write("<html><body>".as_bytes());
        con.write(message);
        con.write("</body></html>\r\n".as_bytes());
        proof {
            assert(con@.output == (base + head) + body);
            concat_assoc(base, head, body);
        }
        written = Ghost(head + body);
    } else {
        proof {
            concat_empty(written@);
        }
        written = Ghost(written@ + Seq::<u8>::empty());
    }
    assert(written@ == barfed(protocol, date@, error@, send_content));
    assert(con@ == (ConnectionView { output: base + written@, ..before }));
}

/// Sends a permanent redirect to the client.  An HTTP/1.1 connection stays
/// open; for HTTP/1.0 the result is `ConnectionClosed`.  `date` is the
/// current time as an HTTP date.
pub fn redirect(
    con: &mut Connection,
    protocol: Protocol,
    send_content: bool,
    location: &[u8],
    date: &[u8],
) -> (r: Result<(), HttpError>)
    ensures
        final(con)@ == (ConnectionView {
            output: old(con)@.output + redirect_response(protocol, date@, location@, send_content),
            ..old(con)@
        }),
        crate::error::outcome(r) == match protocol {
            Protocol::Http10 => Err::<(), HttpErrorView>(HttpErrorView::ConnectionClosed),
            Protocol::Http11 => Ok::<(), HttpErrorView>(()),
        },
{
    let body = "<html><body>moved permanently</body></html>".as_bytes();
    start_response(con, protocol, date, "301".as_bytes(), "moved permanently".as_bytes());
    con.write("Content-Length: ".as_bytes());
    con.write_decimal(body.len() as u128);
    con.write("\r\nLocation: ".as_bytes());
    con.write(location);
    con.write("\r\n".as_bytes());
    con.write("Content-Type: text/html\r\n\r\n".as_bytes());
    if send_content {
        con.write(body);
    }
    match protocol {
        Protocol::Http10 => Err(HttpError::ConnectionClosed),
        Protocol::Http11 => Ok(()),
    }
}

/// Announces the length of an unencoded body.  The body is owed only if
/// `send_content` is set.
pub fn send_unencoded(con: &mut Connection, send_content: bool, resource: &OpenFile) -> (t:
    Transfer)
    ensures
        final(con)@ == (ConnectionView {
            output: old(con)@.output + length_header(resource.length),
            ..old(con)@
        }),
        t == (Transfer::Unencoded {
            remaining: if send_content {
                resource.length
            } else {
                0
            },
        }),
{
    con.write("Content-Length: ".as_bytes());
    con.write_decimal(resource.length as u128);
    con.write("\r\n\r\n".as_bytes());
    Transfer::Unencoded {
        remaining: if send_content {
            resource.length
        } else {
            0
        },
    }
}

/// Announces a chunked body.  The body is owed only if `send_content` is
/// set.
pub fn send_chunked(con: &mut Connection, send_content: bool) -> (t: Transfer)
    ensures
        final(con)@ == (ConnectionView {
            output: old(con)@.output + chunked_header(),
            ..old(con)@
        }),
        t == (Transfer::Chunked { open: send_content }),
{
    con.write("Transfer-Encoding: chunked\r\n\r\n".as_bytes());
    Transfer::Chunked { open: send_content }
}

/// Whether a response to `method` carries the file: it answers a `GET`, and
/// the client's copy is not up to date.
pub open spec fn sends_content(
    method: Method,
    if_modified_since: Option<Seq<u8>>,
    last_modified: Seq<u8>,
) -> bool {
    method == Method::Get && !is_unmodified(if_modified_since, last_modified)
}

/// The state of the body behind the head of a response that serves a file.
pub open spec fn file_transfer(protocol: Protocol, send_content: bool, length: u64) -> Transfer {
    match protocol {
        Protocol::Http10 => Transfer::Unencoded {
            remaining: if send_content {
                length
            } else {
                0
            },
        },
        Protocol::Http11 => Transfer::Chunked { open: send_content },
    }
}

/// What the log says of a response that serves a file.
pub open spec fn file_response_note(
    remote: Seq<u8>,
    if_modified_since: Option<Seq<u8>>,
    last_modified: Seq<u8>,
) -> Seq<u8> {
    if is_unmodified(if_modified_since, last_modified) {
        log_note(remote, lit("note: not modified"))
    } else {
        Seq::empty()
    }
}

/// Writes the head of the response that serves a file, and returns the state
/// of its body.  `date` and `last_modified` are the current time and the
/// time of the file's last modification, as HTTP dates.
pub fn send_dated(
    con: &mut Connection,
    method: Method,
    protocol: Protocol,
    date: &[u8],
    last_modified: &[u8],
    encoding: Option<ContentEncoding>,
    if_modified_since: Option<&[u8]>,
    content_type: &[u8],
    resource: &OpenFile,
) -> (t: Transfer)
    ensures
        final(con)@ == (ConnectionView {
            output: old(con)@.output + file_response_head(
                protocol,
                date@,
                last_modified@,
                encoding,
                opt_slice_view(if_modified_since),
                content_type@,
                resource.length,
            ),
            log: old(con)@.log + file_response_note(
                old(con)@.remote,
                opt_slice_view(if_modified_since),
                last_modified@,
            ),
            ..old(con)@
        }),
        t == file_transfer(
            protocol,
            sends_content(method, opt_slice_view(if_modified_since), last_modified@),
            resource.length,
        ),
{
    let ghost base = con@.output;
    let ghost before = con@;
    let unmodified = match if_modified_since {
        Some(since) => bytes_eq(since, last_modified),
        None => false,
    };
    let mut written;
    if unmodified {
        con.log_other("note: not modified".as_bytes());
        start_response(con, protocol, date, "304".as_bytes(), "not modified".as_bytes());
        written = Ghost(response_start(protocol, date@, lit("304"), lit("not modified")));
    } else {
        proof {
            concat_empty(con@.log);
        }
        start_response(con, protocol, date, "200".as_bytes(), "OK".as_bytes());
        written = Ghost(response_start(protocol, date@, lit("200"), lit("OK")));
    }
    let ghost logged = con@;
    assert(logged == (ConnectionView {
        output: base + written@,
        log: before.log + file_response_note(
            before.remote,
            opt_slice_view(if_modified_since),
            last_modified@,
        ),
        ..before
    }));
    emit(con, "Content-Type: ".as_bytes(), Ghost(base), &mut written);
    emit(con, content_type, Ghost(base), &mut written);
    emit(con, "\r\n".as_bytes(), Ghost(base), &mut written);

    emit(con, "Last-Modified: ".as_bytes(), Ghost(base), &mut written);
    emit(con, last_modified, Ghost(base), &mut written);
    emit(con, "\r\n".as_bytes(), Ghost(base), &mut written);

    if encoding.is_some() && !unmodified {
        emit(con, "Content-Encoding: gzip\r\n".as_bytes(), Ghost(base), &mut written);
    } else {
        proof {
            concat_empty(written@);
        }
        written = Ghost(written@ + Seq::<u8>::empty());
    }
    let send_content = method == Method::Get && !unmodified;
    proof {
        concat_assoc(base, written@, framing_header(protocol, resource.length));
    }
    let t = match protocol {
        Protocol::Http10 => send_unencoded(con, send_content, resource),
        Protocol::Http11 => send_chunked(con, send_content),
    };
    written = Ghost(written@ + framing_header(protocol, resource.length));
    assert(written@ == file_response_head(
        protocol,
        date@,
        last_modified@,
        encoding,
        opt_slice_view(if_modified_since),
        content_type@,
        resource.length,
    ));
    assert(con@ == (ConnectionView { output: base + written@, ..logged }));
    t
}

/// Writes the head of the response that serves `resource`, and returns the
/// state of its body.  `now` is the current time.
pub fn send(
    con: &mut Connection,
    method: Method,
    protocol: Protocol,
    now: Timestamp,
    encoding: Option<ContentEncoding>,
    if_modified_since: Option<&[u8]>,
    content_type: &[u8],
    resource: OpenFile,
) -> (t: Transfer)
    requires
        now.has_date(),
        resource.mtime.has_date(),
    ensures
        final(con)@ == (ConnectionView {
            output: old(con)@.output + file_response_head(
                protocol,
                now.date(),
                resource.mtime.date(),
                encoding,
                opt_slice_view(if_modified_since),
                content_type@,
                resource.length,
            ),
            log: old(con)@.log + file_response_note(
                old(con)@.remote,
                opt_slice_view(if_modified_since),
                resource.mtime.date(),
            ),
            ..old(con)@
        }),
        t == file_transfer(
            protocol,
            sends_content(method, opt_slice_view(if_modified_since), resource.mtime.date()),
            resource.length,
        ),
{
    let mtime = resource.mtime.http_date();
    let date = now.http_date();
    send_dated(
        con,
        method,
        protocol,
        date.as_slice(),
        mtime.as_slice(),
        encoding,
        if_modified_since,
        content_type,
        &resource,
    )
}

/// What a body adds to the output when the fills of file bytes reach it in
/// order, and the state that it ends in.
pub open spec fn streamed(t: Transfer, fills: Seq<Seq<u8>>) -> (Seq<u8>, Transfer)
    decreases fills.len(),
{
    if fills.len() == 0 {
        (Seq::empty(), t)
    } else {
        let (out, end) = streamed(t.fed(fills[0]), fills.skip(1));
        (t.emitted(fills[0]) + out, end)
    }
}

/// The fills, one behind the other.
pub open spec fn flat(fills: Seq<Seq<u8>>) -> Seq<u8>
    decreases fills.len(),
{
    if fills.len() == 0 {
        Seq::empty()
    } else {
        fills[0] + flat(fills.skip(1))
    }
}

/// The fills, each framed as a chunk, one behind the other.
pub open spec fn frames(fills: Seq<Seq<u8>>) -> Seq<u8>
    decreases fills.len(),
{
    if fills.len() == 0 {
        Seq::empty()
    } else {
        chunk_frame(fills[0]) + frames(fills.skip(1))
    }
}

/// Whether no fill is empty: the file has not ended.
pub open spec fn all_filled(fills: Seq<Seq<u8>>) -> bool {
    forall|i: int| 0 <= i < fills.len() ==> (#[trigger] fills[i]).len() > 0
}

/// The chunk that ends a chunked body is `0`, a line end, and one more line
/// end.
pub proof fn last_chunk_is_zero()
    ensures
        chunk_frame(Seq::empty()) == lit("0\r\n\r\n"),
{
    reveal_strlit("0\r\n\r\n");
    reveal_strlit("\r\n");
    assert(is_ascii("0\r\n\r\n"));
    assert(is_ascii("\r\n"));
    is_ascii_spec_bytes("0\r\n\r\n");
    is_ascii_spec_bytes("\r\n");
    assert(chunk_frame(Seq::empty()) =~= lit("0\r\n\r\n"));
}

/// A body that wants no data writes nothing, whatever reaches it.  This is
/// the body of every response to a `HEAD`, and of every response that finds
/// the client's copy up to date.
pub proof fn complete_body_stays_silent(t: Transfer, fills: Seq<Seq<u8>>)
    requires
        !t.wants_data(),
    ensures
        streamed(t, fills).0 == Seq::<u8>::empty(),
        !streamed(t, fills).1.wants_data(),
    decreases fills.len(),
{
    if fills.len() > 0 {
        complete_body_stays_silent(t.fed(fills[0]), fills.skip(1));
        assert(t.emitted(fills[0]) =~= Seq::<u8>::empty());
        concat_empty(Seq::<u8>::empty());
    }
}

/// A chunked body frames every fill as a chunk and ends with the chunk of
/// length zero, which the end of the file brings about.
pub proof fn chunked_body_ends_in_zero(fills: Seq<Seq<u8>>)
    requires
        all_filled(fills),
    ensures
        streamed(Transfer::Chunked { open: true }, fills.push(Seq::empty())) == (
            frames(fills) + lit("0\r\n\r\n"),
            Transfer::Chunked { open: false },
        ),
    decreases fills.len(),
{
    let open = Transfer::Chunked { open: true };
    let all = fills.push(Seq::empty());
    if fills.len() == 0 {
        last_chunk_is_zero();
        assert(all.skip(1).len() == 0);
        assert(streamed(open.fed(all[0]), all.skip(1)) == (Seq::<u8>::empty(), open.fed(all[0])));
        concat_empty(lit("0\r\n\r\n"));
    } else {
        let rest = fills.skip(1);
        assert(fills[0].len() > 0);
        assert forall|i: int| 0 <= i < rest.len() implies (#[trigger] rest[i]).len() > 0 by {
            assert(rest[i] == fills[i + 1]);
        }
        chunked_body_ends_in_zero(rest);
        assert(all.skip(1) == rest.push(Seq::empty()));
        assert(all[0] == fills[0]);
        concat_assoc(chunk_frame(fills[0]), frames(rest), lit("0\r\n\r\n"));
    }
}

/// An unencoded body is the file up to the length that the response
/// announced: where the file holds at least that much, exactly the
/// announced number of bytes is written, and never more.
pub proof fn unencoded_body_keeps_its_length(length: u64, fills: Seq<Seq<u8>>)
    requires
        all_filled(fills),
    ensures
        streamed(Transfer::Unencoded { remaining: length }, fills).0 == within(
            flat(fills),
            length,
        ),
        streamed(Transfer::Unencoded { remaining: length }, fills).0.len() <= length,
        flat(fills).len() >= length ==> streamed(
            Transfer::Unencoded { remaining: length },
            fills,
        ).0.len() == length,
    decreases fills.len(),
{
    let t = Transfer::Unencoded { remaining: length };
    if fills.len() == 0 {
        assert(within(flat(fills), length) =~= Seq::<u8>::empty());
    } else {
        let rest = fills.skip(1);
        assert(fills[0].len() > 0);
        assert forall|i: int| 0 <= i < rest.len() implies (#[trigger] rest[i]).len() > 0 by {
            assert(rest[i] == fills[i + 1]);
        }
        let left = (length - within(fills[0], length).len()) as u64;
        assert(t.fed(fills[0]) == Transfer::Unencoded { remaining: left });
        unencoded_body_keeps_its_length(left, rest);
        assert(within(fills[0], length) + within(flat(rest), left) =~= within(
            fills[0] + flat(rest),
            length,
        ));
    }
}

/// The end of the file completes an unencoded body, however much of the
/// announced length is still owed.
pub proof fn unencoded_body_ends_with_file(length: u64, fills: Seq<Seq<u8>>)
    ensures
        streamed(Transfer::Unencoded { remaining: length }, fills.push(Seq::empty())).1
            == (Transfer::Unencoded { remaining: 0 }),
        streamed(Transfer::Unencoded { remaining: length }, fills.push(Seq::empty())).0
            == streamed(Transfer::Unencoded { remaining: length }, fills).0,
    decreases fills.len(),
{
    let t = Transfer::Unencoded { remaining: length };
    let all = fills.push(Seq::empty());
    if fills.len() == 0 {
        assert(all.skip(1).len() == 0);
        assert(streamed(t.fed(all[0]), all.skip(1)) == (Seq::<u8>::empty(), t.fed(all[0])));
        assert(t.emitted(all[0]) =~= Seq::<u8>::empty());
        concat_empty(Seq::<u8>::empty());
    } else {
        let left = t.fed(fills[0])->remaining;
        unencoded_body_ends_with_file(left, fills.skip(1));
        assert(all.skip(1) == fills.skip(1).push(Seq::empty()));
        assert(all[0] == fills[0]);
    }
}

/// Every response that serves a file frames its body as its protocol has
/// it.  When the file's bytes have reached the body, fill by fill, and then
/// the end of the file:
///
/// - a response without content, which answers a `HEAD` or finds the
///   client's copy up to date, has written no body at all;
/// - an HTTP/1.1 response has written every fill as a chunk, and `0`, a line
///   end and one more line end behind the last;
/// - an HTTP/1.0 response has written the file up to the length that its
///   head announced: exactly that many bytes where the file holds them, and
///   never more;
///
/// and the body is complete.
pub proof fn body_is_framed(
    protocol: Protocol,
    send_content: bool,
    length: u64,
    fills: Seq<Seq<u8>>,
)
    requires
        all_filled(fills),
    ensures
        ({
            let body = streamed(
                file_transfer(protocol, send_content, length),
                fills.push(Seq::empty()),
            );
            &&& !body.1.wants_data()
            &&& !send_content ==> body.0 == Seq::<u8>::empty()
            &&& send_content && protocol == Protocol::Http11 ==> body.0 == frames(fills) + lit(
                "0\r\n\r\n",
            )
            &&& send_content && protocol == Protocol::Http10 ==> {
                &&& body.0 == within(flat(fills), length)
                &&& body.0.len() <= length
                &&& flat(fills).len() >= length ==> body.0.len() == length
            }
        }),
{
    let t = file_transfer(protocol, send_content, length);
    let all = fills.push(Seq::empty());
    if !send_content {
        complete_body_stays_silent(t, all);
    } else {
        match protocol {
            Protocol::Http11 => {
                chunked_body_ends_in_zero(fills);
            },
            Protocol::Http10 => {
                unencoded_body_keeps_its_length(length, fills);
                unencoded_body_ends_with_file(length, fills);
            },
        }
    }
}

} // verus!
