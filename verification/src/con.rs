//! HTTP connection management.
//!
//! A `Connection` is the buffered half of a connection: what has arrived
//! from the client and is not yet consumed, what is written and not yet
//! sent, and what is logged and not yet handed to the log.  Moving bytes
//! between these buffers and the outside world is the caller's part.

use vstd::prelude::*;
use vstd::string::*;
use vstd::utf8::encode_utf8;
use crate::bytes::{after, first_index, first_index_is_first, lit, opt_slice_view, indexof};
use crate::error::{outcome, HttpError, HttpErrorView};

verus! {

/// The buffers of one client connection.
pub struct Connection {
    input: Vec<u8>,
    output: Vec<u8>,
    error: Vec<u8>,
    remote: String,
}

/// The mathematical content of a [`Connection`].
#[verifier::ext_equal]
pub struct ConnectionView {
    /// Bytes that arrived from the client and are not yet consumed.
    pub input: Seq<u8>,
    /// Bytes written to the client and not yet taken for sending.
    pub output: Seq<u8>,
    /// Log bytes not yet taken for the log.
    pub log: Seq<u8>,
    /// The client's address, which begins every log line.
    pub remote: Seq<u8>,
}

impl View for Connection {
    type V = ConnectionView;

    closed spec fn view(&self) -> ConnectionView {
        ConnectionView {
            input: self.input@,
            output: self.output@,
            log: self.error@,
            remote: encode_utf8(self.remote@),
        }
    }
}

impl ConnectionView {
    /// The connection after `data` arrived from the client.
    pub open spec fn received(self, data: Seq<u8>) -> ConnectionView {
        ConnectionView { input: self.input + data, ..self }
    }

    /// The connection after `data` was written to the client.
    pub open spec fn wrote(self, data: Seq<u8>) -> ConnectionView {
        ConnectionView { output: self.output + data, ..self }
    }

    /// The connection after `lines` were logged.
    pub open spec fn logged(self, lines: Seq<u8>) -> ConnectionView {
        ConnectionView { log: self.log + lines, ..self }
    }
}

/// Whether `input` holds a complete line.
pub open spec fn has_line(input: Seq<u8>) -> bool {
    input.contains('\n' as u8)
}

/// The first line of `input` without its delimiter, which is a line feed or
/// a carriage return and a line feed.
pub open spec fn first_line(input: Seq<u8>) -> Seq<u8> {
    let raw = input.take(first_index(input, '\n' as u8));
    if raw.len() > 0 && raw.last() == '\r' as u8 {
        raw.drop_last()
    } else {
        raw
    }
}

/// What follows the first line of `input`; nothing where `input` holds no
/// complete line.
pub open spec fn after_first_line(input: Seq<u8>) -> Seq<u8> {
    after(input, first_index(input, '\n' as u8) + 1)
}

/// The longest line that is accepted, not counting its delimiter.
pub const MAX_LINE_BYTES: usize = 16384;

/// What taking a line off `input` gives: the first line, unless it is too
/// long.  Where `input` holds no complete line, the client has sent more
/// than a line may hold, or has gone away.
pub open spec fn line_read(input: Seq<u8>) -> Result<Seq<u8>, HttpErrorView> {
    if has_line(input) {
        if first_line(input).len() > MAX_LINE_BYTES {
            Err(HttpErrorView::BadRequest)
        } else {
            Ok(first_line(input))
        }
    } else if input.len() > MAX_LINE_BYTES + 1 {
        Err(HttpErrorView::BadRequest)
    } else {
        Err(HttpErrorView::ConnectionClosed)
    }
}

/// The digit that stands for `d` in a base of up to 16, letters in lower
/// case.
pub open spec fn digit(d: nat) -> u8 {
    if d < 10 {
        ('0' as u8 + d) as u8
    } else {
        ('a' as u8 + d - 10) as u8
    }
}

/// `n` in decimal, most significant digit first, without padding.
pub open spec fn decimal(n: nat) -> Seq<u8>
    decreases n,
{
    if n < 10 {
        seq![digit(n)]
    } else {
        decimal(n / 10).push(digit(n % 10))
    }
}

/// `n` in lower-case hexadecimal, most significant digit first, without
/// padding.
pub open spec fn hex(n: nat) -> Seq<u8>
    decreases n,
{
    if n < 16 {
        seq![digit(n)]
    } else {
        hex(n / 16).push(digit(n % 16))
    }
}

/// The size of the buffer through which the client's input is read.
pub const INPUT_BUF_BYTES: usize = 1024;

/// The size of the buffer through which output is sent to the client.
pub const OUTPUT_BUF_BYTES: usize = 1024;

/// The size of the buffer through which the log is written.
pub const LOG_BUF_BYTES: usize = 256;

/// The longest path that a log line shows in full.
pub const LOG_PATH_MAX: usize = 100;

/// A path as the log shows it: cut to its first 100 bytes and marked with
/// `...` where it is longer.
pub open spec fn log_path(path: Seq<u8>) -> Seq<u8> {
    if path.len() > LOG_PATH_MAX {
        path.take(LOG_PATH_MAX as int) + lit("...")
    } else {
        path
    }
}

/// A context as the log shows it: in square brackets behind a space.
pub open spec fn log_context(context: Option<Seq<u8>>) -> Seq<u8> {
    match context {
        Some(c) => lit(" [") + c + lit("]"),
        None => Seq::empty(),
    }
}

/// The log line for an attempt to read `path`.
pub open spec fn log_line(
    remote: Seq<u8>,
    path: Seq<u8>,
    context: Option<Seq<u8>>,
    msg: Seq<u8>,
) -> Seq<u8> {
    remote + lit(" read ") + log_path(path) + log_context(context) + lit(": ") + msg + lit("\n")
}

/// The log line for a note that concerns no path.
pub open spec fn log_note(remote: Seq<u8>, message: Seq<u8>) -> Seq<u8> {
    remote + lit(" ") + message + lit("\n")
}

fn push_digit(out: &mut Vec<u8>, d: u128)
    requires
        d < 16,
    ensures
        final(out)@ == old(out)@.push(digit(d as nat)),
{
    if d < 10 {
        out.push('0' as u8 + d as u8);
    } else {
        out.push('a' as u8 + (d as u8 - 10));
    }
}

fn push_decimal(out: &mut Vec<u8>, n: u128)
    ensures
        final(out)@ == old(out)@ + decimal(n as nat),
    decreases n,
{
    if n < 10 {
        push_digit(out, n);
    } else {
        push_decimal(out, n / 10);
        push_digit(out, n % 10);
    }
}

fn push_hex(out: &mut Vec<u8>, n: u128)
    ensures
        final(out)@ == old(out)@ + hex(n as nat),
    decreases n,
{
    if n < 16 {
        push_digit(out, n);
    } else {
        push_hex(out, n / 16);
        push_digit(out, n % 16);
    }
}

impl Connection {
    /// A connection to the client at `remote`, with all buffers empty.
    pub fn new(remote: String) -> (c: Connection)
        ensures
            c@ == (ConnectionView {
                input: Seq::empty(),
                output: Seq::empty(),
                log: Seq::empty(),
                remote: encode_utf8(remote@),
            }),
    {
        Connection { input: Vec::new(), output: Vec::new(), error: Vec::new(), remote }
    }

    /// Takes in bytes that arrived from the client.
    pub fn receive(&mut self, data: &[u8])
        ensures
            final(self)@ == (ConnectionView { input: old(self)@.input + data@, ..old(self)@ }),
    {
        self.input.extend_from_slice(data);
    }

    /// Reads a CRLF-terminated line, of the sort used in HTTP requests, off
    /// the input.  A successful result describes an entire line: if the
    /// input ends before a line feed, the rest of it is dropped and the
    /// result is `ConnectionClosed`.  A line of more than `MAX_LINE_BYTES`
    /// bytes is consumed like any other, but the result is `BadRequest`;
    /// so it is where the input holds more than a line and its delimiter
    /// could, and no line feed.
    ///
    /// Lines that end in a bare line feed are accepted as well.  The
    /// delimiter is removed before the result is returned.
    pub fn readline(&mut self) -> (r: Result<Vec<u8>, HttpError>)
        ensures
            final(self)@ == (ConnectionView {
                input: after_first_line(old(self)@.input),
                ..old(self)@
            }),
            outcome(r) == line_read(old(self)@.input),
    {
        proof {
            first_index_is_first(self.input@, '\n' as u8);
        }
        let n = indexof(self.input.as_slice(), '\n' as u8);
        if n == self.input.len() {
            self.input.clear();
            return if n > MAX_LINE_BYTES + 1 {
                Err(HttpError::BadRequest)
            } else {
                Err(HttpError::ConnectionClosed)
            };
        }
        let mut line = self.input.split_off(n + 1);
        std::mem::swap(&mut self.input, &mut line);
        line.pop();
        assert(line@ == old(self)@.input.take(n as int));
        if line.len() > 0 && line[line.len() - 1] == '\r' as u8 {
            line.pop();
        }
        if line.len() > MAX_LINE_BYTES {
            return Err(HttpError::BadRequest);
        }
        Ok(line)
    }

    /// Writes `data` to the client.
    pub fn write(&mut self, data: &[u8])
        ensures
            final(self)@ == (ConnectionView { output: old(self)@.output + data@, ..old(self)@ }),
    {
        self.output.extend_from_slice(data);
    }

    /// Writes `value` to the client in decimal.
    pub fn write_decimal(&mut self, value: u128)
        ensures
            final(self)@ == (ConnectionView {
                output: old(self)@.output + decimal(value as nat),
                ..old(self)@
            }),
    {
        push_decimal(&mut self.output, value);
    }

    /// Writes `value` to the client in lower-case hexadecimal.
    pub fn write_hex(&mut self, value: u128)
        ensures
            final(self)@ == (ConnectionView {
                output: old(self)@.output + hex(value as nat),
                ..old(self)@
            }),
    {
        push_hex(&mut self.output, value);
    }

    /// Hands over what was written to the client since the last call, for
    /// sending, and leaves the output buffer empty.
    pub fn flush_output(&mut self) -> (sent: Vec<u8>)
        ensures
            sent@ == old(self)@.output,
            final(self)@ == (ConnectionView { output: Seq::empty(), ..old(self)@ }),
    {
        let mut sent: Vec<u8> = Vec::new();
        std::mem::swap(&mut self.output, &mut sent);
        sent
    }

    /// Hands over what was logged since the last call and leaves the log
    /// buffer empty.
    pub fn flush_log(&mut self) -> (logged: Vec<u8>)
        ensures
            logged@ == old(self)@.log,
            final(self)@ == (ConnectionView { log: Seq::empty(), ..old(self)@ }),
    {
        let mut logged: Vec<u8> = Vec::new();
        std::mem::swap(&mut self.error, &mut logged);
        logged
    }

    /// Logs an attempt to read `path`: one line that begins with the remote
    /// address, shows at most the first 100 bytes of the path, and gives
    /// the context, if any, in brackets.
    pub fn log(&mut self, path: &[u8], context: Option<&'static [u8]>, msg: &[u8])
        ensures
            final(self)@ == (ConnectionView {
                log: old(self)@.log + log_line(
                    old(self)@.remote,
                    path@,
                    opt_slice_view(context),
                    msg@,
                ),
                ..old(self)@
            }),
    {
        self.error.extend_from_slice(self.remote.as_str().as_bytes());
        self.error.extend_from_slice(" read ".as_bytes());
        if path.len() > LOG_PATH_MAX {
            self.error.extend_from_slice(vstd::slice::slice_subrange(path, 0, LOG_PATH_MAX));
            self.error.extend_from_slice("...".as_bytes());
        } else {
            self.error.extend_from_slice(path);
        }
        if let Some(c) = context {
            self.error.extend_from_slice(" [".as_bytes());
            self.error.extend_from_slice(c);
            self.error.extend_from_slice("]".as_bytes());
        }
        self.error.extend_from_slice(": ".as_bytes());
        self.error.extend_from_slice(msg);
        self.error.extend_from_slice("\n".as_bytes());
    }

    /// Logs a note that concerns no path: one line that begins with the
    /// remote address.
    pub fn log_other(&mut self, message: &[u8])
        ensures
            final(self)@ == (ConnectionView {
                log: old(self)@.log + log_note(old(self)@.remote, message@),
                ..old(self)@
            }),
    {
        self.error.extend_from_slice(self.remote.as_str().as_bytes());
        self.error.extend_from_slice(" ".as_bytes());
        self.error.extend_from_slice(message);
        self.error.extend_from_slice("\n".as_bytes());
    }
}

} // verus!
