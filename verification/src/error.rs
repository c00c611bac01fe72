//! HTTP protocol errors.

use vstd::prelude::*;
use crate::bytes::lit;

verus! {

/// The kinds of operating-system failure that the server tells apart.
#[derive(Clone, Copy, Debug, PartialEq, Eq, Structural)]
pub enum IoErrorKind {
    /// The named object does not exist.
    NotFound,
    /// The operation lacked the privilege to complete.
    PermissionDenied,
    /// The operation's deadline passed.
    TimedOut,
    /// Anything else.
    Other,
}

/// A failed input or output operation, as plain values.
#[derive(Debug)]
pub struct IoError {
    /// What went wrong, as far as the server cares.
    pub kind: IoErrorKind,
    /// The system's description of the failure.
    pub description: Vec<u8>,
}

/// The mathematical content of an [`IoError`].
#[verifier::ext_equal]
pub struct IoErrorView {
    pub kind: IoErrorKind,
    pub description: Seq<u8>,
}

impl View for IoError {
    type V = IoErrorView;

    open spec fn view(&self) -> IoErrorView {
        IoErrorView { kind: self.kind, description: self.description@ }
    }
}

/// Errors that may kill off an HTTP request or connection.
#[derive(Debug)]
pub enum HttpError {
    /// The client has gone away or sent us something that leads us to believe
    /// that they'd like to.  This is the one error that can't reasonably be
    /// reported back to the client.  Other results are occasionally coerced
    /// into this error to force a connection closed.
    ConnectionClosed,
    /// 400 - The initial request-line was malformed, e.g. contained too few
    /// or too many space-separated tokens.
    BadRequest,
    /// 404 - The requested resource was not found, or we're acting like it
    /// wasn't due to permissions mismatch.  The context message is logged but
    /// not revealed to the client, since it may let them learn about the
    /// presence of unreadable files.
    NotFound(&'static [u8]),
    /// 408 - The client didn't send data within the time we were willing to
    /// wait.
    RequestTimeout,
    /// 412 - The client sent 'If-Match' or 'If-Unmodified-Since' headers, and
    /// we are treating the test they described as having failed.
    PreconditionFailed,
    /// 417 - The client sent the 'Expect' header, which we were ironically
    /// not expecting.
    SpanishInquisition,
    /// 501 - The client used a method other than GET or HEAD.
    BadMethod,
    /// 501 - The client has tried to use an aspect of HTTP that we don't
    /// implement, but which doesn't have a specific HTTP status code.  The
    /// context message is revealed to the client.
    NotImplemented(&'static [u8]),
    /// 505 - The protocol sent by the client was unrecognized.
    BadProtocol,
    /// 500 - An operating-system failure that no other variant stands for.
    IoError(IoError),
}

/// The mathematical content of an [`HttpError`].
#[verifier::ext_equal]
pub enum HttpErrorView {
    ConnectionClosed,
    BadRequest,
    NotFound(Seq<u8>),
    RequestTimeout,
    PreconditionFailed,
    SpanishInquisition,
    BadMethod,
    NotImplemented(Seq<u8>),
    BadProtocol,
    IoError(IoErrorView),
}

impl View for HttpError {
    type V = HttpErrorView;

    open spec fn view(&self) -> HttpErrorView {
        match *self {
            HttpError::ConnectionClosed => HttpErrorView::ConnectionClosed,
            HttpError::BadRequest => HttpErrorView::BadRequest,
            HttpError::NotFound(m) => HttpErrorView::NotFound(m@),
            HttpError::RequestTimeout => HttpErrorView::RequestTimeout,
            HttpError::PreconditionFailed => HttpErrorView::PreconditionFailed,
            HttpError::SpanishInquisition => HttpErrorView::SpanishInquisition,
            HttpError::BadMethod => HttpErrorView::BadMethod,
            HttpError::NotImplemented(m) => HttpErrorView::NotImplemented(m@),
            HttpError::BadProtocol => HttpErrorView::BadProtocol,
            HttpError::IoError(e) => HttpErrorView::IoError(e@),
        }
    }
}

impl HttpErrorView {
    /// The status code and the short reason that report this error to the
    /// client; `None` for the one error that is not reported.
    pub open spec fn status(self) -> Option<(Seq<u8>, Seq<u8>)> {
        match self {
            HttpErrorView::ConnectionClosed => None,
            HttpErrorView::BadRequest => Some((lit("400"), lit("bad request"))),
            HttpErrorView::NotFound(_) => Some((lit("404"), lit("not found"))),
            HttpErrorView::RequestTimeout => Some((lit("408"), lit("type faster"))),
            HttpErrorView::PreconditionFailed => Some((lit("412"), lit("precondition failed"))),
            HttpErrorView::SpanishInquisition => Some((lit("417"), lit("unexpected"))),
            HttpErrorView::IoError(e) => Some((lit("500"), e.description)),
            HttpErrorView::BadMethod => Some((lit("501"), lit("bad method"))),
            HttpErrorView::NotImplemented(m) => Some((lit("501"), m)),
            HttpErrorView::BadProtocol => Some((lit("505"), lit("bad protocol"))),
        }
    }

    /// What the log says of this error; `None` where nothing is logged.
    pub open spec fn log_message(self) -> Option<Seq<u8>> {
        match self {
            HttpErrorView::ConnectionClosed => None,
            HttpErrorView::BadRequest => Some(lit("bad request")),
            HttpErrorView::NotFound(m) => Some(m),
            HttpErrorView::RequestTimeout => None,
            HttpErrorView::PreconditionFailed => Some(lit("precondition failed")),
            HttpErrorView::SpanishInquisition => Some(lit("unexpected")),
            HttpErrorView::IoError(e) => Some(e.description),
            HttpErrorView::BadMethod => Some(lit("bad method")),
            HttpErrorView::NotImplemented(m) => Some(m),
            HttpErrorView::BadProtocol => Some(lit("bad protocol")),
        }
    }

    /// The error that an operating-system failure turns into: the expected
    /// kinds become richer errors, the rest stays an I/O error.
    pub open spec fn from_io(e: IoErrorView) -> HttpErrorView {
        match e.kind {
            IoErrorKind::NotFound => HttpErrorView::NotFound(lit("io not found")),
            IoErrorKind::PermissionDenied => HttpErrorView::NotFound(lit("io permission denied")),
            IoErrorKind::TimedOut => HttpErrorView::RequestTimeout,
            IoErrorKind::Other => HttpErrorView::IoError(e),
        }
    }
}

impl HttpError {
    /// Returns the numeric HTTP status code appropriate for this error, along
    /// with a short ASCII-encoded explanatory message.
    pub fn status<'a>(&'a self) -> (r: Option<(&'a [u8], &'a [u8])>)
        ensures
            match r {
                Some((code, message)) => self@.status() == Some((code@, message@)),
                None => self@.status() is None,
            },
    {
        match self {
            HttpError::ConnectionClosed => None,
            HttpError::BadRequest => Some(("400".as_bytes(), "bad request".as_bytes())),
            HttpError::NotFound(_) => Some(("404".as_bytes(), "not found".as_bytes())),
            HttpError::RequestTimeout => Some(("408".as_bytes(), "type faster".as_bytes())),
            HttpError::PreconditionFailed => Some(
                ("412".as_bytes(), "precondition failed".as_bytes()),
            ),
            HttpError::SpanishInquisition => Some(("417".as_bytes(), "unexpected".as_bytes())),
            HttpError::IoError(e) => Some(("500".as_bytes(), e.description.as_slice())),
            HttpError::BadMethod => Some(("501".as_bytes(), "bad method".as_bytes())),
            HttpError::NotImplemented(m) => Some(("501".as_bytes(), *m)),
            HttpError::BadProtocol => Some(("505".as_bytes(), "bad protocol".as_bytes())),
        }
    }

    /// Returns a description of this error appropriate for a trusted
    /// audience, such as a log file.
    pub fn log_message<'a>(&'a self) -> (r: Option<&'a [u8]>)
        ensures
            match r {
                Some(message) => self@.log_message() == Some(message@),
                None => self@.log_message() is None,
            },
    {
        match self {
            HttpError::ConnectionClosed => None,
            HttpError::BadRequest => Some("bad request".as_bytes()),
            HttpError::NotFound(m) => Some(*m),
            HttpError::RequestTimeout => None,
            HttpError::PreconditionFailed => Some("precondition failed".as_bytes()),
            HttpError::SpanishInquisition => Some("unexpected".as_bytes()),
            HttpError::IoError(e) => Some(e.description.as_slice()),
            HttpError::BadMethod => Some("bad method".as_bytes()),
            HttpError::NotImplemented(m) => Some(*m),
            HttpError::BadProtocol => Some("bad protocol".as_bytes()),
        }
    }

    /// Turns an operating-system failure into the error that the server
    /// reports for it.
    pub fn from_io(e: IoError) -> (r: HttpError)
        ensures
            r@ == HttpErrorView::from_io(e@),
    {
        match e.kind {
            IoErrorKind::NotFound => HttpError::NotFound("io not found".as_bytes()),
            IoErrorKind::PermissionDenied => HttpError::NotFound(
                "io permission denied".as_bytes(),
            ),
            IoErrorKind::TimedOut => HttpError::RequestTimeout,
            IoErrorKind::Other => HttpError::IoError(e),
        }
    }
}

/// The mathematical content of a result whose error is an [`HttpError`].
pub open spec fn outcome<T: View>(r: Result<T, HttpError>) -> Result<T::V, HttpErrorView> {
    match r {
        Ok(v) => Ok(v@),
        Err(e) => Err(e@),
    }
}

/// The mathematical content of a result whose error is an [`IoError`].
pub open spec fn io_outcome<T>(r: Result<T, IoError>) -> Result<T, IoErrorView> {
    match r {
        Ok(v) => Ok(v),
        Err(e) => Err(e@),
    }
}

} // verus!
