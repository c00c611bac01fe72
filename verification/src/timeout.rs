//! The rule for waiting on a descriptor: a wait that ends without the
//! descriptor being ready is a failure.

use vstd::prelude::*;
use crate::bytes::{lit, to_vec};
use crate::error::{io_outcome, IoError, IoErrorKind, IoErrorView};

verus! {

/// How many seconds a read waits for the client to send something.
pub const READ_TIMEOUT_SECS: u32 = 60;

/// How many seconds a write waits for the client to take something.
pub const WRITE_TIMEOUT_SECS: u32 = 60;

/// What a wait amounts to.  `waited` tells whether the descriptor was ready
/// when the wait ended, or how the wait itself failed.
pub open spec fn wait_outcome(waited: Result<bool, IoErrorView>) -> Result<(), IoErrorView> {
    match waited {
        Ok(ready) => if ready {
            Ok(())
        } else {
            Err(IoErrorView { kind: IoErrorKind::TimedOut, description: lit("timed out") })
        },
        Err(e) => Err(e),
    }
}

/// Judges a wait for a descriptor: when the time has passed and the
/// descriptor is still not ready, the result is a timeout.  Timeouts are
/// reported, not retried.
pub fn ready_or_timed_out(waited: Result<bool, IoError>) -> (r: Result<(), IoError>)
    ensures
        io_outcome(r) == wait_outcome(io_outcome(waited)),
{
    match waited {
        Ok(true) => Ok(()),
        Ok(false) => Err(
            IoError { kind: IoErrorKind::TimedOut, description: to_vec("timed out".as_bytes()) },
        ),
        Err(e) => Err(e),
    }
}

} // verus!
