//! Points in time, and their form in HTTP headers.

use vstd::prelude::*;

verus! {

/// A point in time, in whole seconds since the start of 1970 (UTC); negative
/// for a time before that.
#[derive(Clone, Copy, Debug, PartialEq, Eq, Structural)]
pub struct Timestamp {
    pub secs: i64,
}

/// The first second that has no HTTP date: the start of the year 10000.
pub const HTTP_DATE_END: i64 = 253402300800;

/// The HTTP date (IMF-fixdate, as in `Sun, 06 Nov 1994 08:49:37 GMT`) of the
/// second that lies `secs` seconds after the start of 1970.
pub uninterp spec fn http_date(secs: u64) -> Seq<u8>;

/// Formats a time with `httpdate::fmt_http_date`.  The result depends on
/// nothing but the whole seconds since the start of 1970; the call is left
/// out for times from the year 10000 on, which it does not accept.
#[verifier::external_body]
fn fmt_http_date(secs: u64) -> (r: Vec<u8>)
    requires
        secs < HTTP_DATE_END,
    ensures
        r@ == http_date(secs),
{
    let time = std::time::UNIX_EPOCH + std::time::Duration::from_secs(secs);
    httpdate::fmt_http_date(time).into_bytes()
}

impl Timestamp {
    /// Whether the time has an HTTP date: it lies in the years 1970 to 9999.
    pub open spec fn has_date(self) -> bool {
        0 <= self.secs < HTTP_DATE_END
    }

    /// The time's HTTP date.
    pub open spec fn date(self) -> Seq<u8>
        recommends
            self.has_date(),
    {
        http_date(self.secs as u64)
    }

    /// Tells whether the time has an HTTP date.
    pub fn is_datable(&self) -> (r: bool)
        ensures
            r == self.has_date(),
    {
        0 <= self.secs && self.secs < HTTP_DATE_END
    }

    /// Formats the time as an HTTP date.
    pub fn http_date(&self) -> (r: Vec<u8>)
        requires
            self.has_date(),
        ensures
            r@ == self.date(),
    {
        fmt_http_date(self.secs as u64)
    }

    /// Formats the time as an HTTP date, if it has one.
    pub fn checked_http_date(&self) -> (r: Option<Vec<u8>>)
        ensures
            match r {
                Some(date) => self.has_date() && date@ == self.date(),
                None => !self.has_date(),
            },
    {
        if self.is_datable() {
            Some(self.http_date())
        } else {
            None
        }
    }

    /// Tells whether this time is no earlier than `other`.
    pub fn at_least(&self, other: &Timestamp) -> (r: bool)
        ensures
            r == (self.secs >= other.secs),
    {
        self.secs >= other.secs
    }
}

} // verus!
