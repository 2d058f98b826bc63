//! Instants of the UTC time line and their rendering for timeline data.

use vstd::prelude::*;

verus! {

/// The first second that can be rendered: the start of the year 0.
pub const FIRST_SECOND: i64 = -62_167_219_200;

/// The last second that can be rendered: the end of the year 9999.
pub const LAST_SECOND: i64 = 253_402_300_799;

/// Whether `secs` seconds since the Unix epoch, with `nanos` nanoseconds into
/// that second, is an instant of the years 0 to 9999. A billion nanoseconds
/// or more stand for a leap second, which can only follow the last second of
/// a minute.
pub open spec fn is_instant(secs: int, nanos: int) -> bool {
    &&& FIRST_SECOND <= secs <= LAST_SECOND
    &&& 0 <= nanos < 2_000_000_000
    &&& nanos >= 1_000_000_000 ==> secs % 60 == 59
}

/// The text in which RFC 2822 writes the instant, as `chrono` renders it for
/// UTC: such as `Tue, 1 Jul 2003 10:52:37 +0000`.
pub uninterp spec fn rfc2822_text(secs: int, nanos: int) -> Seq<char>;

/// Renders an instant the way RFC 2822 writes it.
///
/// Trusted: makes the `chrono::DateTime<Utc>` for the instant with
/// `DateTime::from_timestamp` and calls `DateTime::to_rfc2822` on it. The
/// first accepts every instant that `is_instant` admits; the second panics
/// only outside the years 0 to 9999, which `is_instant` leaves out. The
/// contract gives the text a name and says nothing of what it holds.
#[verifier::external_body]
fn format_rfc2822(secs: i64, nanos: u32) -> (text: String)
    requires
        is_instant(secs as int, nanos as int),
    ensures
        text@ == rfc2822_text(secs as int, nanos as int),
{
    chrono::DateTime::from_timestamp(secs, nanos).unwrap().to_rfc2822()
}

/// An instant of the years 0 to 9999 in UTC.
#[derive(Debug, Clone, Copy, PartialEq, Eq)]
pub struct Timestamp {
    secs: i64,
    nanos: u32,
}

impl View for Timestamp {
    type V = (int, int);

    /// Seconds since the Unix epoch, and nanoseconds into that second.
    closed spec fn view(&self) -> (int, int) {
        (self.secs as int, self.nanos as int)
    }
}

impl Timestamp {
    #[verifier::type_invariant]
    spec fn well_formed(self) -> bool {
        is_instant(self.secs as int, self.nanos as int)
    }

    /// The instant `secs` seconds after the Unix epoch and `nanos` nanoseconds
    /// into that second, if it is one of the years 0 to 9999.
    pub fn from_unix(secs: i64, nanos: u32) -> (r: Option<Timestamp>)
        ensures
            r is Some <==> is_instant(secs as int, nanos as int),
            r matches Some(t) ==> t@ == (secs as int, nanos as int),
    {
        if secs < FIRST_SECOND || secs > LAST_SECOND || nanos >= 2_000_000_000 {
            return None;
        }
        let since_first: i64 = secs - FIRST_SECOND;
        if nanos >= 1_000_000_000 && since_first % 60 != 59 {
            return None;
        }
        Some(Timestamp { secs, nanos })
    }

    /// Seconds since the Unix epoch.
    pub fn unix_secs(&self) -> (secs: i64)
        ensures
            secs == self@.0,
    {
        self.secs
    }

    /// Nanoseconds into the second.
    pub fn subsec_nanos(&self) -> (nanos: u32)
        ensures
            nanos == self@.1,
    {
        self.nanos
    }

    /// The instant as RFC 2822 writes it.
    pub fn to_rfc2822(&self) -> (text: String)
        ensures
            is_instant(self@.0, self@.1),
            text@ == rfc2822_text(self@.0, self@.1),
    {
        proof {
            use_type_invariant(self);
        }
        format_rfc2822(self.secs, self.nanos)
    }
}

} // verus!
