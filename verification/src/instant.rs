//! Instants of the UTC time line and their RFC 3339 text.

use chrono::DateTime;
use chrono::Timelike;
use chrono::Utc;
use vstd::prelude::*;

verus! {

/// The first second that the calendar reaches: the start of the year -262143.
pub const MIN_SECONDS: i64 = -8_334_601_228_800;

/// The last second that the calendar reaches: the end of the year 262142.
pub const MAX_SECONDS: i64 = 8_210_266_876_799;

/// Nanoseconds in a second.
pub const NANOS_PER_SECOND: u32 = 1_000_000_000;

/// Whether `secs` seconds and `nanos` nanoseconds after the start of 1970
/// name an instant of the calendar. Nanoseconds of a thousand million and
/// more stand for a leap second, which may follow any whole second.
pub open spec fn is_instant(secs: int, nanos: int) -> bool {
    &&& MIN_SECONDS <= secs <= MAX_SECONDS
    &&& 0 <= nanos < 2 * NANOS_PER_SECOND
}

/// The RFC 3339 text of the instant `secs` seconds and `nanos` nanoseconds
/// after the start of 1970, at offset `+00:00`, as chrono writes it.
pub uninterp spec fn rfc3339_utc(secs: int, nanos: int) -> Seq<char>;

/// An instant of the UTC time line, to the nanosecond.
#[derive(Clone, Copy, Debug, PartialEq, Eq)]
pub struct Timestamp {
    pub(crate) secs: i64,
    pub(crate) nanos: u32,
}

impl Timestamp {
    #[verifier::type_invariant]
    spec fn well_formed(self) -> bool {
        is_instant(self.secs as int, self.nanos as int)
    }

    /// Whole seconds since the start of 1970.
    pub closed spec fn secs(self) -> int {
        self.secs as int
    }

    /// Nanoseconds since the last whole second.
    pub closed spec fn nanos(self) -> int {
        self.nanos as int
    }

    /// The instant `secs` seconds and `nanos` nanoseconds after the start of
    /// 1970, if the calendar reaches it.
    pub fn new(secs: i64, nanos: u32) -> (made: Option<Timestamp>)
        ensures
            made is Some <==> is_instant(secs as int, nanos as int),
            made matches Some(t) ==> t.secs() == secs && t.nanos() == nanos,
    {
        if secs < MIN_SECONDS || secs > MAX_SECONDS || nanos >= 2 * NANOS_PER_SECOND {
            None
        } else {
            Some(Timestamp { secs, nanos })
        }
    }

    /// Whole seconds since the start of 1970.
    pub fn seconds(&self) -> (secs: i64)
        ensures
            secs == self.secs(),
    {
        self.secs
    }

    /// Nanoseconds since the last whole second.
    pub fn subsec_nanos(&self) -> (nanos: u32)
        ensures
            nanos == self.nanos(),
    {
        self.nanos
    }

    /// The RFC 3339 text of this instant, at offset `+00:00`.
    pub fn to_rfc3339(&self) -> (text: String)
        ensures
            text@ == rfc3339_utc(self.secs(), self.nanos()),
    {
        proof {
            use_type_invariant(self);
        }
        match format_rfc3339(self.secs, self.nanos) {
            Some(text) => text,
            None => vstd::pervasive::unreached(),
        }
    }
}

/// Makes the instant with chrono and writes it: `DateTime::<Utc>::from_timestamp`
/// on the whole seconds, `DateTime::naive_utc`, `Timelike::with_nanosecond`
/// on the date and time without zone, `NaiveDateTime::and_utc`, and
/// `DateTime::to_rfc3339`.
///
/// Believed of chrono, not proved: `from_timestamp` takes whole seconds
/// exactly when their day lies in the years -262143 to 262142;
/// `with_nanosecond` takes nanoseconds exactly when they stay under two
/// thousand million, and keeps the second as it is; and `to_rfc3339` writes
/// the same text for the same instant.
#[verifier::external_body]
fn format_rfc3339(secs: i64, nanos: u32) -> (text: Option<String>)
    ensures
        text is Some <==> is_instant(secs as int, nanos as int),
        text matches Some(t) ==> t@ == rfc3339_utc(secs as int, nanos as int),
{
    match DateTime::<Utc>::from_timestamp(secs, 0) {
        Some(whole) => match whole.naive_utc().with_nanosecond(nanos) {
            Some(at) => Some(at.and_utc().to_rfc3339()),
            None => None,
        },
        None => None,
    }
}

} // verus!
