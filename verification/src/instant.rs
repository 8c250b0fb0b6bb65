//! Instants: points in time, as seconds and nanoseconds since the Unix epoch,
//! and the reading of RFC 3339 timestamps, which is `chrono`'s.

use vstd::prelude::*;

verus! {

/// A point in time: whole seconds since 1970-01-01T00:00:00Z and the
/// nanoseconds since the last whole second. During a leap second `nanos`
/// goes on past 999,999,999, so the order of instants is still the order of
/// the pairs.
#[derive(Clone, Copy, Debug, PartialEq, Eq, Structural)]
pub struct Instant {
    pub secs: i64,
    pub nanos: u32,
}

impl Instant {
    /// Is `self` strictly later than `other`?
    pub open spec fn is_after(self, other: Instant) -> bool {
        self.secs > other.secs || (self.secs == other.secs && self.nanos > other.nanos)
    }

    /// Is `self` strictly later than `other`?
    pub fn after(&self, other: &Instant) -> (later: bool)
        ensures
            later == self.is_after(*other),
    {
        self.secs > other.secs || (self.secs == other.secs && self.nanos > other.nanos)
    }
}

/// `chrono::ParseError`, why a text is no timestamp.
#[verifier::external_type_specification]
#[verifier::external_body]
pub struct ExTimestampError(chrono::ParseError);

/// What `chrono::DateTime::parse_from_rfc3339` makes of a text: the instant
/// that the timestamp names, whatever its offset from UTC, or `None` where
/// the text is no RFC 3339 timestamp.
pub uninterp spec fn rfc3339_instant(text: Seq<char>) -> Option<Instant>;

/// `chrono::DateTime::parse_from_rfc3339`, then `timestamp` and
/// `timestamp_subsec_nanos` of the time it returns. The instant is
/// `rfc3339_instant` of the text; the call fails exactly where that is
/// `None`.
#[verifier::external_body]
pub(crate) fn parse_rfc3339(text: &str) -> (parsed: Result<Instant, chrono::ParseError>)
    ensures
        match parsed {
            Ok(instant) => rfc3339_instant(text@) == Some(instant),
            Err(_) => rfc3339_instant(text@) is None,
        },
{
    let time = chrono::DateTime::parse_from_rfc3339(text)?;
    Ok(Instant { secs: time.timestamp(), nanos: time.timestamp_subsec_nanos() })
}

/// The instant that an RFC 3339 timestamp names.
pub fn instant_of(text: &str) -> (instant: Option<Instant>)
    ensures
        instant == rfc3339_instant(text@),
{
    match parse_rfc3339(text) {
        Ok(instant) => Some(instant),
        Err(_) => None,
    }
}

} // verus!
