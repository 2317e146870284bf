//! Instants on the UTC time line, as the API writes them.

use vstd::prelude::*;
use crate::error::ParseError;

verus! {

/// An instant of UTC time: whole seconds since 1970-01-01T00:00:00Z and the
/// nanoseconds into that second.
///
/// During a leap second `nanos` runs on past 999,999,999, so two distinct
/// instants never share both fields.
#[derive(Clone, Copy, Debug, PartialEq, Eq, PartialOrd, Ord, Hash, Structural)]
pub struct Timestamp {
    pub secs: i64,
    pub nanos: u32,
}

impl Timestamp {
    /// `self` is strictly earlier than `other`.
    pub open spec fn before(self, other: Timestamp) -> bool {
        self.secs < other.secs || (self.secs == other.secs && self.nanos < other.nanos)
    }

    /// `self` is not later than `other`.
    pub open spec fn at_or_before(self, other: Timestamp) -> bool {
        !other.before(self)
    }

    /// The timestamp that an outcome of reading a date and time stands for.
    pub open spec fn of_instant(parsed: Option<(i64, u32)>) -> Result<Timestamp, ParseError> {
        match parsed {
            Some((secs, nanos)) => Ok(Timestamp { secs, nanos }),
            None => Err(ParseError::InvalidTimestamp),
        }
    }

    /// Turns the outcome of reading a date and time into a timestamp, or
    /// into the error for a text that holds none.
    pub fn from_instant(parsed: Option<(i64, u32)>) -> (timestamp: Result<Timestamp, ParseError>)
        ensures
            timestamp == Self::of_instant(parsed),
    {
        match parsed {
            Some((secs, nanos)) => Ok(Timestamp { secs, nanos }),
            None => Err(ParseError::InvalidTimestamp),
        }
    }

    /// Reads a date and time with an offset from UTC, as RFC 3339 writes
    /// them, and gives the instant in UTC.
    pub fn parse(text: &str) -> (timestamp: Result<Timestamp, ParseError>)
        ensures
            timestamp == Self::of_instant(rfc3339_instant(text@)),
    {
        Self::from_instant(parse_rfc3339(text))
    }

    pub fn is_before(&self, other: &Timestamp) -> (earlier: bool)
        ensures
            earlier == self.before(*other),
    {
        self.secs < other.secs || (self.secs == other.secs && self.nanos < other.nanos)
    }
}

/// The instant that chrono reads out of `text` as a date and time with an
/// offset from UTC, or `None` where chrono rejects the text.
pub uninterp spec fn rfc3339_instant(text: Seq<char>) -> Option<(i64, u32)>;

/// Calls chrono's `FromStr` for `DateTime<Utc>`, which reads a relaxed form
/// of RFC 3339 and shifts the result to UTC.
///
/// The contract only gives the outcome its name: the same text always yields
/// the same pair of seconds and nanoseconds, or is always rejected.
#[verifier::external_body]
pub(crate) fn parse_rfc3339(text: &str) -> (parsed: Option<(i64, u32)>)
    ensures
        parsed == rfc3339_instant(text@),
{
    match text.parse::<chrono::DateTime<chrono::Utc>>() {
        Ok(instant) => Some((instant.timestamp(), instant.timestamp_subsec_nanos())),
        Err(_) => None,
    }
}

} // verus!
