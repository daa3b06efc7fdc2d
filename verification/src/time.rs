//! Points in time, in milliseconds.
use vstd::prelude::*;

verus! {

/// The milliseconds since the epoch that a text in the form of RFC 3339 writes.
pub uninterp spec fn rfc3339_millis(text: Seq<char>) -> Option<int>;

/// `chrono::DateTime::parse_from_rfc3339` and `timestamp_millis`: the time, or
/// nothing where the text is not of that form. It depends on the text alone.
#[verifier::external_body]
pub(crate) fn parse_rfc3339(source: &str) -> (millis: Option<i64>)
    ensures
        match millis {
            Some(m) => rfc3339_millis(source@) == Some(m as int),
            None => rfc3339_millis(source@) is None,
        },
{
    chrono::DateTime::parse_from_rfc3339(source).ok().map(|time| time.timestamp_millis())
}

/// A point in time in milliseconds since the epoch, as the bit pattern of a
/// double-precision number: it may hold a fraction.
#[derive(Debug, Clone, Copy, PartialEq, Eq, Structural)]
pub struct Millis {
    pub bits: u64,
}

/// What an optional time means.
pub open spec fn opt_time(time: Option<i64>) -> Option<int> {
    match time {
        Some(t) => Some(t as int),
        None => None,
    }
}

} // verus!
