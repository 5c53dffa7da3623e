//! Instants, and the dates that a reply gives in the format of RFC 2822.

use vstd::prelude::*;

verus! {

/// An instant on the UTC time line.
#[derive(Clone, Copy, Debug, PartialEq, Eq, Structural)]
pub struct Timestamp {
    /// Whole seconds since 1970-01-01 00:00:00 UTC, leap seconds not counted;
    /// negative before that moment.
    pub secs: i64,
    /// Nanoseconds after the start of that second. A thousand million or more
    /// stands for a moment within a leap second.
    pub nanos: u32,
}

/// The instant that `text` denotes as a date and time of RFC 2822, in seconds
/// and nanoseconds as in [`Timestamp`]; nothing where `text` is no such date.
pub uninterp spec fn rfc2822_instant(text: Seq<char>) -> Option<(i64, u32)>;

/// `chrono::DateTime::parse_from_rfc2822`, and of the date that it reads
/// `DateTime::timestamp` and `DateTime::timestamp_subsec_nanos`, which place
/// the date on the UTC time line whatever offset it was written with. Whether
/// a date is read, and the instant that is read, are a function of `text`
/// alone.
#[verifier::external_body]
pub(crate) fn parse_rfc2822(text: &str) -> (instant: Option<Timestamp>)
    ensures
        instant is Some <==> rfc2822_instant(text@) is Some,
        instant matches Some(at) ==> rfc2822_instant(text@) == Some((at.secs, at.nanos)),
{
    match chrono::DateTime::parse_from_rfc2822(text) {
        Ok(moment) => Some(
            Timestamp { secs: moment.timestamp(), nanos: moment.timestamp_subsec_nanos() },
        ),
        Err(_) => None,
    }
}

} // verus!
