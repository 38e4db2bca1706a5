//! Reading human-readable durations ("2 hours", "1h") into whole seconds.

use vstd::prelude::*;

verus! {

use crate::text::digits_of;

/// The most ASCII digits a duration text may hold.  Any realistic duration
/// fits ("10 hours 30 minutes" holds four); the limit exists to keep
/// `parse_duration_secs` away from a panic (see there).
pub const MAX_DURATION_DIGITS: usize = 11;

/// The number of whole seconds a human-readable duration text denotes, or
/// nothing when the text is not a duration.  The grammar is a pure function
/// of the text alone.
pub uninterp spec fn duration_secs_of(s: Seq<char>) -> Option<u64>;

/// Relies on `humantime::parse_duration` and `Duration::as_secs`: turns a
/// human-readable duration into whole seconds, or nothing when the text does
/// not parse.
///
/// The digit bound keeps the call total: the parser's final carry panics on
/// a text whose terms sum to exactly `u64::MAX` seconds together with
/// exactly one second of nanoseconds.  With at most eleven digits of unit
/// counts the seconds total stays below a fifth of `u64::MAX` even when
/// every digit counts years, so that carry is out of reach.
#[verifier::external_body]
pub(crate) fn parse_duration_secs(s: &str) -> (r: Option<u64>)
    requires
        digits_of(s@).len() <= MAX_DURATION_DIGITS,
    ensures
        r == duration_secs_of(s@),
{
    match humantime::parse_duration(s) {
        Ok(d) => Some(d.as_secs()),
        Err(_) => None,
    }
}

} // verus!
