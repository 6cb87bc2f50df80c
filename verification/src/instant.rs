//! Points in time, as read by the `chrono` crate.

use vstd::prelude::*;

verus! {

/// A point in time: whole seconds since the Unix epoch and the nanoseconds
/// past that second.
#[derive(Clone, Copy, Debug, PartialEq, Eq, Structural)]
pub struct UtcInstant {
    pub seconds: i64,
    pub nanos: u32,
}

/// What `chrono::Utc.datetime_from_str(text, format)` gives, as
/// `(timestamp, timestamp_subsec_nanos)` of the parsed date and time; `None`
/// when parsing fails.
pub uninterp spec fn utc_datetime_parse(text: Seq<char>, format: Seq<char>) -> Option<(i64, u32)>;

/// Calls `chrono::TimeZone::datetime_from_str` on `chrono::Utc`. Trusted: the
/// result is claimed to be [`utc_datetime_parse`] of the arguments, nothing
/// more.
#[verifier::external_body]
#[allow(deprecated)]
pub(crate) fn parse_utc(text: &str, format: &str) -> (r: Option<(i64, u32)>)
    ensures
        r == utc_datetime_parse(text@, format@),
{
    match chrono::TimeZone::datetime_from_str(&chrono::Utc, text, format) {
        Ok(dt) => Some((dt.timestamp(), dt.timestamp_subsec_nanos())),
        Err(_) => None,
    }
}

} // verus!
