//! Instants and their written forms.
use vstd::prelude::*;

verus! {

/// An instant as seconds and nanoseconds since the Unix epoch, in UTC.
#[derive(Clone, Copy)]
pub struct UtcInstant {
    pub secs: i64,
    pub nanos: u32,
}

/// What `DateTime::<Utc>::from_timestamp(secs, nanos)` followed by `to_rfc3339` gives:
/// `None` when the instant is out of the range of dates.
pub uninterp spec fn rfc3339_of(secs: i64, nanos: u32) -> Option<Seq<char>>;

pub open spec fn opt_view(o: Option<String>) -> Option<Seq<char>> {
    match o {
        Some(s) => Some(s@),
        None => None,
    }
}

/// Calls `DateTime::<Utc>::from_timestamp` and `DateTime::to_rfc3339`. Trusted: the
/// result is `rfc3339_of(secs, nanos)`.
#[verifier::external_body]
pub(crate) fn rfc3339_utc(at: UtcInstant) -> (r: Option<String>)
    ensures
        opt_view(r) == rfc3339_of(at.secs, at.nanos),
{
    match chrono::DateTime::from_timestamp(at.secs, at.nanos) {
        Some(d) => Some(d.to_rfc3339()),
        None => None,
    }
}

/// What `DateTime::<Utc>::from_timestamp(secs, nanos)` formatted with
/// `%Y%m%d_%H%M%S` gives: `None` when the instant is out of the range of dates.
pub uninterp spec fn compact_stamp_of(secs: i64, nanos: u32) -> Option<Seq<char>>;

/// Calls `DateTime::<Utc>::from_timestamp` and `DateTime::format("%Y%m%d_%H%M%S")`.
/// Trusted: the result is `compact_stamp_of(secs, nanos)`.
#[verifier::external_body]
pub(crate) fn compact_stamp(at: UtcInstant) -> (r: Option<String>)
    ensures
        opt_view(r) == compact_stamp_of(at.secs, at.nanos),
{
    match chrono::DateTime::from_timestamp(at.secs, at.nanos) {
        Some(d) => Some(d.format("%Y%m%d_%H%M%S").to_string()),
        None => None,
    }
}

} // verus!
