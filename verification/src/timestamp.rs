use vstd::prelude::*;

verus! {

/// The instant that an RFC 3339 text denotes, in milliseconds since the
/// start of 1970 in UTC, as `chrono` reads it; `None` where it reads none.
pub uninterp spec fn rfc3339_millis(text: Seq<char>) -> Option<i64>;

/// Reads an RFC 3339 date and time with
/// `chrono::DateTime::parse_from_rfc3339` and gives its
/// `timestamp_millis`. The contract only names the result.
#[verifier::external_body]
pub(crate) fn parse_rfc3339_millis(s: &str) -> (r: Option<i64>)
    ensures
        r == rfc3339_millis(s@),
{
    chrono::DateTime::parse_from_rfc3339(s).ok().map(|t| t.timestamp_millis())
}

} // verus!
