//! Dates as the log store sees them: strings written next to each record,
//! ordered by the instant they denote.

use vstd::prelude::*;

verus! {

/// The instant a date string denotes, in milliseconds since the Unix epoch,
/// or `None` when the string is not a well-formed date. This names the result
/// of chrono's date parser; nothing here states which instant a given string
/// denotes, so every fact about ordering is proved over the stamps alone.
pub uninterp spec fn date_stamp(s: Seq<char>) -> Option<int>;

/// Relies on chrono: `str::parse::<DateTime<Local>>` accepts a relaxed form
/// of RFC 3339 and depends on the characters alone, and `timestamp_millis`
/// is determined by the parsed instant, so the result is a function of the
/// input string.
#[verifier::external_body]
pub fn parse_date(s: &str) -> (r: Option<i64>)
    ensures
        r matches Some(t) ==> date_stamp(s@) == Some(t as int),
        r is None ==> date_stamp(s@) is None,
{
    s.parse::<chrono::DateTime<chrono::Local>>().ok().map(|d| d.timestamp_millis())
}

/// Relies on chrono: `Local::now().to_rfc3339()` returns an RFC 3339 date and
/// time string, and chrono's own parser accepts RFC 3339, so the result
/// always carries a stamp. Which instant it denotes depends on the clock and
/// is not stated.
#[verifier::external_body]
pub fn now_date() -> (r: String)
    ensures
        date_stamp(r@) is Some,
{
    chrono::Local::now().to_rfc3339()
}

} // verus!
