//! Timestamp parsing for records.
//!
//! A record's timestamp must parse either as RFC 3339 or in the legacy
//! `%Y-%m-%dT%H:%M%z` form; both are normalized to their canonical RFC 3339
//! rendering, which is what the domain record and the catalog carry.

use vstd::prelude::*;

verus! {

/// The canonical RFC 3339 rendering of a timestamp text that parses as
/// RFC 3339, or nothing. A function of the text alone.
pub uninterp spec fn rfc3339_norm_of(s: Seq<char>) -> Option<Seq<char>>;

/// The canonical RFC 3339 rendering of a timestamp text in the legacy
/// `%Y-%m-%dT%H:%M%z` form, or nothing. A function of the text alone.
pub uninterp spec fn legacy_norm_of(s: Seq<char>) -> Option<Seq<char>>;

/// Relies on chrono's `DateTime::parse_from_rfc3339` and `to_rfc3339`:
/// parsing either fails or yields a date-time whose canonical rendering is
/// returned; both are pure functions of the text.
#[verifier::external_body]
fn parse_rfc3339(s: &str) -> (r: Option<String>)
    ensures
        r matches Some(t) ==> rfc3339_norm_of(s@) == Some(t@),
        r is None ==> rfc3339_norm_of(s@) is None,
{
    chrono::DateTime::parse_from_rfc3339(s).ok().map(|d| d.to_rfc3339())
}

/// Relies on chrono's `DateTime::parse_from_str` with the fixed legacy
/// format string, and `to_rfc3339`; both are pure functions of the text.
#[verifier::external_body]
fn parse_legacy(s: &str) -> (r: Option<String>)
    ensures
        r matches Some(t) ==> legacy_norm_of(s@) == Some(t@),
        r is None ==> legacy_norm_of(s@) is None,
{
    chrono::DateTime::parse_from_str(s, "%Y-%m-%dT%H:%M%z").ok().map(|d| d.to_rfc3339())
}

/// The canonical rendering of a record timestamp: its RFC 3339 reading when
/// it has one, otherwise its legacy-format reading, otherwise nothing.
pub open spec fn spec_parse_time(s: Seq<char>) -> Option<Seq<char>> {
    match rfc3339_norm_of(s) {
        Some(t) => Some(t),
        None => legacy_norm_of(s),
    }
}

/// Parses a record timestamp, RFC 3339 first, the legacy form second, and
/// returns its canonical RFC 3339 rendering.
pub fn parse_time(s: &str) -> (r: Option<String>)
    ensures
        r matches Some(t) ==> spec_parse_time(s@) == Some(t@),
        r is None ==> spec_parse_time(s@) is None,
{
    match parse_rfc3339(s) {
        Some(t) => Some(t),
        None => parse_legacy(s),
    }
}

} // verus!
