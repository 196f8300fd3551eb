//! Publication-date handling: RFC 2822 in, RFC 3339 out.

use vstd::prelude::*;

verus! {

/// What chrono makes of an RFC 2822 timestamp: `None` when the string is
/// not a valid RFC 2822 date, otherwise the RFC 3339 rendering of the
/// same instant with its zone offset preserved. The result depends on
/// the characters of the input alone.
pub uninterp spec fn rfc3339_of_rfc2822(s: Seq<char>) -> Option<Seq<char>>;

/// Relies on chrono's `DateTime::parse_from_rfc2822`, whose result is a
/// deterministic function of the input string, and converts the parsed
/// value with `DateTime::to_rfc3339`, likewise deterministic. Parse
/// errors are mapped to `None`.
#[verifier::external_body]
pub(crate) fn rfc2822_to_rfc3339(s: &str) -> (r: Option<String>)
    ensures
        r is Some <==> rfc3339_of_rfc2822(s@) is Some,
        r matches Some(v) ==> rfc3339_of_rfc2822(s@) == Some(v@),
{
    match chrono::DateTime::parse_from_rfc2822(s) {
        Ok(d) => Some(d.to_rfc3339()),
        Err(_) => None,
    }
}

} // verus!
