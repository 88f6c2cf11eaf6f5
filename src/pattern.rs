//! Regular expressions, through the `regex` crate.
use vstd::prelude::*;

verus! {

/// Whether `regex::Regex::new` accepts the pattern.
pub uninterp spec fn regex_compiles(p: Seq<char>) -> bool;

/// Whether the compiled pattern matches somewhere in the text (`Regex::is_match`).
pub uninterp spec fn regex_matches(p: Seq<char>, t: Seq<char>) -> bool;

/// The capture groups of the leftmost match (`Regex::captures`), group 0 being
/// the whole match; `None` where there is no match.
pub uninterp spec fn regex_captures(p: Seq<char>, t: Seq<char>) -> Option<Seq<Option<Seq<char>>>>;

/// The views of captured groups.
pub open spec fn capture_views(c: Option<Vec<Option<String>>>) -> Option<Seq<Option<Seq<char>>>> {
    match c {
        Some(v) => Some(v@.map_values(|g: Option<String>| match g {
            Some(s) => Some(s@),
            None => None,
        })),
        None => None,
    }
}

/// Relies on `regex::Regex::new`: whether a pattern compiles depends on the
/// pattern alone.
#[verifier::external_body]
pub(crate) fn compiles(p: &str) -> (r: bool)
    ensures
        r == regex_compiles(p@),
{
    regex::Regex::new(p).is_ok()
}

/// Relies on `regex::Regex::is_match`, on the pattern compiled by `Regex::new`.
#[verifier::external_body]
pub(crate) fn is_match(p: &str, t: &str) -> (r: bool)
    requires
        regex_compiles(p@),
    ensures
        r == regex_matches(p@, t@),
{
    match regex::Regex::new(p) {
        Ok(re) => re.is_match(t),
        Err(_) => false,
    }
}

/// Relies on `regex::Regex::captures`, on the pattern compiled by `Regex::new`:
/// it finds a match exactly when `is_match` does.
#[verifier::external_body]
pub(crate) fn captures(p: &str, t: &str) -> (r: Option<Vec<Option<String>>>)
    requires
        regex_compiles(p@),
    ensures
        capture_views(r) == regex_captures(p@, t@),
        r is Some <==> regex_matches(p@, t@),
{
    match regex::Regex::new(p) {
        Ok(re) => re.captures(t).map(
            |c| c.iter().map(|g| g.map(|m| m.as_str().to_string())).collect(),
        ),
        Err(_) => None,
    }
}

} // verus!
