//! Time and chance, through `chrono` and `rand`.
use vstd::prelude::*;

verus! {

/// How chrono prints the instant `ms` milliseconds after the epoch in UTC
/// (`2024-01-31 12:00:00 UTC`); none outside the range of its dates.
pub uninterp spec fn utc_text_of(ms: int) -> Option<Seq<char>>;

/// The instant `ms` milliseconds after the epoch in UTC, as chrono formats it
/// with `%d/%m/%Y %T`; none outside the range of its dates.
pub uninterp spec fn utc_dmy_of(ms: int) -> Option<Seq<char>>;

/// The views of an optional string.
pub open spec fn opt_view(s: Option<String>) -> Option<Seq<char>> {
    match s {
        Some(t) => Some(t@),
        None => None,
    }
}

/// Relies on `chrono::DateTime::from_timestamp_millis` and chrono's `Display`
/// of a UTC date: the text depends on the number alone.
#[verifier::external_body]
pub(crate) fn utc_text(ms: i64) -> (r: Option<String>)
    ensures
        opt_view(r) == utc_text_of(ms as int),
{
    chrono::DateTime::from_timestamp_millis(ms).map(|d| d.to_string())
}

/// Relies on `chrono::DateTime::from_timestamp_millis` and chrono's `format`
/// with `%d/%m/%Y %T`: the text depends on the number alone.
#[verifier::external_body]
pub(crate) fn utc_dmy(ms: i64) -> (r: Option<String>)
    ensures
        opt_view(r) == utc_dmy_of(ms as int),
{
    chrono::DateTime::from_timestamp_millis(ms).map(|d| d.format("%d/%m/%Y %T").to_string())
}

/// Relies on `rand::Rng::gen_range` over `thread_rng`: a value of the half-open
/// range.
#[verifier::external_body]
fn random_in(lo: u64, hi: u64) -> (r: u64)
    requires
        lo < hi,
    ensures
        lo <= r < hi,
{
    rand::Rng::gen_range(&mut rand::thread_rng(), lo..hi)
}

/// Least delay of a delayed moderation action, in milliseconds.
pub const MIN_ACTION_DELAY_MS: u64 = 30_000;

/// Bound (excluded) of the delay of a delayed moderation action.
pub const MAX_ACTION_DELAY_MS: u64 = 100_000;

/// A random delay for the moderation actions of one signup, drawn uniformly.
pub fn sample_action_delay() -> (r: u64)
    ensures
        MIN_ACTION_DELAY_MS <= r < MAX_ACTION_DELAY_MS,
{
    random_in(MIN_ACTION_DELAY_MS, MAX_ACTION_DELAY_MS)
}

} // verus!
