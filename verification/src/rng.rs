//! Trusted access to the process randomness source and to the identifier
//! generator.  Nothing is assumed of an outcome beyond its range.

use vstd::prelude::*;

verus! {

/// Relies on rand::random_range over `lo..hi`: a uniform value within the
/// half-open range.  The callee panics on an empty range, which the
/// precondition excludes; nothing further is assumed of the outcome.
#[verifier::external_body]
pub(crate) fn rand_range_i64(lo: i64, hi: i64) -> (r: i64)
    requires
        lo < hi,
    ensures
        lo <= r < hi,
{
    rand::random_range(lo..hi)
}

/// Relies on rand::random_range over `0..n`: a uniform index below `n`.  The
/// callee panics on an empty range, which the precondition excludes.
#[verifier::external_body]
pub(crate) fn rand_index(n: usize) -> (r: usize)
    requires
        n > 0,
    ensures
        r < n,
{
    rand::random_range(0..n)
}

/// Relies on std::time::SystemTime::now and duration_since: the wall-clock
/// seconds since the epoch, zero if the clock reads before it.  Nothing is
/// assumed of the outcome.
#[verifier::external_body]
pub(crate) fn now_secs() -> (r: u64) {
    std::time::SystemTime::now().duration_since(std::time::SystemTime::UNIX_EPOCH).map(
        |d| d.as_secs(),
    ).unwrap_or(0)
}

/// Relies on uuid::Uuid::new_v4 and Uuid::as_u128: a fresh random
/// version-4 identifier as its 128-bit value.  Nothing is assumed of the
/// outcome.
#[verifier::external_body]
pub(crate) fn new_state_id() -> (r: u128) {
    uuid::Uuid::new_v4().as_u128()
}

} // verus!
