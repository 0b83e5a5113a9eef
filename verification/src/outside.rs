//! Thin wrappers around calls the verifier cannot check: an outside crate,
//! and a part of std it has no specification for. The verifier believes
//! their contracts; their bodies only make the one call each.

use vstd::prelude::*;

use crate::query::dedup_firsts;

verus! {

/// Relies on std's `SystemTime::now` and `duration_since`: the server
/// clock as milliseconds since the Unix epoch, along a path with no
/// panicking branch — a clock reading before the epoch comes back as the
/// error arm and reads as zero. Nothing more can be promised of a clock.
#[verifier::external_body]
pub(crate) fn now_millis() -> u128 {
    match std::time::SystemTime::now().duration_since(std::time::UNIX_EPOCH) {
        Ok(elapsed) => elapsed.as_millis(),
        Err(_) => 0,
    }
}

/// Relies on itertools' `unique`: it yields the distinct elements in the
/// order in which they first occur, detecting duplicates by hash and
/// equality, which for `String` is equality of the character sequences.
#[verifier::external_body]
pub(crate) fn unique_strings(v: Vec<String>) -> (r: Vec<String>)
    ensures
        r.deep_view() == dedup_firsts(v.deep_view()),
{
    itertools::Itertools::unique(v.into_iter()).collect()
}

} // verus!
