//! Trusted wrappers around the process-wide random source. Every verified
//! caller sees only the bounds stated here; nothing about the distribution
//! is assumed beyond what the source's documentation promises.
//!
//! Like an out-of-memory condition, one failure mode is accepted without
//! being modeled: the thread-local generator's first use panics if the
//! operating system's entropy source fails.

use vstd::prelude::*;

verus! {

/// Relies on rand::random_range over `0..n` for usize: the result lies in
/// the half-open range. The function panics only on an empty range, which
/// the precondition rules out.
#[verifier::external_body]
pub fn random_index(n: usize) -> (r: usize)
    requires
        n > 0,
    ensures
        r < n,
{
    rand::random_range(0..n)
}

/// Relies on rand::random_range over `lo..hi` for u64: the result lies in
/// the half-open range. The function panics only on an empty range, which
/// the precondition rules out.
#[verifier::external_body]
pub fn random_range_u64(lo: u64, hi: u64) -> (r: u64)
    requires
        lo < hi,
    ensures
        lo <= r < hi,
{
    rand::random_range(lo..hi)
}

/// Relies on rand::random_ratio: true with probability num/den, guaranteed
/// false for num == 0 and true for num == den. The function panics when
/// den == 0 or num > den, which the precondition rules out.
#[verifier::external_body]
pub fn random_chance(num: u32, den: u32) -> (r: bool)
    requires
        den > 0,
        num <= den,
    ensures
        num == 0 ==> r == false,
        num == den ==> r == true,
{
    rand::random_ratio(num, den)
}

} // verus!
