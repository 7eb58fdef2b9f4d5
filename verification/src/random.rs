use vstd::prelude::*;
use rand::Rng;

verus! {

/// A random integer in `lo..hi` (upper bound excluded).
///
/// Calls `rand::Rng::gen_range` with the range `lo..hi` on the thread-local
/// generator `rand::thread_rng()`. The contract claims what the crate
/// documents of `gen_range`: the value lies in the half-open range, which must
/// not be empty (the call panics on an empty range). Which value comes out is
/// random and is not stated. `thread_rng` panics if the operating system's
/// random source fails when the generator is first seeded; that is not ruled
/// out here.
#[verifier::external_body]
pub(crate) fn random_in(lo: i64, hi: i64) -> (r: i64)
    requires
        lo < hi,
    ensures
        lo <= r < hi,
{
    rand::thread_rng().gen_range(lo..hi)
}

/// `true` with probability `numerator / denominator`.
///
/// Calls `rand::Rng::gen_ratio` on `rand::thread_rng()`. The crate documents
/// that the call panics when `denominator == 0` or `numerator > denominator`,
/// that `numerator == denominator` always gives `true` and `numerator == 0`
/// always gives `false`; otherwise the outcome is random and not stated.
/// As for `random_in`, a failure of the operating system's random source when
/// the generator is first seeded is not ruled out.
#[verifier::external_body]
pub(crate) fn chance(numerator: u32, denominator: u32) -> (b: bool)
    requires
        0 < denominator,
        numerator <= denominator,
    ensures
        numerator == 0 ==> !b,
        numerator == denominator ==> b,
{
    rand::thread_rng().gen_ratio(numerator, denominator)
}

} // verus!
