//! Random numbers of the `fastrand` crate.
//!
//! Nothing in this file is proved. A random number depends on more than the
//! arguments, so the contracts give its range and no more.

use vstd::prelude::*;

verus! {

/// `fastrand::Rng`, a random number generator.
#[verifier::external_type_specification]
#[verifier::external_body]
pub struct ExRng(fastrand::Rng);

/// `fastrand::Rng::new`: a generator with a seed of its own.
#[verifier::external_body]
pub(crate) fn fresh_rng() -> fastrand::Rng {
    fastrand::Rng::new()
}

/// `fastrand::Rng::usize` on the range `..n`: some number below `n`. It panics
/// on an empty range.
#[verifier::external_body]
pub(crate) fn index_below(rng: &mut fastrand::Rng, n: usize) -> (r: usize)
    requires
        n > 0,
    ensures
        r < n,
{
    rng.usize(..n)
}

/// `fastrand::u64` on the range `..=cap`: some number up to `cap`.
#[verifier::external_body]
pub(crate) fn number_up_to(cap: u64) -> (r: u64)
    ensures
        r <= cap,
{
    fastrand::u64(..=cap)
}

} // verus!
