//! The random source. Every draw the library makes goes through the few
//! functions here, each a thin shell over the `rand` crate whose contract is
//! taken on trust from that crate's documentation.

use rand::rngs::StdRng;
use rand::Rng;
use rand::SeedableRng;
use vstd::prelude::*;

verus! {

/// `rand::rngs::StdRng`, the seedable generator that simulations and
/// optimizers draw from. Its state is opaque to the proofs.
#[verifier::external_type_specification]
#[verifier::external_body]
pub struct ExStdRng(StdRng);

/// Draws an index below `n` with `Rng::random_range(0..n)`.
///
/// Trusted: `rand` documents that the value lies in the given range and that
/// the call panics only when the range is empty, which `n > 0` rules out.
/// Nothing is claimed about which index comes back.
#[verifier::external_body]
pub(crate) fn random_index(rng: &mut StdRng, n: usize) -> (i: usize)
    requires
        n > 0,
    ensures
        i < n,
{
    rng.random_range(0..n)
}

/// Draws an integer in `lo..=hi` with `Rng::random_range(lo..=hi)`.
///
/// Trusted: `rand` documents that the value lies in the inclusive range and
/// that the call panics only when the range is empty, which `lo <= hi` rules
/// out. Nothing is claimed about which value comes back.
#[verifier::external_body]
pub(crate) fn random_between(rng: &mut StdRng, lo: i64, hi: i64) -> (x: i64)
    requires
        lo <= hi,
    ensures
        lo <= x <= hi,
{
    rng.random_range(lo..=hi)
}

/// A generator seeded from the thread-local one: `rand::rng()` handed to
/// `SeedableRng::from_rng`.
///
/// Trusted, with nothing claimed: the generator's state is unknown.
#[verifier::external_body]
pub(crate) fn ambient_rng() -> (rng: StdRng) {
    StdRng::from_rng(&mut rand::rng())
}

} // verus!
