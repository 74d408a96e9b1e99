//! Chance, from the `rand` crate. Nothing is promised of a drawn value but
//! its range.
use vstd::prelude::*;
use rand::Rng;

verus! {

/// `rand::random::<usize>()`: a value drawn from the thread-local
/// generator; any `usize` may come back.
#[verifier::external_body]
pub(crate) fn random_usize() -> (r: usize) {
    rand::random::<usize>()
}

/// `rand::thread_rng().gen_range(0..n)`: a value drawn from `[0, n)`. The
/// range must not be empty, since `gen_range` panics on an empty range.
/// Which value comes back (uniformly, per `rand`) is not stated.
#[verifier::external_body]
pub(crate) fn random_below(n: usize) -> (r: usize)
    requires
        n > 0,
    ensures
        r < n,
{
    rand::thread_rng().gen_range(0..n)
}

} // verus!
