//! The one source of chance: picking an index.

use rand::seq::IteratorRandom;
use vstd::prelude::*;

verus! {

/// Picks one index below `n` with `rand`'s `IteratorRandom::choose` on the
/// range `0..n`, drawing from `rand::thread_rng()`. `choose` returns `None`
/// exactly for an empty range and an element of the range otherwise; which
/// element is up to chance, so nothing more is stated.
#[verifier::external_body]
pub(crate) fn random_index(n: usize) -> (pick: Option<usize>)
    ensures
        n == 0 ==> pick is None,
        n > 0 ==> pick is Some && pick->0 < n,
{
    (0..n).choose(&mut rand::thread_rng())
}

} // verus!
