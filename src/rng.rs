use vstd::prelude::*;

use rand::rngs::StdRng;
use rand::seq::IteratorRandom;
use rand::Rng;

verus! {

/// The random-number generator that all random choices of a simulation draw from.
#[verifier::external_type_specification]
#[verifier::external_body]
pub struct ExStdRng(StdRng);

/// Relies on rand's `Rng::gen_range` on `0..n`: a value in the range, which
/// must not be empty.
#[verifier::external_body]
pub(crate) fn random_index(rng: &mut StdRng, n: usize) -> (r: usize)
    requires
        n > 0,
    ensures
        r < n,
{
    rng.gen_range(0..n)
}

/// Relies on rand's `IteratorRandom::choose_multiple` on `0..n`: with at
/// least `amount` values in the range it returns `amount` of them, each value
/// of the range at most once (reservoir sampling keeps distinct positions).
#[verifier::external_body]
pub(crate) fn choose_distinct(rng: &mut StdRng, n: usize, amount: usize) -> (r: Vec<usize>)
    requires
        amount <= n,
    ensures
        r@.len() == amount,
        forall|k: int| 0 <= k < amount ==> r@[k] < n,
        r@.no_duplicates(),
{
    (0..n).choose_multiple(rng, amount)
}

} // verus!
