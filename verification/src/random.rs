use vstd::prelude::*;
use rand::seq::SliceRandom;

verus! {

/// `rand::random::<u64>()`: a random number; nothing is known of it.
#[verifier::external_body]
pub fn random_u64() -> u64 {
    rand::random::<u64>()
}

/// `SliceRandom::shuffle` with the thread's generator: the elements in a random order; the
/// shuffle only swaps elements, so the same elements stay, each as often as before.
#[verifier::external_body]
pub fn shuffle<T>(v: &mut Vec<T>)
    ensures
        final(v)@.to_multiset() == old(v)@.to_multiset(),
{
    v.shuffle(&mut rand::thread_rng());
}

} // verus!
