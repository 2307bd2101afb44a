use vstd::prelude::*;
use rand::seq::SliceRandom;

verus! {

/// Relies on rand::seq::SliceRandom::shuffle (rand 0.8): a Fisher-Yates
/// shuffle that rearranges the slice in place by swapping elements, so the
/// result is a permutation of the input; nothing is added, dropped or
/// changed. Which permutation comes out depends on the thread-local
/// generator, so only permutation itself is stated.
#[verifier::external_body]
pub(crate) fn shuffle_vec<T>(v: &mut Vec<T>)
    ensures
        final(v)@.len() == old(v)@.len(),
        final(v)@.to_multiset() == old(v)@.to_multiset(),
{
    let mut rng = rand::thread_rng();
    v.shuffle(&mut rng);
}

} // verus!
