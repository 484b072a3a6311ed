//! Choosing a nonce that no pending request uses.

use std::collections::HashMap;

use vstd::prelude::*;

use crate::domain::Nonce;
use crate::random::random_u64;

verus! {

broadcast use vstd::std_specs::hash::group_hash_axioms;

/// The set of the nonces below `bound`.
spec fn nonces_below(bound: nat) -> Set<Nonce> {
    Set::new(|x: Nonce| x < bound)
}

/// There are exactly `bound` nonces below `bound`.
proof fn lemma_nonces_below(bound: nat)
    requires
        bound <= u64::MAX + 1,
    ensures
        nonces_below(bound).finite(),
        nonces_below(bound).len() == bound,
    decreases bound,
{
    if bound == 0 {
        assert(nonces_below(0) =~= Set::<Nonce>::empty());
    } else {
        let b1 = (bound - 1) as nat;
        lemma_nonces_below(b1);
        assert(nonces_below(bound) =~= nonces_below(b1).insert(b1 as Nonce));
    }
}

/// A nonce that is not a key of `taken`, drawn at random; should a few draws all hit
/// taken nonces, the smallest free nonce is used.
pub fn distinct_nonce<V>(taken: &HashMap<Nonce, V>) -> (n: Nonce)
    ensures
        !taken@.contains_key(n),
{
    let mut tries: usize = 0;
    while tries < 16
        decreases 16 - tries,
    {
        let n = random_u64();
        if !taken.contains_key(&n) {
            return n;
        }
        tries = tries + 1;
    }
    let count: usize = taken.len();
    let mut c: u128 = 0;
    while c <= count as u128
        invariant
            count == taken@.len(),
            c <= count + 1,
            forall|x: Nonce| x < c ==> #[trigger] taken@.contains_key(x),
        decreases count + 1 - c,
    {
        let n = c as u64;
        if !taken.contains_key(&n) {
            return n;
        }
        c = c + 1;
    }
    proof {
        lemma_nonces_below(c as nat);
        assert(nonces_below(c as nat).subset_of(taken@.dom()));
        vstd::set_lib::lemma_len_subset(nonces_below(c as nat), taken@.dom());
    }
    0
}

} // verus!
