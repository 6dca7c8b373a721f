//! The loan ids of a `BTreeSet`, in the set's (ascending) order.

use std::collections::BTreeSet;
use vstd::prelude::*;
use vstd::std_specs::btree::{increasing_seq, spec_btree_keys_iter};
use vstd::std_specs::cmp::OrdSpec;
use vstd::std_specs::iter::IteratorSpec;

verus! {

broadcast use vstd::std_specs::btree::group_btree_axioms, vstd::laws_cmp::group_laws_cmp;

/// Whether `a` comes before `b` in the order of `K`.
pub open spec fn precedes<K: Ord>(a: K, b: K) -> bool {
    a.cmp_spec(&b) is Less
}

/// Whether `s` is strictly increasing.
pub open spec fn strictly_increasing(s: Seq<u64>) -> bool {
    forall|i: int, j: int| 0 <= i < j < s.len() ==> s[i] < s[j]
}

/// The elements of `s` in ascending order.
pub fn sorted_ids(s: &BTreeSet<u64>) -> (r: Vec<u64>)
    ensures
        strictly_increasing(r@),
        forall|x: u64| s@.contains(x) <==> r@.contains(x),
{
    let mut r: Vec<u64> = Vec::new();
    let ghost v = spec_btree_keys_iter(s).remaining();
    for x in it: s.iter()
        invariant
            it.seq() == v,
            r@.len() == it.index(),
            forall|i: int| 0 <= i < it.index() ==> r@[i] == *it.seq()[i],
    {
        r.push(*x);
    }
    proof {
        assert(r@.len() == v.len());
        assert(r@ =~= v.unref());
        assert(increasing_seq(v));
        assert(vstd::laws_cmp::obeys_cmp::<&u64>());
        vstd::std_specs::btree::axiom_increasing_seq_meaning(v);
        assert forall|i: int, j: int| 0 <= i < j < r@.len() implies r@[i] < r@[j] by {
            assert(precedes::<&u64>(v[i], v[j]));
        }
    }
    r
}

} // verus!
