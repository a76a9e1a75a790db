//! Operations on `u64`-keyed hash maps that the trackers need beyond what
//! `HashMap` offers directly with a specification.

use std::collections::{HashMap, HashSet};
use vstd::prelude::*;
use vstd::std_specs::iter::IteratorSpec;

verus! {

broadcast use vstd::std_specs::hash::group_hash_axioms;

/// The keys of `m`, each once, in the map's iteration order.
pub fn keys_of<V>(m: &HashMap<u64, V>) -> (keys: Vec<u64>)
    ensures
        keys@.to_set() == m@.dom(),
        keys@.no_duplicates(),
        keys@.len() == m@.dom().len(),
{
    let ghost all: Seq<u64> = vstd::std_specs::hash::spec_keys_iter(m).remaining().unref();
    let mut keys: Vec<u64> = Vec::new();
    for k in it: m.keys()
        invariant
            it.seq().unref() == all,
            keys@ == all.take(it.index()),
    {
        keys.push(*k);
        proof {
            assert(all.take(it.index() + 1) =~= all.take(it.index()).push(*k));
        }
    }
    proof {
        assert(all.take(all.len() as int) =~= all);
    }
    keys
}

/// Keeps exactly the entries whose key is in `keep`.
pub fn retain_keys_in<V>(m: &mut HashMap<u64, V>, keep: &HashSet<u64>)
    ensures
        final(m)@ == old(m)@.restrict(keep@),
{
    let keys = keys_of(m);
    let mut i: usize = 0;
    while i < keys.len()
        invariant
            i <= keys@.len(),
            keys@.to_set() == old(m)@.dom(),
            keys@.no_duplicates(),
            forall|k: u64| #[trigger] m@.contains_key(k) <==> (old(m)@.contains_key(k) && (
                keep@.contains(k) || !keys@.take(i as int).contains(k))),
            forall|k: u64| #[trigger] m@.contains_key(k) ==> m@[k] == old(m)@[k],
        decreases keys@.len() - i,
    {
        let k = keys[i];
        if !keep.contains(&k) {
            m.remove(&k);
        }
        proof {
            let before = keys@.take(i as int);
            assert(keys@.take(i + 1) =~= before.push(k));
            let after = keys@.take(i + 1);
            assert forall|j: u64| #[trigger] after.contains(j) == (before.contains(j) || j == k) by {
                if before.contains(j) {
                    let w = choose|x: int| 0 <= x < before.len() && before[x] == j;
                    assert(after[w] == j);
                }
                if after.contains(j) && j != k {
                    let w = choose|x: int| 0 <= x < after.len() && after[x] == j;
                    assert(before[w] == j);
                }
                if j == k {
                    assert(after[i as int] == j);
                }
            }
        }
        i += 1;
    }
    proof {
        assert(keys@.take(keys@.len() as int) =~= keys@);
        assert forall|k: u64| old(m)@.contains_key(k) implies keys@.contains(k) by {
            assert(keys@.to_set().contains(k));
        }
        assert(m@ =~= old(m)@.restrict(keep@));
    }
}

} // verus!
