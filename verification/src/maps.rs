//! Walking a hash map in verified code.

use vstd::prelude::*;
use std::collections::HashMap;
use std::hash::Hash;
use vstd::std_specs::hash::obeys_key_model;
use vstd::std_specs::iter::IteratorSpec;

verus! {

/// The keys of `m`, each once, in the order in which the map hands them out.
/// That order is not specified: callers state what holds for any order.
pub fn key_list<K: Copy + Eq + Hash, V>(m: &HashMap<K, V>) -> (keys: Vec<K>)
    requires
        obeys_key_model::<K>(),
    ensures
        keys@.no_duplicates(),
        keys@.to_set() == m@.dom(),
        keys@.len() == m@.dom().len(),
{
    broadcast use vstd::std_specs::hash::group_hash_axioms;

    let mut keys: Vec<K> = Vec::new();
    let ghost all = vstd::std_specs::hash::spec_keys_iter(m).remaining();
    for k in it: m.keys()
        invariant
            it.seq() == all,
            keys@.len() == it.index(),
            keys@ == all.unref().take(it.index()),
    {
        proof {
            assert(all.unref().take(it.index() + 1) =~= all.unref().take(it.index()).push(*k));
        }
        keys.push(*k);
    }
    proof {
        let s = all.unref();
        assert(s.take(s.len() as int) =~= s);
        assert forall|i: int, j: int| 0 <= i < s.len() && 0 <= j < s.len() && i != j implies s[i]
            != s[j] by {
            assert(all[i] != all[j]);
        }
    }
    keys
}

/// One step of a walk over `s`: the first `i + 1` items hold `k` exactly
/// when the first `i` do or the item at `i` is `k`.
pub proof fn lemma_take_step<K>(s: Seq<K>, i: int, k: K)
    requires
        0 <= i < s.len(),
    ensures
        s.take(i + 1).contains(k) <==> (s.take(i).contains(k) || s[i] == k),
        s.take(i + 1).drop_last() == s.take(i),
        s.take(i + 1).last() == s[i],
{
    let longer = s.take(i + 1);
    let shorter = s.take(i);
    assert(longer.drop_last() =~= shorter);
    if longer.contains(k) {
        let idx = choose|idx: int| 0 <= idx < longer.len() && longer[idx] == k;
        if idx < i {
            assert(shorter[idx] == k);
        }
    }
    if shorter.contains(k) {
        let idx = choose|idx: int| 0 <= idx < shorter.len() && shorter[idx] == k;
        assert(longer[idx] == k);
    }
    if s[i] == k {
        assert(longer[i] == k);
    }
}

/// In a walk without repetition the item at `i` is not among the first `i`.
pub proof fn lemma_not_yet_visited<K>(s: Seq<K>, i: int)
    requires
        0 <= i < s.len(),
        s.no_duplicates(),
    ensures
        !s.take(i).contains(s[i]),
{
    let shorter = s.take(i);
    if shorter.contains(s[i]) {
        let idx = choose|idx: int| 0 <= idx < shorter.len() && shorter[idx] == s[i];
        assert(s[idx] == s[i]);
    }
}

} // verus!
