//! Helpers over the hash maps that hold sessions by id.

use std::collections::HashMap;
use vstd::std_specs::hash::spec_keys_iter;
use vstd::std_specs::iter::IteratorSpec;
use vstd::prelude::*;

verus! {

broadcast use vstd::std_specs::hash::group_hash_axioms;

/// The ids held in `m`, each once, in the map's own order.
pub fn held_ids<V>(m: &HashMap<u32, V>) -> (ids: Vec<u32>)
    ensures
        ids@.to_set() == m@.dom(),
        ids@.no_duplicates(),
{
    let mut ids: Vec<u32> = Vec::new();
    let ghost all: Seq<u32> = spec_keys_iter(m).remaining().unref();
    for k in it: m.keys()
        invariant
            ids@ == it.seq().take(it.index() as int).unref(),
            it.seq().unref() == all,
            all.to_set() == m@.dom(),
            all.no_duplicates(),
            ids@.len() == it.index(),
            it.index() <= all.len(),
    {
        ids.push(*k);
        proof {
            assert(it.seq().take(it.index() as int + 1).unref() =~= it.seq().take(it.index() as int).unref().push(*k));
        }
    }
    proof {
        assert(ids@ =~= all);
    }
    ids
}

} // verus!
