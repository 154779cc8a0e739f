//! The keys of a hash map, as a list.

use std::collections::HashMap;
use vstd::prelude::*;
use vstd::std_specs::hash::obeys_key_model;
use vstd::std_specs::iter::IteratorSpec;

verus! {

broadcast use vstd::std_specs::hash::group_hash_axioms;

/// The keys of `m`, each once, in the order in which the map is walked.
/// Nothing is said of that order: it can differ from walk to walk.
pub(crate) fn keys_of<K: Copy, V>(m: &HashMap<K, V>) -> (keys: Vec<K>)
    requires
        obeys_key_model::<K>(),
    ensures
        keys@.to_set() == m@.dom(),
        keys@.no_duplicates(),
        keys@.len() == m@.dom().len(),
{
    let mut keys: Vec<K> = Vec::new();
    let ghost all = m.keys().remaining().unref();
    for key in walk: m.keys()
        invariant
            walk.seq().unref() == all,
            keys@ == all.take(walk.index()),
    {
        keys.push(*key);
        assert(all.take(walk.index() + 1) =~= all.take(walk.index()).push(*key));
    }
    assert(keys@ =~= all);
    keys
}

} // verus!
