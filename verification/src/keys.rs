use std::collections::{HashMap, HashSet};
use vstd::prelude::*;
use vstd::std_specs::iter::IteratorSpec;

verus! {

/// The keys of a map, each once, in the map's own iteration order.
pub fn key_list<V>(m: &HashMap<u32, V>) -> (keys: Vec<u32>)
    ensures
        keys@.no_duplicates(),
        keys@.to_set() == m@.dom(),
        keys@.len() == m@.dom().len(),
{
    let mut keys: Vec<u32> = Vec::new();
    let ghost all: Seq<u32> = vstd::std_specs::hash::spec_keys_iter(m).remaining().unref();
    for k in it: m.keys()
        invariant
            all == vstd::std_specs::hash::spec_keys_iter(m).remaining().unref(),
            it.seq().unref() == all,
            keys@ == all.take(it.index()),
    {
        keys.push(*k);
    }
    assert(keys@ == all);
    keys
}

/// The members of a set, each once, in the set's own iteration order.
pub fn set_list(s: &HashSet<u32>) -> (items: Vec<u32>)
    ensures
        items@.no_duplicates(),
        items@.to_set() == s@,
        items@.len() == s@.len(),
{
    let mut items: Vec<u32> = Vec::new();
    let ghost all: Seq<u32> = vstd::std_specs::hash::spec_hash_keys_iter(s).remaining().unref();
    for k in it: s.iter()
        invariant
            all == vstd::std_specs::hash::spec_hash_keys_iter(s).remaining().unref(),
            it.seq().unref() == all,
            items@ == all.take(it.index()),
    {
        items.push(*k);
    }
    assert(items@ == all);
    items
}

/// What a sequence contains after a push.
pub proof fn lemma_push_contains<A>(s: Seq<A>, x: A, q: A)
    ensures
        s.push(x).contains(q) <==> (s.contains(q) || q == x),
{
    if s.contains(q) {
        let j = choose|j: int| 0 <= j < s.len() && s[j] == q;
        assert(s.push(x)[j] == q);
    }
    if q == x {
        assert(s.push(x)[s.len() as int] == q);
    }
    if s.push(x).contains(q) {
        let j = choose|j: int| 0 <= j < s.push(x).len() && s.push(x)[j] == q;
        if j < s.len() {
            assert(s[j] == q);
        }
    }
}

} // verus!
