use vstd::prelude::*;

verus! {

broadcast use vstd::seq_lib::group_seq_properties;

/// No two entries share a name.
pub open spec fn names_distinct<V>(s: Seq<(String, V)>) -> bool {
    forall|i: int, j: int| 0 <= i < j < s.len() ==> s[i].0@ != s[j].0@
}

/// The map that a list of named entries stands for, a later entry overriding an
/// earlier one of the same name.
pub open spec fn assoc_map<V>(s: Seq<(String, V)>) -> Map<Seq<char>, V>
    decreases s.len(),
{
    if s.len() == 0 {
        Map::empty()
    } else {
        assoc_map(s.drop_last()).insert(s.last().0@, s.last().1)
    }
}

pub proof fn lemma_assoc_map_dom<V>(s: Seq<(String, V)>, n: Seq<char>)
    ensures
        assoc_map(s).contains_key(n) <==> exists|i: int| 0 <= i < s.len() && #[trigger] s[i].0@ == n,
    decreases s.len(),
{
    if s.len() > 0 {
        lemma_assoc_map_dom(s.drop_last(), n);
        if assoc_map(s).contains_key(n) && s.last().0@ != n {
            let i = choose|i: int| 0 <= i < s.drop_last().len() && #[trigger] s.drop_last()[i].0@ == n;
            assert(s[i].0@ == n);
        }
        if exists|i: int| 0 <= i < s.len() && #[trigger] s[i].0@ == n {
            let i = choose|i: int| 0 <= i < s.len() && #[trigger] s[i].0@ == n;
            if i < s.len() - 1 {
                assert(s.drop_last()[i].0@ == n);
            }
        }
    }
}

pub proof fn lemma_assoc_map_index<V>(s: Seq<(String, V)>, i: int)
    requires
        names_distinct(s),
        0 <= i < s.len(),
    ensures
        assoc_map(s).contains_key(s[i].0@),
        assoc_map(s)[s[i].0@] == s[i].1,
    decreases s.len(),
{
    if i < s.len() - 1 {
        lemma_assoc_map_index(s.drop_last(), i);
    }
}

pub proof fn lemma_assoc_map_update<V>(s: Seq<(String, V)>, i: int, n: String, v: V)
    requires
        names_distinct(s),
        0 <= i < s.len(),
        n@ == s[i].0@,
    ensures
        names_distinct(s.update(i, (n, v))),
        assoc_map(s.update(i, (n, v))) == assoc_map(s).insert(n@, v),
    decreases s.len(),
{
    let t = s.update(i, (n, v));
    if i == s.len() - 1 {
        assert(t.drop_last() == s.drop_last());
    } else {
        lemma_assoc_map_update(s.drop_last(), i, n, v);
        assert(t.drop_last() == s.drop_last().update(i, (n, v)));
        assert(assoc_map(t) =~= assoc_map(s).insert(n@, v));
    }
}

/// Where `name` stands among the entries, if it does.
pub fn find_name<V>(entries: &Vec<(String, V)>, name: &String) -> (r: Option<usize>)
    ensures
        match r {
            Some(i) => i < entries@.len() && entries@[i as int].0@ == name@,
            None => forall|j: int| 0 <= j < entries@.len() ==> #[trigger] entries@[j].0@ != name@,
        },
{
    let mut i: usize = 0;
    while i < entries.len()
        invariant
            i <= entries@.len(),
            forall|j: int| 0 <= j < i ==> #[trigger] entries@[j].0@ != name@,
        decreases entries.len() - i,
    {
        if entries[i].0 == *name {
            return Some(i);
        }
        i = i + 1;
    }
    None
}

/// Sets `name` to `value` in a list of distinct names: in place where the name
/// stands, appended where it does not.
pub fn put_entry<V>(entries: &mut Vec<(String, V)>, name: String, value: V)
    requires
        names_distinct(old(entries)@),
    ensures
        names_distinct(final(entries)@),
        assoc_map(final(entries)@) == assoc_map(old(entries)@).insert(name@, value),
{
    match find_name(entries, &name) {
        Some(i) => {
            proof {
                lemma_assoc_map_update(entries@, i as int, name, value);
            }
            entries.set(i, (name, value));
        },
        None => {
            entries.push((name, value));
            proof {
                assert(entries@.drop_last() == old(entries)@);
            }
        },
    }
}

} // verus!
