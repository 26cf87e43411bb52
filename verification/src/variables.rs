use std::collections::HashMap;
use vstd::prelude::*;

use crate::assoc::{
    assoc_map, find_name, lemma_assoc_map_dom, lemma_assoc_map_index, lemma_assoc_map_update, names_distinct,
    put_entry,
};

verus! {

broadcast use vstd::seq_lib::group_seq_properties;

/// Group `g` has a variable named `n`.
pub open spec fn has_variable(m: Map<u32, Map<Seq<char>, i32>>, g: u32, n: Seq<char>) -> bool {
    m.contains_key(g) && m[g].contains_key(n)
}

/// What reading variable `n` of group `g` gives: its value, 0 where the group or
/// the variable is unknown.
pub open spec fn variable_value(m: Map<u32, Map<Seq<char>, i32>>, g: u32, n: Seq<char>) -> i32 {
    if has_variable(m, g, n) { m[g][n] } else { 0 }
}

/// Variable `n` of group `g` set to `v`.
pub open spec fn with_variable(m: Map<u32, Map<Seq<char>, i32>>, g: u32, n: Seq<char>, v: i32) -> Map<u32, Map<Seq<char>, i32>> {
    m.insert(g, m[g].insert(n, v))
}

/// Reading a variable right after setting it gives the value set.
pub proof fn law_get_after_set(m: Map<u32, Map<Seq<char>, i32>>, g: u32, n: Seq<char>, v: i32)
    requires
        has_variable(m, g, n),
    ensures
        variable_value(with_variable(m, g, n, v), g, n) == v,
{
}

/// Setting a variable changes no other variable, of its group or of another.
pub proof fn law_set_leaves_other_variables(
    m: Map<u32, Map<Seq<char>, i32>>,
    g: u32,
    n: Seq<char>,
    v: i32,
    g2: u32,
    n2: Seq<char>,
)
    requires
        has_variable(m, g, n),
        g2 != g || n2 != n,
    ensures
        variable_value(with_variable(m, g, n, v), g2, n2) == variable_value(m, g2, n2),
        has_variable(with_variable(m, g, n, v), g2, n2) == has_variable(m, g2, n2),
{
}

/// After a group is removed, each of its variables reads 0.
pub proof fn law_removed_group_reads_zero(m: Map<u32, Map<Seq<char>, i32>>, g: u32, n: Seq<char>)
    ensures
        variable_value(m.remove(g), g, n) == 0,
{
}

/// After a group is given its variables, each reads the value of its last entry.
pub proof fn law_init_then_get(m: Map<u32, Map<Seq<char>, i32>>, g: u32, vars: Seq<(String, i32)>, i: int)
    requires
        0 <= i < vars.len(),
        forall|j: int| i < j < vars.len() ==> #[trigger] vars[j].0@ != vars[i].0@,
    ensures
        variable_value(m.insert(g, assoc_map(vars)), g, vars[i].0@) == vars[i].1,
{
    lemma_assoc_last_entry(vars, i);
}

proof fn lemma_assoc_last_entry(vars: Seq<(String, i32)>, i: int)
    requires
        0 <= i < vars.len(),
        forall|j: int| i < j < vars.len() ==> #[trigger] vars[j].0@ != vars[i].0@,
    ensures
        assoc_map(vars).contains_key(vars[i].0@),
        assoc_map(vars)[vars[i].0@] == vars[i].1,
    decreases vars.len(),
{
    if i < vars.len() - 1 {
        lemma_assoc_last_entry(vars.drop_last(), i);
    }
}

/// The entries of `vars` put one after another into an empty list.
fn entries_from(vars: &Vec<(String, i32)>) -> (r: Vec<(String, i32)>)
    ensures
        names_distinct(r@),
        assoc_map(r@) == assoc_map(vars@),
{
    let mut r: Vec<(String, i32)> = Vec::new();
    let mut i: usize = 0;
    while i < vars.len()
        invariant
            i <= vars@.len(),
            names_distinct(r@),
            assoc_map(r@) == assoc_map(vars@.take(i as int)),
        decreases vars.len() - i,
    {
        proof {
            assert(vars@.take(i as int + 1).drop_last() == vars@.take(i as int));
        }
        put_entry(&mut r, vars[i].0.clone(), vars[i].1);
        i = i + 1;
    }
    proof {
        assert(vars@.take(i as int) == vars@);
    }
    r
}

/// The variables of each loaded group, by group id and variable name.
pub struct GroupVariableStore {
    variables: HashMap<u32, Vec<(String, i32)>>,
}

impl View for GroupVariableStore {
    type V = Map<u32, Map<Seq<char>, i32>>;

    closed spec fn view(&self) -> Map<u32, Map<Seq<char>, i32>> {
        Map::new(
            |g: u32| self.variables@.contains_key(g),
            |g: u32| assoc_map(self.variables@[g]@),
        )
    }
}

impl GroupVariableStore {
    #[verifier::type_invariant]
    spec fn inv(self) -> bool {
        forall|g: u32| #[trigger] self.variables@.contains_key(g) ==> names_distinct(self.variables@[g]@)
    }

    pub fn new() -> (s: Self)
        ensures
            s@ == Map::<u32, Map<Seq<char>, i32>>::empty(),
    {
        let s = GroupVariableStore { variables: HashMap::new() };
        assert(s@ =~= Map::<u32, Map<Seq<char>, i32>>::empty());
        s
    }

    /// Gives `group_id` the variables `vars` (a later pair overriding an earlier
    /// one of the same name), replacing those it had.
    pub fn init_group_variables(&mut self, group_id: u32, vars: Vec<(String, i32)>)
        ensures
            final(self)@ == old(self)@.insert(group_id, assoc_map(vars@)),
    {
        proof {
            use_type_invariant(&*self);
        }
        let entries = entries_from(&vars);
        let mut groups = HashMap::new();
        std::mem::swap(&mut groups, &mut self.variables);
        let _ = groups.insert(group_id, entries);
        self.variables = groups;
        assert(self@ =~= old(self)@.insert(group_id, assoc_map(vars@)));
    }

    pub fn remove_group(&mut self, group_id: u32)
        ensures
            final(self)@ == old(self)@.remove(group_id),
    {
        proof {
            use_type_invariant(&*self);
        }
        let mut groups = HashMap::new();
        std::mem::swap(&mut groups, &mut self.variables);
        let _ = groups.remove(&group_id);
        self.variables = groups;
        assert(self@ =~= old(self)@.remove(group_id));
    }

    /// The value of a variable, 0 where the group or the variable is unknown.
    pub fn get_variable(&self, group_id: u32, name: &str) -> (r: i32)
        ensures
            r == variable_value(self@, group_id, name@),
    {
        proof {
            use_type_invariant(self);
        }
        let key = name.to_owned();
        match self.variables.get(&group_id) {
            Some(vars) => match find_name(vars, &key) {
                Some(i) => {
                    proof {
                        lemma_assoc_map_index(vars@, i as int);
                    }
                    vars[i].1
                },
                None => {
                    proof {
                        lemma_assoc_map_dom(vars@, key@);
                    }
                    0
                },
            },
            None => 0,
        }
    }

    /// Sets an existing variable: 0 when it was set, -1 (and no change) when the
    /// group or the variable is unknown.
    pub fn set_variable(&mut self, group_id: u32, name: &str, value: i32) -> (r: i32)
        ensures
            has_variable(old(self)@, group_id, name@) ==> {
                &&& r == 0
                &&& final(self)@ == with_variable(old(self)@, group_id, name@, value)
            },
            !(has_variable(old(self)@, group_id, name@)) ==> {
                &&& r == -1
                &&& final(self)@ == old(self)@
            },
    {
        proof {
            use_type_invariant(&*self);
        }
        let key = name.to_owned();
        match self.variables.get(&group_id) {
            None => {
                assert(!self@.contains_key(group_id));
                -1
            },
            Some(vars) => match find_name(vars, &key) {
                None => {
                    proof {
                        lemma_assoc_map_dom(vars@, key@);
                        assert(!self@[group_id].contains_key(name@));
                    }
                    -1
                },
                Some(i) => {
                    proof {
                        lemma_assoc_map_index(vars@, i as int);
                    }
                    let mut groups = HashMap::new();
                    std::mem::swap(&mut groups, &mut self.variables);
                    let mut entries = groups.remove(&group_id).unwrap();
                    proof {
                        lemma_assoc_map_update(entries@, i as int, key, value);
                    }
                    entries.set(i, (key, value));
                    let _ = groups.insert(group_id, entries);
                    self.variables = groups;
                    assert(self@ =~= old(self)@.insert(group_id, old(self)@[group_id].insert(name@, value)));
                    0
                },
            },
        }
    }

    /// Adds `delta` to an existing variable: 0 when it was changed, -1 (and no
    /// change) when the group or the variable is unknown.
    pub fn change_variable(&mut self, group_id: u32, name: &str, delta: i32) -> (r: i32)
        requires
            has_variable(old(self)@, group_id, name@) ==> i32::MIN
                <= old(self)@[group_id][name@] + delta <= i32::MAX,
        ensures
            has_variable(old(self)@, group_id, name@) ==> {
                &&& r == 0
                &&& final(self)@ == with_variable(
                    old(self)@,
                    group_id,
                    name@,
                    (old(self)@[group_id][name@] + delta) as i32,
                )
            },
            !(has_variable(old(self)@, group_id, name@)) ==> {
                &&& r == -1
                &&& final(self)@ == old(self)@
            },
    {
        proof {
            use_type_invariant(&*self);
        }
        let key = name.to_owned();
        match self.variables.get(&group_id) {
            None => {
                assert(!self@.contains_key(group_id));
                -1
            },
            Some(vars) => match find_name(vars, &key) {
                None => {
                    proof {
                        lemma_assoc_map_dom(vars@, key@);
                        assert(!self@[group_id].contains_key(name@));
                    }
                    -1
                },
                Some(i) => {
                    proof {
                        lemma_assoc_map_index(vars@, i as int);
                    }
                    let value = vars[i].1 + delta;
                    let mut groups = HashMap::new();
                    std::mem::swap(&mut groups, &mut self.variables);
                    let mut entries = groups.remove(&group_id).unwrap();
                    proof {
                        lemma_assoc_map_update(entries@, i as int, key, value);
                    }
                    entries.set(i, (key, value));
                    let _ = groups.insert(group_id, entries);
                    self.variables = groups;
                    assert(self@ =~= old(self)@.insert(group_id, old(self)@[group_id].insert(name@, value)));
                    0
                },
            },
        }
    }

    /// Sets each pair of `vars` in a known group, adding the variables it lacks;
    /// an unknown group is left alone.
    pub fn reset_group_variables(&mut self, group_id: u32, vars: &[(String, i32)])
        ensures
            old(self)@.contains_key(group_id) ==> final(self)@ == old(self)@.insert(
                group_id,
                old(self)@[group_id].union_prefer_right(assoc_map(vars@)),
            ),
            !old(self)@.contains_key(group_id) ==> final(self)@ == old(self)@,
    {
        proof {
            use_type_invariant(&*self);
        }
        if self.variables.get(&group_id).is_none() {
            return;
        }
        let mut groups = HashMap::new();
        std::mem::swap(&mut groups, &mut self.variables);
        let mut entries = groups.remove(&group_id).unwrap();
        let ghost start = assoc_map(entries@);
        let mut i: usize = 0;
        while i < vars.len()
            invariant
                i <= vars@.len(),
                names_distinct(entries@),
                assoc_map(entries@) == start.union_prefer_right(assoc_map(vars@.take(i as int))),
            decreases vars.len() - i,
        {
            proof {
                assert(vars@.take(i as int + 1).drop_last() == vars@.take(i as int));
            }
            put_entry(&mut entries, vars[i].0.clone(), vars[i].1);
            proof {
                assert(assoc_map(entries@) =~= start.union_prefer_right(
                    assoc_map(vars@.take(i as int + 1)),
                ));
            }
            i = i + 1;
        }
        proof {
            assert(vars@.take(i as int) == vars@);
        }
        let _ = groups.insert(group_id, entries);
        self.variables = groups;
        assert(self@ =~= old(self)@.insert(
            group_id,
            old(self)@[group_id].union_prefer_right(assoc_map(vars@)),
        ));
    }
}


} // verus!
