use vstd::multiset::Multiset;
use vstd::prelude::*;

use crate::assoc::{
    assoc_map, find_name, lemma_assoc_map_dom, lemma_assoc_map_index, lemma_assoc_map_update,
    names_distinct,
};

verus! {

broadcast use vstd::seq_lib::group_seq_properties;

/// One tier of a chest's or monster's drop: from `min_level` on, `drop_id` is
/// dropped `drop_count` times.
#[derive(Debug)]
pub struct CombinedDrop {
    pub index: String,
    pub min_level: u32,
    pub drop_id: u32,
    pub drop_count: u32,
}

impl Clone for CombinedDrop {
    fn clone(&self) -> (r: Self)
        ensures
            r == *self,
    {
        CombinedDrop {
            index: self.index.clone(),
            min_level: self.min_level,
            drop_id: self.drop_id,
            drop_count: self.drop_count,
        }
    }
}

/// The drops of `s` whose tag is `tag`, in their order in `s`.
pub open spec fn drops_tagged(s: Seq<CombinedDrop>, tag: Seq<char>) -> Seq<CombinedDrop>
    decreases s.len(),
{
    if s.len() == 0 {
        Seq::empty()
    } else if s.last().index@ == tag {
        drops_tagged(s.drop_last(), tag).push(s.last())
    } else {
        drops_tagged(s.drop_last(), tag)
    }
}

/// Where a drop of level `level` goes in a list sorted from the highest level
/// down: before the first drop of a lower level.
pub open spec fn insert_position(s: Seq<CombinedDrop>, level: u32) -> int
    decreases s.len(),
{
    if s.len() == 0 {
        0
    } else if s[0].min_level < level {
        0
    } else {
        1 + insert_position(s.drop_first(), level)
    }
}

/// `d` put into `s` after every drop of a level at least its own.
pub open spec fn insert_desc(s: Seq<CombinedDrop>, d: CombinedDrop) -> Seq<CombinedDrop> {
    s.insert(insert_position(s, d.min_level), d)
}

/// `s` sorted from the highest level down, drops of equal level keeping their
/// order.
pub open spec fn stable_desc(s: Seq<CombinedDrop>) -> Seq<CombinedDrop>
    decreases s.len(),
{
    if s.len() == 0 {
        Seq::empty()
    } else {
        insert_desc(stable_desc(s.drop_last()), s.last())
    }
}

/// The first drop of `s` whose level `level` reaches.
pub open spec fn first_reached(s: Seq<CombinedDrop>, level: u32) -> Option<CombinedDrop>
    decreases s.len(),
{
    if s.len() == 0 {
        None
    } else if level >= s[0].min_level {
        Some(s[0])
    } else {
        first_reached(s.drop_first(), level)
    }
}

/// The table of drop tiers for a list of loaded drops: each tag that occurs
/// maps to its drops, sorted from the highest level down.
pub open spec fn drop_table(all: Seq<CombinedDrop>) -> Map<Seq<char>, Seq<CombinedDrop>> {
    Map::new(
        |t: Seq<char>| exists|i: int| 0 <= i < all.len() && #[trigger] all[i].index@ == t,
        |t: Seq<char>| stable_desc(drops_tagged(all, t)),
    )
}

proof fn lemma_drops_tagged_absent(s: Seq<CombinedDrop>, tag: Seq<char>)
    requires
        forall|i: int| 0 <= i < s.len() ==> #[trigger] s[i].index@ != tag,
    ensures
        drops_tagged(s, tag) == Seq::<CombinedDrop>::empty(),
    decreases s.len(),
{
    if s.len() > 0 {
        lemma_drops_tagged_absent(s.drop_last(), tag);
    }
}

/// Loading one more drop adds it to its tag's tiers and leaves the others.
proof fn lemma_drop_table_push(prev: Seq<CombinedDrop>, d: CombinedDrop)
    ensures
        drop_table(prev.push(d)) == drop_table(prev).insert(
            d.index@,
            insert_desc(
                if drop_table(prev).contains_key(d.index@) {
                    drop_table(prev)[d.index@]
                } else {
                    Seq::empty()
                },
                d,
            ),
        ),
{
    let next = prev.push(d);
    assert(next.drop_last() == prev);
    let t = d.index@;
    if !drop_table(prev).contains_key(t) {
        assert forall|i: int| 0 <= i < prev.len() implies #[trigger] prev[i].index@ != t by {
            if prev[i].index@ == t {
                assert(drop_table(prev).contains_key(t));
            }
        }
        lemma_drops_tagged_absent(prev, t);
    }
    assert(drops_tagged(next, t) == drops_tagged(prev, t).push(d));
    assert(drops_tagged(prev, t).push(d).drop_last() == drops_tagged(prev, t));
    assert forall|u: Seq<char>| #[trigger] drop_table(next).contains_key(u) <==> drop_table(prev).contains_key(u) || u == t by {
        if drop_table(next).contains_key(u) && u != t {
            let i = choose|i: int| 0 <= i < next.len() && #[trigger] next[i].index@ == u;
            assert(prev[i].index@ == u);
        }
        if drop_table(prev).contains_key(u) {
            let i = choose|i: int| 0 <= i < prev.len() && #[trigger] prev[i].index@ == u;
            assert(next[i].index@ == u);
        }
        if u == t {
            assert(next[prev.len() as int].index@ == u);
        }
    }
    let rhs = drop_table(prev).insert(
        t,
        insert_desc(if drop_table(prev).contains_key(t) { drop_table(prev)[t] } else { Seq::empty() }, d),
    );
    assert forall|u: Seq<char>| #[trigger] drop_table(next).contains_key(u) implies drop_table(next)[u] == rhs[u] by {
        if u != t {
            assert(drops_tagged(next, u) == drops_tagged(prev, u));
        } else {
            assert(stable_desc(drops_tagged(next, t)) == insert_desc(stable_desc(drops_tagged(prev, t)), d));
        }
    }
    assert(drop_table(next) =~= rhs);
}

/// The table that a list of tagged tier lists stands for.
pub open spec fn table_view(es: Seq<(String, Vec<CombinedDrop>)>) -> Map<Seq<char>, Seq<CombinedDrop>> {
    assoc_map(es).map_values(|v: Vec<CombinedDrop>| v@)
}

proof fn lemma_table_step_existing(
    es: Seq<(String, Vec<CombinedDrop>)>,
    j: int,
    n: String,
    v: Vec<CombinedDrop>,
    prev: Seq<CombinedDrop>,
    d: CombinedDrop,
)
    requires
        names_distinct(es),
        0 <= j < es.len(),
        es[j].0@ == d.index@,
        n@ == d.index@,
        table_view(es) == drop_table(prev),
        v@ == insert_desc(es[j].1@, d),
    ensures
        names_distinct(es.update(j, (n, v))),
        table_view(es.update(j, (n, v))) == drop_table(prev.push(d)),
{
    lemma_assoc_map_index(es, j);
    lemma_assoc_map_update(es, j, n, v);
    lemma_drop_table_push(prev, d);
    assert(table_view(es).contains_key(d.index@));
    assert(table_view(es.update(j, (n, v))) =~= table_view(es).insert(d.index@, v@));
}

proof fn lemma_table_step_new(
    es: Seq<(String, Vec<CombinedDrop>)>,
    n: String,
    v: Vec<CombinedDrop>,
    prev: Seq<CombinedDrop>,
    d: CombinedDrop,
)
    requires
        names_distinct(es),
        forall|j: int| 0 <= j < es.len() ==> #[trigger] es[j].0@ != d.index@,
        n@ == d.index@,
        table_view(es) == drop_table(prev),
        v@ == seq![d],
    ensures
        names_distinct(es.push((n, v))),
        table_view(es.push((n, v))) == drop_table(prev.push(d)),
{
    lemma_assoc_map_dom(es, d.index@);
    lemma_drop_table_push(prev, d);
    assert(es.push((n, v)).drop_last() == es);
    assert(v@ == insert_desc(Seq::empty(), d));
    assert(table_view(es.push((n, v))) =~= table_view(es).insert(d.index@, v@));
}

proof fn lemma_insert_position_bounds(s: Seq<CombinedDrop>, level: u32)
    ensures
        0 <= insert_position(s, level) <= s.len(),
    decreases s.len(),
{
    if s.len() > 0 && s[0].min_level >= level {
        lemma_insert_position_bounds(s.drop_first(), level);
    }
}

/// Puts `d` into a list sorted from the highest level down, after every drop of
/// a level at least its own.
fn insert_sorted(v: &mut Vec<CombinedDrop>, d: CombinedDrop)
    ensures
        final(v)@ == insert_desc(old(v)@, d),
{
    let mut p: usize = 0;
    let ghost s = v@;
    proof {
        lemma_insert_position_bounds(s, d.min_level);
    }
    while p < v.len() && v[p].min_level >= d.min_level
        invariant
            v@ == s,
            p <= s.len(),
            insert_position(s, d.min_level) == p + insert_position(s.skip(p as int), d.min_level),
        decreases s.len() - p,
    {
        proof {
            assert(s.skip(p as int).drop_first() == s.skip(p as int + 1));
        }
        p = p + 1;
    }
    proof {
        if p < s.len() {
            assert(s.skip(p as int)[0] == s[p as int]);
        }
    }
    v.insert(p, d);
}

/// The drop tiers of every chest and monster, by drop tag.
pub struct CombinedDropTable {
    entries: Vec<(String, Vec<CombinedDrop>)>,
}

impl View for CombinedDropTable {
    type V = Map<Seq<char>, Seq<CombinedDrop>>;

    closed spec fn view(&self) -> Map<Seq<char>, Seq<CombinedDrop>> {
        table_view(self.entries@)
    }
}

impl CombinedDropTable {
    #[verifier::type_invariant]
    spec fn inv(self) -> bool {
        names_distinct(self.entries@)
    }
}

/// Levels never rise along the list.
pub open spec fn sorted_desc(s: Seq<CombinedDrop>) -> bool {
    forall|i: int, j: int| 0 <= i < j < s.len() ==> s[i].min_level >= s[j].min_level
}

proof fn lemma_insert_position_props(s: Seq<CombinedDrop>, level: u32)
    ensures
        0 <= insert_position(s, level) <= s.len(),
        forall|k: int| 0 <= k < insert_position(s, level) ==> #[trigger] s[k].min_level >= level,
        insert_position(s, level) < s.len() ==> s[insert_position(s, level)].min_level < level,
    decreases s.len(),
{
    if s.len() > 0 && s[0].min_level >= level {
        lemma_insert_position_props(s.drop_first(), level);
        assert forall|k: int| 0 <= k < insert_position(s, level) implies #[trigger] s[k].min_level >= level by {
            if k > 0 {
                assert(s[k] == s.drop_first()[k - 1]);
            }
        }
    }
}

proof fn lemma_insert_desc(s: Seq<CombinedDrop>, d: CombinedDrop)
    requires
        sorted_desc(s),
    ensures
        sorted_desc(insert_desc(s, d)),
        insert_desc(s, d).to_multiset() == s.to_multiset().insert(d),
{
    let p = insert_position(s, d.min_level);
    lemma_insert_position_props(s, d.min_level);
    s.insert_ensures(p, d);
    let t = insert_desc(s, d);
    assert forall|i: int, j: int| 0 <= i < j < t.len() implies t[i].min_level >= t[j].min_level by {
        if i < p && j < p {
        } else if i < p && j == p {
        } else if i < p {
            assert(t[j] == s[j - 1]);
        } else if i == p {
            assert(t[j] == s[j - 1]);
            assert(s[p].min_level < d.min_level);
            if j - 1 > p {
                assert(s[p].min_level >= s[j - 1].min_level);
            }
        } else {
            assert(t[i] == s[i - 1]);
            assert(t[j] == s[j - 1]);
        }
    }
    assert(s == s.take(p) + s.skip(p));
    assert(t == s.take(p) + seq![d] + s.skip(p));
    vstd::seq_lib::lemma_multiset_commutative(s.take(p), s.skip(p));
    vstd::seq_lib::lemma_multiset_commutative(s.take(p) + seq![d], s.skip(p));
    vstd::seq_lib::lemma_multiset_commutative(s.take(p), seq![d]);
    assert(seq![d].to_multiset() =~= Multiset::empty().insert(d)) by {
        assert(seq![d] == Seq::<CombinedDrop>::empty().push(d));
    }
    assert(t.to_multiset() =~= s.to_multiset().insert(d));
}

/// Sorting the tiers keeps exactly the drops it was given and orders them from
/// the highest level down.
pub proof fn law_stable_desc_sorted_permutation(s: Seq<CombinedDrop>)
    ensures
        sorted_desc(stable_desc(s)),
        stable_desc(s).to_multiset() == s.to_multiset(),
    decreases s.len(),
{
    if s.len() > 0 {
        law_stable_desc_sorted_permutation(s.drop_last());
        lemma_insert_desc(stable_desc(s.drop_last()), s.last());
        assert(s == s.drop_last().push(s.last()));
    }
}

proof fn lemma_drops_tagged_multiset(s: Seq<CombinedDrop>, tag: Seq<char>, x: CombinedDrop)
    ensures
        drops_tagged(s, tag).to_multiset().count(x) == (if x.index@ == tag { s.to_multiset().count(x) } else { 0 }),
    decreases s.len(),
{
    if s.len() > 0 {
        lemma_drops_tagged_multiset(s.drop_last(), tag, x);
        assert(s == s.drop_last().push(s.last()));
    }
}

proof fn lemma_first_reached(s: Seq<CombinedDrop>, level: u32)
    requires
        sorted_desc(s),
    ensures
        match first_reached(s, level) {
            Some(d) => {
                &&& s.contains(d)
                &&& d.min_level <= level
                &&& forall|i: int| 0 <= i < s.len() && s[i].min_level <= level ==> #[trigger] s[i].min_level <= d.min_level
            },
            None => forall|i: int| 0 <= i < s.len() ==> #[trigger] s[i].min_level > level,
        },
    decreases s.len(),
{
    if s.len() > 0 {
        if level >= s[0].min_level {
            assert(s.contains(s[0]));
        } else {
            let t = s.drop_first();
            lemma_first_reached(t, level);
            assert forall|i: int| 0 < i < s.len() implies #[trigger] s[i] == t[i - 1] by {}
            match first_reached(t, level) {
                Some(d) => {
                    let k = choose|k: int| 0 <= k < t.len() && t[k] == d;
                    assert(s[k + 1] == d);
                },
                None => {},
            }
        }
    }
}

/// A drop lookup gives, among the loaded drops of that tag, one of the highest
/// level that the player's level reaches; it gives nothing only when the tag is
/// unknown or every tier of it is above the player's level.
pub proof fn law_drop_config_is_best_reached_tier(all: Seq<CombinedDrop>, tag: Seq<char>, level: u32)
    ensures
        ({
            let table = drop_table(all);
            let r = if table.contains_key(tag) { first_reached(table[tag], level) } else { None };
            match r {
                Some(d) => {
                    &&& all.contains(d)
                    &&& d.index@ == tag
                    &&& d.min_level <= level
                    &&& forall|i: int|
                        0 <= i < all.len() && #[trigger] all[i].index@ == tag && all[i].min_level <= level
                            ==> all[i].min_level <= d.min_level
                },
                None => forall|i: int|
                    0 <= i < all.len() && #[trigger] all[i].index@ == tag ==> all[i].min_level > level,
            }
        }),
{
    let table = drop_table(all);
    let tagged = drops_tagged(all, tag);
    let sorted = stable_desc(tagged);
    law_stable_desc_sorted_permutation(tagged);
    assert forall|x: CombinedDrop| #[trigger] sorted.contains(x) <==> (all.contains(x) && x.index@ == tag) by {
        lemma_drops_tagged_multiset(all, tag, x);
        sorted.to_multiset_ensures();
        all.to_multiset_ensures();
    }
    if table.contains_key(tag) {
        lemma_first_reached(sorted, level);
        match first_reached(sorted, level) {
            Some(d) => {
                assert forall|i: int|
                    0 <= i < all.len() && #[trigger] all[i].index@ == tag && all[i].min_level <= level
                    implies all[i].min_level <= d.min_level by {
                    assert(all.contains(all[i]));
                    assert(sorted.contains(all[i]));
                    let k = choose|k: int| 0 <= k < sorted.len() && sorted[k] == all[i];
                }
            },
            None => {
                assert forall|i: int| 0 <= i < all.len() && #[trigger] all[i].index@ == tag implies all[i].min_level > level by {
                    assert(all.contains(all[i]));
                    assert(sorted.contains(all[i]));
                    let k = choose|k: int| 0 <= k < sorted.len() && sorted[k] == all[i];
                }
            },
        }
    } else {
        assert forall|i: int| 0 <= i < all.len() && #[trigger] all[i].index@ == tag implies all[i].min_level > level by {
            assert(table.contains_key(tag));
        }
    }
}

impl CombinedDrop {
    /// The tag that groups this drop with the other tiers of its chest or monster.
    fn key(&self) -> (r: String)
        ensures
            r@ == self.index@,
    {
        self.index.clone()
    }

    /// The table of the chest drops followed by the monster drops: each tag maps
    /// to its drops sorted from the highest level down, drops of equal level in
    /// the order they came.
    pub fn combine(chest_list: Vec<CombinedDrop>, monster_list: Vec<CombinedDrop>) -> (t: CombinedDropTable)
        requires
            chest_list.len() + monster_list.len() <= usize::MAX,
        ensures
            t@ == drop_table(chest_list@ + monster_list@),
    {
        let ghost all = chest_list@ + monster_list@;
        let mut entries: Vec<(String, Vec<CombinedDrop>)> = Vec::new();
        let mut i: usize = 0;
        let n = chest_list.len() + monster_list.len();
        while i < n
            invariant
                n == all.len(),
                all == chest_list@ + monster_list@,
                i <= n,
                names_distinct(entries@),
                table_view(entries@) == drop_table(all.take(i as int)),
            decreases n - i,
        {
            let d = if i < chest_list.len() {
                chest_list[i].clone()
            } else {
                monster_list[i - chest_list.len()].clone()
            };
            assert(d == all[i as int]);
            let tag = d.key();
            let ghost old_entries = entries@;
            let ghost prev = all.take(i as int);
            proof {
                assert(all.take(i as int + 1) == prev.push(d));
            }
            match find_name(&entries, &tag) {
                Some(j) => {
                    let (name, mut drops) = entries.remove(j);
                    insert_sorted(&mut drops, d);
                    proof {
                        lemma_table_step_existing(old_entries, j as int, name, drops, prev, d);
                    }
                    entries.insert(j, (name, drops));
                    proof {
                        assert(entries@ == old_entries.update(j as int, (name, drops)));
                    }
                },
                None => {
                    let mut drops: Vec<CombinedDrop> = Vec::new();
                    drops.push(d);
                    proof {
                        lemma_table_step_new(old_entries, tag, drops, prev, d);
                    }
                    entries.push((tag, drops));
                },
            }
            i = i + 1;
        }
        proof {
            assert(all.take(n as int) == all);
        }
        CombinedDropTable { entries }
    }
    /// The first tier of `drop_tag`'s list (sorted from the highest level down)
    /// whose level `level` reaches; nothing for an unknown tag.
    pub fn get_drop_config(table: &CombinedDropTable, drop_tag: String, level: u32) -> (r: Option<CombinedDrop>)
        ensures
            r == (if table@.contains_key(drop_tag@) {
                first_reached(table@[drop_tag@], level)
            } else {
                None
            }),
    {
        proof {
            use_type_invariant(table);
        }
        match find_name(&table.entries, &drop_tag) {
            None => {
                proof {
                    lemma_assoc_map_dom(table.entries@, drop_tag@);
                }
                None
            },
            Some(j) => {
                proof {
                    lemma_assoc_map_index(table.entries@, j as int);
                }
                let list = &table.entries[j].1;
                let ghost s = list@;
                assert(table@.contains_key(drop_tag@) && table@[drop_tag@] == s);
                let mut i: usize = 0;
                while i < list.len()
                    invariant
                        s == list@,
                        table@.contains_key(drop_tag@),
                        table@[drop_tag@] == s,
                        i <= s.len(),
                        first_reached(s, level) == first_reached(s.skip(i as int), level),
                    decreases s.len() - i,
                {
                    proof {
                        assert(s.skip(i as int)[0] == s[i as int]);
                        assert(s.skip(i as int).drop_first() == s.skip(i as int + 1));
                    }
                    if level >= list[i].min_level {
                        assert(first_reached(s.skip(i as int), level) == Some(s[i as int]));
                        let d = list[i].clone();
                        assert(d == s[i as int]);
                        return Some(d);
                    }
                    i = i + 1;
                }
                None
            },
        }
    }
}

} // verus!
