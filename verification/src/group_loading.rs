use std::collections::{HashMap, HashSet};
use vstd::prelude::*;

use crate::challenge_manager::elapsed_ms;
use crate::events::{EventType, LuaEvt, LuaTriggerEvent, ScriptCommand};
use crate::keys::{key_list, lemma_push_contains, set_list};

verus! {

broadcast use vstd::seq_lib::group_seq_properties;

/// The groups that players other than `uid` keep loaded.
pub open spec fn others_groups(pg: Map<u32, HashSet<u32>>, uid: u32) -> Set<u32> {
    Set::new(|g: u32| exists|p: u32| p != uid && pg.contains_key(p) && #[trigger] pg[p]@.contains(g))
}

fn union_of_others(pg: &HashMap<u32, HashSet<u32>>, uid: u32) -> (r: HashSet<u32>)
    ensures
        r@ == others_groups(pg@, uid),
{
    let players = key_list(pg);
    let mut r: HashSet<u32> = HashSet::new();
    let mut i: usize = 0;
    while i < players.len()
        invariant
            i <= players@.len(),
            players@.to_set() == pg@.dom(),
            r@ == Set::new(|g: u32| exists|j: int| 0 <= j < i && players@[j] != uid
                && #[trigger] pg@[players@[j]]@.contains(g)),
        decreases players.len() - i,
    {
        let p = players[i];
        let ghost before = r@;
        if p != uid {
            let groups = pg.get(&p).unwrap();
            let items = set_list(groups);
            let mut k: usize = 0;
            while k < items.len()
                invariant
                    k <= items@.len(),
                    items@.to_set() == pg@[p]@,
                    r@ == before.union(items@.take(k as int).to_set()),
                decreases items.len() - k,
            {
                proof {
                    assert(items@.take(k as int + 1) == items@.take(k as int).push(items@[k as int]));
                }
                r.insert(items[k]);
                k = k + 1;
            }
            proof {
                assert(items@.take(k as int) == items@);
            }
        }
        proof {
            assert forall|g: u32| r@.contains(g) <==> (exists|j: int| 0 <= j < i + 1 && players@[j] != uid
                && #[trigger] pg@[players@[j]]@.contains(g)) by {
                if r@.contains(g) && !before.contains(g) {
                    assert(players@[i as int] == p);
                }
                if exists|j: int| 0 <= j < i + 1 && players@[j] != uid && #[trigger] pg@[players@[j]]@.contains(g) {
                    let j = choose|j: int| 0 <= j < i + 1 && players@[j] != uid && #[trigger] pg@[players@[j]]@.contains(g);
                    if j < i {
                        assert(before.contains(g));
                    }
                }
            }
            assert(r@ =~= Set::new(|g: u32| exists|j: int| 0 <= j < i + 1 && players@[j] != uid
                && #[trigger] pg@[players@[j]]@.contains(g)));
        }
        i = i + 1;
    }
    proof {
        assert forall|g: u32| r@.contains(g) <==> others_groups(pg@, uid).contains(g) by {
            if others_groups(pg@, uid).contains(g) {
                let p = choose|p: u32| p != uid && pg@.contains_key(p) && #[trigger] pg@[p]@.contains(g);
                assert(players@.to_set().contains(p));
                let j = players@.index_of(p);
                assert(players@[j] == p);
            }
            if r@.contains(g) {
                let j = choose|j: int| 0 <= j < i && players@[j] != uid && #[trigger] pg@[players@[j]]@.contains(g);
                assert(players@.contains(players@[j]));
                assert(pg@.dom().contains(players@[j]));
            }
        }
        assert(r@ =~= others_groups(pg@, uid));
    }
    r
}

/// The groups a move loads: those near the player, not loaded yet, whose block
/// is known.
pub open spec fn load_set(groups: Set<u32>, nearby: Seq<u32>, blocks: Map<u32, u32>) -> Set<u32> {
    Set::new(|g: u32| nearby.contains(g) && !groups.contains(g) && blocks.contains_key(g))
}

/// The groups a move unloads: loaded ones that no other player keeps and that
/// are out of the player's range.
pub open spec fn unload_set(groups: Set<u32>, others: Set<u32>, out_of_range: Set<u32>) -> Set<u32> {
    Set::new(|g: u32| groups.contains(g) && !others.contains(g) && out_of_range.contains(g))
}

/// The members of `s` that occur in `prefix`.
pub open spec fn restrict(s: Set<u32>, prefix: Seq<u32>) -> Set<u32> {
    Set::new(|h: u32| s.contains(h) && prefix.contains(h))
}

/// The command that loads group `g` of scene `scene_id`.
pub open spec fn load_command(scene_id: u32, blocks: Map<u32, u32>, g: u32) -> ScriptCommand {
    ScriptCommand::LoadGroup { scene_id, block_id: blocks[g], group_id: g }
}

/// The command that unloads group `g`.
pub open spec fn unload_command(g: u32) -> ScriptCommand {
    ScriptCommand::UnloadGroup { group_id: g }
}

/// The player's cooldown is over: it never acted, or `cd` has passed since.
pub open spec fn cooldown_passed(last: Map<u32, u64>, uid: u32, now: u64, cd: u64) -> bool {
    !last.contains_key(uid) || elapsed_ms(last[uid], now) >= cd
}

/// The groups a player keeps loaded, none if it has no entry.
pub open spec fn groups_of(pg: Map<u32, HashSet<u32>>, uid: u32) -> Set<u32> {
    if pg.contains_key(uid) { pg[uid]@ } else { Set::empty() }
}

/// The regions a player stood in, none if it has no entry.
pub open spec fn regions_of(pr: Map<u32, Set<(u32, u32)>>, uid: u32) -> Set<(u32, u32)> {
    if pr.contains_key(uid) { pr[uid] } else { Set::empty() }
}

/// The regions each player stands in, each region (a group and a config id) kept
/// once per player.
pub struct RegionTable {
    regions: HashMap<u32, Vec<(u32, u32)>>,
}

impl View for RegionTable {
    type V = Map<u32, Set<(u32, u32)>>;

    closed spec fn view(&self) -> Map<u32, Set<(u32, u32)>> {
        Map::new(|p: u32| self.regions@.contains_key(p), |p: u32| self.regions@[p]@.to_set())
    }
}

impl RegionTable {
    #[verifier::type_invariant]
    spec fn inv(self) -> bool {
        forall|p: u32| #[trigger] self.regions@.contains_key(p) ==> self.regions@[p]@.no_duplicates()
    }

    /// No player stands in any region.
    pub fn new() -> (t: Self)
        ensures
            t@ == Map::<u32, Set<(u32, u32)>>::empty(),
    {
        let t = RegionTable { regions: HashMap::new() };
        assert(t@ =~= Map::<u32, Set<(u32, u32)>>::empty());
        t
    }

    /// Takes out the regions of player `uid`, each once.
    fn take(&mut self, uid: u32) -> (v: Vec<(u32, u32)>)
        ensures
            v@.no_duplicates(),
            v@.to_set() == regions_of(old(self)@, uid),
            final(self)@ == old(self)@.remove(uid),
    {
        proof {
            use_type_invariant(&*self);
        }
        let mut regions = HashMap::new();
        std::mem::swap(&mut regions, &mut self.regions);
        let v = match regions.remove(&uid) {
            Some(v) => v,
            None => Vec::new(),
        };
        self.regions = regions;
        assert(self@ =~= old(self)@.remove(uid));
        v
    }

    /// Player `uid` now stands in the regions of `v`.
    fn put(&mut self, uid: u32, v: Vec<(u32, u32)>)
        requires
            v@.no_duplicates(),
        ensures
            final(self)@ == old(self)@.insert(uid, v@.to_set()),
    {
        proof {
            use_type_invariant(&*self);
        }
        let ghost s = v@.to_set();
        let mut regions = HashMap::new();
        std::mem::swap(&mut regions, &mut self.regions);
        let _ = regions.insert(uid, v);
        self.regions = regions;
        assert(self@ =~= old(self)@.insert(uid, s));
    }
}

/// The script event of a player entering (`enter`) or leaving a region, given as
/// its group and its config id.
pub open spec fn region_event(region: (u32, u32), enter: bool) -> LuaTriggerEvent {
    LuaTriggerEvent {
        group_id: region.0,
        event_type: if enter { EventType::EventEnterRegion } else { EventType::EventLeaveRegion },
        evt: LuaEvt { param1: region.1, param2: region.1, ..LuaEvt::zeroed() },
    }
}

fn contains_pair(v: &Vec<(u32, u32)>, p: (u32, u32)) -> (r: bool)
    ensures
        r == v@.contains(p),
{
    let mut i: usize = 0;
    while i < v.len()
        invariant
            i <= v@.len(),
            forall|j: int| 0 <= j < i ==> v@[j] != p,
        decreases v.len() - i,
    {
        if v[i].0 == p.0 && v[i].1 == p.1 {
            assert(v@[i as int] == p);
            return true;
        }
        i = i + 1;
    }
    false
}

fn region_trigger(region: (u32, u32), enter: bool) -> (e: LuaTriggerEvent)
    ensures
        e == region_event(region, enter),
{
    LuaTriggerEvent {
        group_id: region.0,
        event_type: if enter { EventType::EventEnterRegion } else { EventType::EventLeaveRegion },
        evt: LuaEvt { param1: region.1, param2: region.1, param3: 0, source_eid: 0, target_eid: 0 },
    }
}

/// The pairs of `v`, each once, in the order they first occur.
fn distinct_pairs(v: &Vec<(u32, u32)>) -> (r: Vec<(u32, u32)>)
    ensures
        r@.no_duplicates(),
        r@.to_set() == v@.to_set(),
{
    let mut r: Vec<(u32, u32)> = Vec::new();
    let mut i: usize = 0;
    while i < v.len()
        invariant
            i <= v@.len(),
            r@.no_duplicates(),
            r@.to_set() == v@.take(i as int).to_set(),
        decreases v.len() - i,
    {
        proof {
            assert(v@.take(i as int + 1) == v@.take(i as int).push(v@[i as int]));
        }
        let ghost r0 = r@;
        let x = v[i];
        let present = contains_pair(&r, x);
        if !present {
            r.push(x);
        }
        proof {
            if present {
                assert(r@ == r0);
                assert(r0.contains(x));
            } else {
                assert(r@ == r0.push(x));
            }
            assert forall|q: (u32, u32)| r@.to_set().contains(q) <==> v@.take(i as int + 1).to_set().contains(q) by {
                lemma_push_contains(v@.take(i as int), x, q);
                lemma_push_contains(r0, x, q);
                assert(r0.to_set().contains(q) == v@.take(i as int).to_set().contains(q));
            }
            assert(r@.to_set() =~= v@.take(i as int + 1).to_set());
        }
        i = i + 1;
    }
    proof {
        assert(v@.take(i as int) == v@);
    }
    r
}

/// A move never unloads a group that another player keeps, never unloads what it
/// loads, and leaves every loaded group that is in range loaded.
pub proof fn law_loading_keeps_shared_groups(
    g0: Set<u32>,
    nearby: Seq<u32>,
    blocks: Map<u32, u32>,
    others: Set<u32>,
    out_of_range: Set<u32>,
    g: u32,
)
    ensures
        ({
            let loads = load_set(g0, nearby, blocks);
            let unloads = unload_set(g0, others, out_of_range);
            let after = g0.union(loads).difference(unloads);
            &&& loads.disjoint(unloads)
            &&& g0.contains(g) && others.contains(g) ==> after.contains(g)
            &&& g0.contains(g) && !out_of_range.contains(g) ==> after.contains(g)
            &&& loads.contains(g) ==> after.contains(g)
        }),
{
}

/// Every group that a player keeps stays loaded: if that holds before a move, it
/// holds after it, for the moving player and for every other one.
pub proof fn law_kept_groups_stay_loaded(
    g0: Set<u32>,
    pg0: Map<u32, HashSet<u32>>,
    uid: u32,
    nearby: Seq<u32>,
    blocks: Map<u32, u32>,
    out_of_range: Set<u32>,
    p: u32,
    g: u32,
)
    requires
        forall|q: u32, h: u32| pg0.contains_key(q) && #[trigger] pg0[q]@.contains(h) ==> g0.contains(h),
    ensures
        ({
            let loads = load_set(g0, nearby, blocks);
            let unloads = unload_set(g0, others_groups(pg0, uid), out_of_range);
            let after = g0.union(loads).difference(unloads);
            let mine = groups_of(pg0, uid).union(loads).difference(unloads);
            &&& mine.contains(g) ==> after.contains(g)
            &&& p != uid && pg0.contains_key(p) && pg0[p]@.contains(g) ==> after.contains(g)
        }),
{
    if p != uid && pg0.contains_key(p) && pg0[p]@.contains(g) {
        assert(others_groups(pg0, uid).contains(g));
    }
}

/// Entering and leaving regions: a region the player left was one it stood in
/// and no longer does, one it entered is one it now stands in and did not; a
/// player that stays in the same regions raises no event.
pub proof fn law_region_events_follow_the_change(prev: Set<(u32, u32)>, cur: Set<(u32, u32)>)
    ensures
        prev.difference(cur).disjoint(cur.difference(prev)),
        prev == cur ==> prev.difference(cur).is_empty() && cur.difference(prev).is_empty(),
{
    if prev == cur {
        assert(prev.difference(cur) =~= Set::empty());
        assert(cur.difference(prev) =~= Set::empty());
    }
}

/// What a move does to the groups: it loads exactly the groups near the player
/// that are not loaded yet and whose block is known, each with a command naming
/// its scene, its block and itself; it unloads exactly the loaded groups that no
/// other player keeps and that are out of range, each with a command naming it.
pub proof fn law_move_loads_and_unloads(
    groups: Set<u32>,
    nearby: Seq<u32>,
    blocks: Map<u32, u32>,
    others: Set<u32>,
    out_of_range: Set<u32>,
    scene_id: u32,
    g: u32,
)
    ensures
        load_set(groups, nearby, blocks).contains(g) <==> (nearby.contains(g) && !groups.contains(g)
            && blocks.contains_key(g)),
        unload_set(groups, others, out_of_range).contains(g) <==> (groups.contains(g) && !others.contains(g)
            && out_of_range.contains(g)),
        blocks.contains_key(g) ==> load_command(scene_id, blocks, g) == (ScriptCommand::LoadGroup {
            scene_id,
            block_id: blocks[g],
            group_id: g,
        }),
        unload_command(g) == (ScriptCommand::UnloadGroup { group_id: g }),
{
}

/// A player's cooldown: a player that never moved may act at once, and one that
/// did may act again once `cd` milliseconds have passed since, and not before.
pub proof fn law_cooldown(last: Map<u32, u64>, uid: u32, now: u64, cd: u64)
    ensures
        !last.contains_key(uid) ==> cooldown_passed(last, uid, now, cd),
        last.contains_key(uid) && now >= last[uid] ==> (cooldown_passed(last, uid, now, cd) <==> now
            - last[uid] >= cd),
        last.contains_key(uid) && now < last[uid] ==> (cooldown_passed(last, uid, now, cd) <==> cd == 0),
        cooldown_passed(last.insert(uid, now), uid, now, cd) <==> cd == 0,
{
}

/// Entering or leaving a region raises the enter or leave event of the region's
/// group, carrying the region's config id.
pub proof fn law_region_event_names_the_region(group_id: u32, config_id: u32, enter: bool)
    ensures
        region_event((group_id, config_id), enter).group_id == group_id,
        region_event((group_id, config_id), enter).event_type == (if enter {
            EventType::EventEnterRegion
        } else {
            EventType::EventLeaveRegion
        }),
        region_event((group_id, config_id), enter).evt == (LuaEvt {
            param1: config_id,
            param2: config_id,
            ..LuaEvt::zeroed()
        }),
{
}

/// Which scene groups are loaded, for which player, and which regions each player
/// stands in.
pub struct GroupLoadManager {
    pub groups: HashSet<u32>,
    pub player_groups: HashMap<u32, HashSet<u32>>,
    pub last_load: HashMap<u32, u64>,
    pub last_region_entry: HashMap<u32, u64>,
    pub player_regions: RegionTable,
    pub cd_ms: u64,
    pub region_entry_cd_ms: u64,
}

fn cooldown_over(last: &HashMap<u32, u64>, uid: u32, now_ms: u64, cd_ms: u64) -> (r: bool)
    ensures
        r == cooldown_passed(last@, uid, now_ms, cd_ms),
{
    match last.get(&uid) {
        None => true,
        Some(t) => now_ms.saturating_sub(*t) >= cd_ms,
    }
}

impl Default for GroupLoadManager {
    /// Nothing loaded; group loads at most every three seconds and region checks
    /// at most every second per player.
    fn default() -> (m: Self)
        ensures
            m.groups@ == Set::<u32>::empty(),
            m.player_groups@ == Map::<u32, HashSet<u32>>::empty(),
            m.last_load@ == Map::<u32, u64>::empty(),
            m.last_region_entry@ == Map::<u32, u64>::empty(),
            m.player_regions@ == Map::<u32, Set<(u32, u32)>>::empty(),
            m.cd_ms == 3000,
            m.region_entry_cd_ms == 1000,
    {
        GroupLoadManager {
            groups: HashSet::new(),
            player_groups: HashMap::new(),
            last_load: HashMap::new(),
            last_region_entry: HashMap::new(),
            player_regions: RegionTable::new(),
            cd_ms: 3000,
            region_entry_cd_ms: 1000,
        }
    }
}

impl GroupLoadManager {
    /// A move of player `uid` in scene `scene_id` at `now_ms`. Unless it is a
    /// dungeon load, it is ignored while the player's load cooldown runs.
    /// Otherwise the groups near the player (`nearby_group_ids`) that are not
    /// loaded and whose block is known (`group_blocks`) are loaded, and the loaded
    /// groups that no other player keeps and that are `out_of_range` of the player
    /// are unloaded; the commands say so, the loads first.
    pub fn handle_player_move_for_group_loading(
        &mut self,
        uid: u32,
        scene_id: u32,
        is_dungeon_load: bool,
        now_ms: u64,
        nearby_group_ids: &Vec<u32>,
        group_blocks: &HashMap<u32, u32>,
        out_of_range: &HashSet<u32>,
    ) -> (cmds: Vec<ScriptCommand>)
        ensures
            !(is_dungeon_load || cooldown_passed(old(self).last_load@, uid, now_ms, old(self).cd_ms)) ==> {
                &&& *final(self) == *old(self)
                &&& cmds@ == Seq::<ScriptCommand>::empty()
            },
            is_dungeon_load || cooldown_passed(old(self).last_load@, uid, now_ms, old(self).cd_ms) ==> {
                let g0 = old(self).groups@;
                let loads = load_set(g0, nearby_group_ids@, group_blocks@);
                let unloads = unload_set(g0, others_groups(old(self).player_groups@, uid), out_of_range@);
                &&& final(self).last_load@ == old(self).last_load@.insert(uid, now_ms)
                &&& final(self).groups@ == g0.union(loads).difference(unloads)
                &&& final(self).player_groups@.dom() == old(self).player_groups@.dom().insert(uid)
                &&& final(self).player_groups@[uid]@ == groups_of(old(self).player_groups@, uid).union(
                    loads,
                ).difference(unloads)
                &&& forall|p: u32|
                    p != uid && #[trigger] old(self).player_groups@.contains_key(p)
                        ==> final(self).player_groups@[p] == old(self).player_groups@[p]
                &&& final(self).last_region_entry@ == old(self).last_region_entry@
                &&& final(self).player_regions@ == old(self).player_regions@
                &&& final(self).cd_ms == old(self).cd_ms
                &&& final(self).region_entry_cd_ms == old(self).region_entry_cd_ms
                &&& exists|lo: Seq<u32>, uo: Seq<u32>|
                    {
                        &&& lo.no_duplicates()
                        &&& lo.to_set() == loads
                        &&& uo.no_duplicates()
                        &&& uo.to_set() == unloads
                        &&& cmds@ == lo.map_values(|g: u32| load_command(scene_id, group_blocks@, g))
                            + uo.map_values(|g: u32| unload_command(g))
                    }
            },
    {
        let allowed = is_dungeon_load || cooldown_over(&self.last_load, uid, now_ms, self.cd_ms);
        if !allowed {
            return Vec::new();
        }
        let ghost g0 = self.groups@;
        let ghost pg0 = self.player_groups@;
        assert(pg0 == old(self).player_groups@);
        let ghost loads = load_set(g0, nearby_group_ids@, group_blocks@);
        let ghost unloads = unload_set(g0, others_groups(pg0, uid), out_of_range@);
        let _ = self.last_load.insert(uid, now_ms);
        let others = union_of_others(&self.player_groups, uid);
        let loaded_before = set_list(&self.groups);
        let mut mine = match self.player_groups.remove(&uid) {
            Some(s) => s,
            None => HashSet::new(),
        };
        let ghost m0 = mine@;
        assert(m0 == groups_of(pg0, uid));
        let mut load_cmds: Vec<ScriptCommand> = Vec::new();
        let ghost mut lo: Seq<u32> = Seq::empty();
        let mut i: usize = 0;
        while i < nearby_group_ids.len()
            invariant
                i <= nearby_group_ids@.len(),
                self.player_groups@ == pg0.remove(uid),
                self.last_load@ == old(self).last_load@.insert(uid, now_ms),
                self.last_region_entry@ == old(self).last_region_entry@,
                self.player_regions@ == old(self).player_regions@,
                self.cd_ms == old(self).cd_ms,
                self.region_entry_cd_ms == old(self).region_entry_cd_ms,
                self.groups@ == g0.union(load_set(g0, nearby_group_ids@.take(i as int), group_blocks@)),
                mine@ == m0.union(load_set(g0, nearby_group_ids@.take(i as int), group_blocks@)),
                lo.no_duplicates(),
                lo.to_set() == load_set(g0, nearby_group_ids@.take(i as int), group_blocks@),
                load_cmds@ == lo.map_values(|g: u32| load_command(scene_id, group_blocks@, g)),
            decreases nearby_group_ids.len() - i,
        {
            let g = nearby_group_ids[i];
            let ghost li = load_set(g0, nearby_group_ids@.take(i as int), group_blocks@);
            proof {
                assert(nearby_group_ids@.take(i as int + 1) == nearby_group_ids@.take(i as int).push(g));
            }
            if !self.groups.contains(&g) {
                match group_blocks.get(&g) {
                    Some(b) => {
                        self.groups.insert(g);
                        mine.insert(g);
                        load_cmds.push(ScriptCommand::LoadGroup { scene_id, block_id: *b, group_id: g });
                        proof {
                            assert(!lo.to_set().contains(g));
                            lo = lo.push(g);
                            assert(load_set(g0, nearby_group_ids@.take(i as int + 1), group_blocks@) =~= li.insert(g));
                            assert(lo.to_set() =~= li.insert(g));
                            assert(self.groups@ =~= g0.union(li.insert(g)));
                            assert(mine@ =~= m0.union(li.insert(g)));
                        }
                    },
                    None => {
                        proof {
                            assert(load_set(g0, nearby_group_ids@.take(i as int + 1), group_blocks@) =~= li);
                        }
                    },
                }
            } else {
                proof {
                    assert(load_set(g0, nearby_group_ids@.take(i as int + 1), group_blocks@) =~= li);
                }
            }
            i = i + 1;
        }
        proof {
            assert(nearby_group_ids@.take(i as int) == nearby_group_ids@);
        }
        let mut cmds = load_cmds;
        let ghost mut uo: Seq<u32> = Seq::empty();
        let ghost after_loads = self.groups@;
        let ghost mine_after_loads = mine@;
        let mut k: usize = 0;
        while k < loaded_before.len()
            invariant
                k <= loaded_before@.len(),
                unloads == unload_set(g0, others_groups(pg0, uid), out_of_range@),
                loads == load_set(g0, nearby_group_ids@, group_blocks@),
                self.player_groups@ == pg0.remove(uid),
                self.last_load@ == old(self).last_load@.insert(uid, now_ms),
                self.last_region_entry@ == old(self).last_region_entry@,
                self.player_regions@ == old(self).player_regions@,
                self.cd_ms == old(self).cd_ms,
                self.region_entry_cd_ms == old(self).region_entry_cd_ms,
                loaded_before@.no_duplicates(),
                loaded_before@.to_set() == g0,
                others@ == others_groups(pg0, uid),
                after_loads == g0.union(loads),
                mine_after_loads == m0.union(loads),
                self.groups@ == after_loads.difference(
                    restrict(unloads, loaded_before@.take(k as int)),
                ),
                mine@ == mine_after_loads.difference(
                    restrict(unloads, loaded_before@.take(k as int)),
                ),
                uo.no_duplicates(),
                uo.to_set() == restrict(unloads, loaded_before@.take(k as int)),
                cmds@ == lo.map_values(|g: u32| load_command(scene_id, group_blocks@, g))
                    + uo.map_values(|g: u32| unload_command(g)),
            decreases loaded_before.len() - k,
        {
            let g = loaded_before[k];
            let ghost uk = restrict(unloads, loaded_before@.take(k as int));
            proof {
                assert(loaded_before@.take(k as int + 1) == loaded_before@.take(k as int).push(g));
                assert(loaded_before@.to_set().contains(g));
                assert(!loaded_before@.take(k as int).contains(g));
            }
            proof {
                assert(unloads.contains(g) == (!others@.contains(g) && out_of_range@.contains(g)));
            }
            if !others.contains(&g) && out_of_range.contains(&g) {
                self.groups.remove(&g);
                mine.remove(&g);
                cmds.push(ScriptCommand::UnloadGroup { group_id: g });
                proof {
                    assert(!uo.to_set().contains(g));
                    uo = uo.push(g);
                    assert(restrict(unloads, loaded_before@.take(k as int + 1)) =~= uk.insert(g));
                    assert(uo.to_set() =~= uk.insert(g));
                    assert(self.groups@ =~= after_loads.difference(uk.insert(g)));
                    assert(mine@ =~= mine_after_loads.difference(uk.insert(g)));
                    assert(uo.map_values(|g: u32| unload_command(g)) == uo.drop_last().map_values(
                        |g: u32| unload_command(g),
                    ).push(unload_command(g)));
                }
            } else {
                proof {
                    assert(restrict(unloads, loaded_before@.take(k as int + 1)) =~= uk);
                }
            }
            k = k + 1;
        }
        proof {
            assert(loaded_before@.take(k as int) == loaded_before@);
            assert(restrict(unloads, loaded_before@.take(k as int)) =~= unloads);
        }
        let _ = self.player_groups.insert(uid, mine);
        proof {
            assert(self.player_groups@.dom() =~= pg0.dom().insert(uid));
        }
        cmds
    }
    /// A move of player `uid` at `now_ms`, standing in `current_regions` (each a
    /// group and a region config id). While the player's region cooldown runs it
    /// is ignored. Otherwise the player leaves each region it stood in and is no
    /// longer in, enters each it is now in and was not, and now stands in exactly
    /// `current_regions`; the events say so, the leaves first.
    pub fn handle_player_move_for_region_entry(&mut self, uid: u32, now_ms: u64, current_regions: &Vec<(u32, u32)>) -> (events: Vec<LuaTriggerEvent>)
        ensures
            !cooldown_passed(old(self).last_region_entry@, uid, now_ms, old(self).region_entry_cd_ms) ==> {
                &&& *final(self) == *old(self)
                &&& events@ == Seq::<LuaTriggerEvent>::empty()
            },
            cooldown_passed(old(self).last_region_entry@, uid, now_ms, old(self).region_entry_cd_ms) ==> {
                let prev = regions_of(old(self).player_regions@, uid);
                let cur = current_regions@.to_set();
                &&& final(self).last_region_entry@ == old(self).last_region_entry@.insert(uid, now_ms)
                &&& final(self).player_regions@ == old(self).player_regions@.insert(uid, cur)
                &&& final(self).groups@ == old(self).groups@
                &&& final(self).player_groups@ == old(self).player_groups@
                &&& final(self).last_load@ == old(self).last_load@
                &&& final(self).cd_ms == old(self).cd_ms
                &&& final(self).region_entry_cd_ms == old(self).region_entry_cd_ms
                &&& exists|lv: Seq<(u32, u32)>, ev: Seq<(u32, u32)>|
                    {
                        &&& lv.no_duplicates()
                        &&& lv.to_set() == prev.difference(cur)
                        &&& ev.no_duplicates()
                        &&& ev.to_set() == cur.difference(prev)
                        &&& events@ == lv.map_values(|r: (u32, u32)| region_event(r, false))
                            + ev.map_values(|r: (u32, u32)| region_event(r, true))
                    }
            },
    {
        if !cooldown_over(&self.last_region_entry, uid, now_ms, self.region_entry_cd_ms) {
            return Vec::new();
        }
        let ghost pr0 = self.player_regions@;
        let ghost prev = regions_of(pr0, uid);
        let ghost cur = current_regions@.to_set();
        let _ = self.last_region_entry.insert(uid, now_ms);
        let current = distinct_pairs(current_regions);
        let previous = self.player_regions.take(uid);
        assert(previous@.to_set() == prev);
        let mut events: Vec<LuaTriggerEvent> = Vec::new();
        let ghost mut lv: Seq<(u32, u32)> = Seq::empty();
        let mut i: usize = 0;
        while i < previous.len()
            invariant
                i <= previous@.len(),
                previous@.no_duplicates(),
                current@.to_set() == cur,
                lv.no_duplicates(),
                previous@.to_set() == prev,
                forall|q: (u32, u32)|
                    #[trigger] lv.to_set().contains(q) <==> (previous@.take(i as int).contains(q) && !cur.contains(q)),
                events@ == lv.map_values(|r: (u32, u32)| region_event(r, false)),
            decreases previous.len() - i,
        {
            let r = previous[i];
            proof {
                assert(previous@.take(i as int + 1) == previous@.take(i as int).push(r));
                assert(!previous@.take(i as int).contains(r));
            }
            let ghost lv0 = lv;
            proof {
                assert(!lv.to_set().contains(r));
            }
            let stays = contains_pair(&current, r);
            if !stays {
                events.push(region_trigger(r, false));
                proof {
                    lv = lv.push(r);
                }
            }
            proof {
                assert(stays == cur.contains(r));
                if stays {
                    assert(lv == lv0);
                } else {
                    assert(lv == lv0.push(r));
                }
                assert forall|q: (u32, u32)| #[trigger] lv.to_set().contains(q) <==> (previous@.take(i as int + 1).contains(q) && !cur.contains(q)) by {
                    lemma_push_contains(previous@.take(i as int), r, q);
                    lemma_push_contains(lv0, r, q);
                    assert(lv0.to_set().contains(q) == (previous@.take(i as int).contains(q) && !cur.contains(q)));
                }
            }
            i = i + 1;
        }
        proof {
            assert(previous@.take(i as int) == previous@);
            assert(lv.to_set() =~= prev.difference(cur));
        }
        let ghost mut ev: Seq<(u32, u32)> = Seq::empty();
        let ghost leave_events = events@;
        let mut k: usize = 0;
        while k < current.len()
            invariant
                k <= current@.len(),
                current@.no_duplicates(),
                previous@.to_set() == prev,
                ev.no_duplicates(),
                current@.to_set() == cur,
                forall|q: (u32, u32)|
                    #[trigger] ev.to_set().contains(q) <==> (current@.take(k as int).contains(q) && !prev.contains(q)),
                events@ == leave_events + ev.map_values(|r: (u32, u32)| region_event(r, true)),
            decreases current.len() - k,
        {
            let r = current[k];
            proof {
                assert(current@.take(k as int + 1) == current@.take(k as int).push(r));
                assert(!current@.take(k as int).contains(r));
            }
            let ghost ev0 = ev;
            proof {
                assert(!ev.to_set().contains(r));
            }
            let was = contains_pair(&previous, r);
            if !was {
                events.push(region_trigger(r, true));
                proof {
                    ev = ev.push(r);
                }
            }
            proof {
                assert(was == prev.contains(r));
                if was {
                    assert(ev == ev0);
                } else {
                    assert(ev == ev0.push(r));
                }
                assert forall|q: (u32, u32)| #[trigger] ev.to_set().contains(q) <==> (current@.take(k as int + 1).contains(q) && !prev.contains(q)) by {
                    lemma_push_contains(current@.take(k as int), r, q);
                    lemma_push_contains(ev0, r, q);
                    assert(ev0.to_set().contains(q) == (current@.take(k as int).contains(q) && !prev.contains(q)));
                }
            }
            k = k + 1;
        }
        proof {
            assert(current@.take(k as int) == current@);
            assert(ev.to_set() =~= cur.difference(prev));
        }
        self.player_regions.put(uid, current);
        events
    }
}

} // verus!
