use nod_krai_gi::events::{EventType, ScriptCommand};
use nod_krai_gi::group_loading::GroupLoadManager;
use std::collections::{HashMap, HashSet};

fn blocks() -> HashMap<u32, u32> {
    let mut m = HashMap::new();
    m.insert(1, 100);
    m.insert(2, 100);
    m.insert(3, 200);
    m
}

#[test]
fn first_move_loads_nearby_groups_with_known_blocks() {
    let mut m = GroupLoadManager::default();
    let mut cmds = m.handle_player_move_for_group_loading(5, 3, false, 10_000, &vec![1, 2, 2, 9], &blocks(), &HashSet::new());
    cmds.sort_by_key(|c| match c {
        ScriptCommand::LoadGroup { group_id, .. } => *group_id,
        ScriptCommand::UnloadGroup { group_id } => 1000 + *group_id,
    });
    assert_eq!(cmds, vec![
        ScriptCommand::LoadGroup { scene_id: 3, block_id: 100, group_id: 1 },
        ScriptCommand::LoadGroup { scene_id: 3, block_id: 100, group_id: 2 },
    ]);
    assert_eq!(m.groups, HashSet::from([1, 2]));
    assert_eq!(m.player_groups[&5], HashSet::from([1, 2]));
    assert_eq!(m.last_load[&5], 10_000);
}

#[test]
fn moves_within_cooldown_are_ignored_unless_dungeon_load() {
    let mut m = GroupLoadManager::default();
    m.handle_player_move_for_group_loading(5, 3, false, 10_000, &vec![1], &blocks(), &HashSet::new());
    let cmds = m.handle_player_move_for_group_loading(5, 3, false, 12_000, &vec![3], &blocks(), &HashSet::new());
    assert!(cmds.is_empty());
    assert_eq!(m.last_load[&5], 10_000);
    let cmds = m.handle_player_move_for_group_loading(5, 3, true, 12_000, &vec![3], &blocks(), &HashSet::new());
    assert_eq!(cmds, vec![ScriptCommand::LoadGroup { scene_id: 3, block_id: 200, group_id: 3 }]);
}

#[test]
fn groups_out_of_range_unload_unless_another_player_keeps_them() {
    let mut m = GroupLoadManager::default();
    m.handle_player_move_for_group_loading(5, 3, false, 10_000, &vec![1, 2], &blocks(), &HashSet::new());
    m.handle_player_move_for_group_loading(6, 3, false, 10_000, &vec![], &blocks(), &HashSet::new());
    m.player_groups.get_mut(&6).unwrap().insert(2);
    let cmds = m.handle_player_move_for_group_loading(5, 3, false, 14_000, &vec![3], &blocks(), &HashSet::from([1, 2]));
    assert_eq!(cmds, vec![
        ScriptCommand::LoadGroup { scene_id: 3, block_id: 200, group_id: 3 },
        ScriptCommand::UnloadGroup { group_id: 1 },
    ]);
    assert_eq!(m.groups, HashSet::from([2, 3]));
    assert_eq!(m.player_groups[&5], HashSet::from([2, 3]));
    assert_eq!(m.player_groups[&6], HashSet::from([2]));
}

#[test]
fn region_enter_and_leave_events() {
    let mut m = GroupLoadManager::default();
    let ev = m.handle_player_move_for_region_entry(5, 1_000, &vec![(1, 10), (1, 10), (2, 20)]);
    assert_eq!(ev.len(), 2);
    assert!(ev.iter().all(|e| e.event_type == EventType::EventEnterRegion));
    assert!(ev.iter().any(|e| e.group_id == 1 && e.evt.param1 == 10 && e.evt.param2 == 10));
    let ev = m.handle_player_move_for_region_entry(5, 1_500, &vec![]);
    assert!(ev.is_empty());
    let ev = m.handle_player_move_for_region_entry(5, 2_000, &vec![(2, 20), (3, 30)]);
    assert_eq!(ev.len(), 2);
    assert_eq!(ev[0].event_type, EventType::EventLeaveRegion);
    assert_eq!((ev[0].group_id, ev[0].evt.param1), (1, 10));
    assert_eq!(ev[1].event_type, EventType::EventEnterRegion);
    assert_eq!((ev[1].group_id, ev[1].evt.param1), (3, 30));
    let ev = m.handle_player_move_for_region_entry(5, 3_000, &vec![(3, 30), (2, 20)]);
    assert!(ev.is_empty());
}

#[test]
fn default_manager_cooldowns() {
    let m = GroupLoadManager::default();
    assert_eq!(m.cd_ms, 3000);
    assert_eq!(m.region_entry_cd_ms, 1000);
    assert!(m.groups.is_empty());
}
