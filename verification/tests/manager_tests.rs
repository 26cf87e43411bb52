use nod_krai_gi::challenge::{ActiveChallenge, ChallengeState, ChallengeType};
use nod_krai_gi::challenge_manager::{timer_events, timer_step, ChallengeManager, ChallengeTimer, ChallengeUpdateResult};
use nod_krai_gi::events::{EventType, LuaEvt};

fn kill(index: u32, group: u32, goal: u32) -> ActiveChallenge {
    ActiveChallenge::new(0, 1, 100 + index, group, goal, 0, 0, index, ChallengeType::ChallengeKillCount)
}

#[test]
fn next_index_counts_up() {
    let mut m = ChallengeManager::new();
    assert_eq!(m.get_next_challenge_index(), 1);
    assert_eq!(m.get_next_challenge_index(), 2);
}

#[test]
fn start_then_stop_returns_the_finished_challenge() {
    let mut m = ChallengeManager::new();
    let ev = m.start_challenge(kill(3, 50, 4));
    assert_eq!(ev.group_id, 50);
    assert_eq!(ev.challenge_id, 103);
    assert_eq!(ev.challenge_index, 3);
    assert_eq!(ev.param_list, vec![4, 50]);
    assert_eq!(m.active_challenges[&3].state, ChallengeState::Active);
    let (c, fin) = m.stop_challenge(3, true).unwrap();
    assert_eq!(c.state, ChallengeState::Finished);
    assert!(fin.is_success);
    assert_eq!(fin.challenge_index, 3);
    assert!(m.active_challenges.is_empty());
    assert!(m.stop_challenge(3, false).is_none());
}

#[test]
fn kill_monster_counts_only_running() {
    let mut m = ChallengeManager::new();
    assert!(m.kill_monster(1, 1).is_none());
    m.start_challenge(kill(1, 50, 4));
    let p = m.kill_monster(1, 2).unwrap();
    assert_eq!(p.value, 2);
    assert_eq!(p.param_index, 1);
    assert_eq!(p.group_id, 50);
    let mut c = m.active_challenges[&1];
    c.pause();
    m.active_challenges.insert(1, c);
    assert!(m.kill_monster(1, 2).is_none());
    assert_eq!(m.active_challenges[&1].target_count, 2);
}

#[test]
fn update_time_extends_and_reports() {
    let mut m = ChallengeManager::new();
    let c = ActiveChallenge::new(0, 1, 7, 60, 50, 8, 0, 2, ChallengeType::ChallengeKillCountInTime);
    m.start_challenge(c);
    let p = m.update_time_by_index(2, 30).unwrap();
    assert_eq!(p.value, 90);
    assert_eq!(p.param_index, 2);
    assert!(m.update_time_by_index(9, 30).is_none());
    m.start_challenge(kill(4, 50, 3));
    assert!(m.update_time_by_index(4, 30).is_none());
}

#[test]
fn update_challenges_finishes_succeeded_and_failed() {
    let mut m = ChallengeManager::new();
    m.start_challenge(kill(1, 50, 1));
    m.start_challenge(kill(2, 50, 5));
    let timed = ActiveChallenge::new(0, 1, 9, 10, 60, 8, 0, 3, ChallengeType::ChallengeKillCountInTime);
    m.start_challenge(timed);
    m.kill_monster(1, 1);
    let mut t = m.active_challenges[&3];
    t.time_cost = 11;
    m.active_challenges.insert(3, t);
    let mut results = m.update_challenges();
    results.sort_by_key(|r| match r {
        ChallengeUpdateResult::Running {} => 0,
        ChallengeUpdateResult::Success { challenge_index, .. } => *challenge_index,
        ChallengeUpdateResult::Failed { challenge_index, .. } => *challenge_index,
    });
    assert_eq!(results.len(), 3);
    assert_eq!(results[0], ChallengeUpdateResult::Running {});
    assert_eq!(results[1], ChallengeUpdateResult::Success { challenge_index: 1, group_id: 50, challenge_id: 101, time_cost: 0 });
    assert_eq!(results[2], ChallengeUpdateResult::Failed { challenge_index: 3, group_id: 60, challenge_id: 9, time_cost: 11 });
    assert_eq!(m.active_challenges[&1].state, ChallengeState::Finished);
    assert_eq!(m.active_challenges[&3].state, ChallengeState::Finished);
    assert_eq!(m.active_challenges[&2].state, ChallengeState::Active);
    // A second step reports only the running one.
    let again = m.update_challenges();
    assert_eq!(again, vec![ChallengeUpdateResult::Running {}]);
}

#[test]
fn update_by_index_of_unknown_is_running() {
    let mut m = ChallengeManager::new();
    assert_eq!(m.update_challenges_by_index(8), ChallengeUpdateResult::Running {});
}

#[test]
fn remove_group_challenges_removes_only_that_group() {
    let mut m = ChallengeManager::new();
    m.start_challenge(kill(1, 50, 1));
    m.start_challenge(kill(2, 60, 1));
    m.start_challenge(kill(3, 50, 1));
    let mut events = m.remove_group_challenges(50);
    events.sort_by_key(|e| e.challenge_index);
    assert_eq!(events.len(), 2);
    assert_eq!(events[0].challenge_index, 1);
    assert_eq!(events[1].challenge_index, 3);
    assert!(events.iter().all(|e| !e.is_success && e.group_id == 50));
    assert_eq!(m.active_challenges.len(), 1);
    assert!(m.active_challenges.contains_key(&2));
}

#[test]
fn monster_kill_challenge_lookup() {
    let mut m = ChallengeManager::new();
    assert_eq!(m.get_challenge_for_monster_kill(50), None);
    let survive = ActiveChallenge::new(50, 1, 9, 10, 0, 0, 0, 7, ChallengeType::ChallengeSurvive);
    m.start_challenge(survive);
    assert_eq!(m.get_challenge_for_monster_kill(50), None);
    m.start_challenge(kill(2, 50, 1));
    assert_eq!(m.get_challenge_for_monster_kill(50), Some(2));
    assert_eq!(m.get_challenge_for_monster_kill(60), None);
}

#[test]
fn timer_fires_once_per_interval() {
    let mut t = ChallengeTimer::new(1_000);
    assert!(!t.tick(1_500));
    assert!(t.tick(2_000));
    assert_eq!(t.last_tick_ms, 2_000);
    assert!(!t.tick(2_999));
    assert!(!t.tick(500));
    assert!(t.tick(3_000));
}

#[test]
fn timer_events_for_results() {
    let results = vec![
        ChallengeUpdateResult::Running {},
        ChallengeUpdateResult::Success { challenge_index: 1, group_id: 50, challenge_id: 7, time_cost: 3 },
        ChallengeUpdateResult::Failed { challenge_index: 2, group_id: 60, challenge_id: 8, time_cost: 4 },
    ];
    let (lua, fin) = timer_events(&results);
    assert_eq!(lua.len(), 4);
    assert_eq!(fin.len(), 2);
    assert_eq!(lua[0].event_type, EventType::EventChallengeSuccess);
    assert_eq!(lua[0].evt, LuaEvt::default());
    assert_eq!(lua[1].event_type, EventType::EventDungeonSettle);
    assert_eq!(lua[1].evt.param1, 1);
    assert_eq!(lua[2].event_type, EventType::EventChallengeFail);
    assert_eq!(lua[2].group_id, 60);
    assert_eq!(lua[3].evt.param1, 0);
    assert!(fin[0].is_success && !fin[1].is_success);
    assert_eq!(fin[1].time_cost, 4);
}

#[test]
fn default_manager_is_empty() {
    let m = ChallengeManager::default();
    assert!(m.active_challenges.is_empty());
    assert_eq!(m.challenge_index_counter, 0);
}

#[test]
fn timer_step_updates_only_when_fired() {
    let mut m = ChallengeManager::new();
    m.start_challenge(kill(1, 50, 1));
    m.kill_monster(1, 1);
    let mut t = ChallengeTimer::new(0);
    let (lua, fin) = timer_step(&mut t, &mut m, 999);
    assert!(lua.is_empty() && fin.is_empty());
    assert_eq!(t.last_tick_ms, 0);
    assert_eq!(m.active_challenges[&1].state, ChallengeState::Active);
    let (lua, fin) = timer_step(&mut t, &mut m, 1_000);
    assert_eq!(t.last_tick_ms, 1_000);
    assert_eq!(lua.len(), 2);
    assert_eq!(lua[0].event_type, EventType::EventChallengeSuccess);
    assert_eq!(lua[0].group_id, 50);
    assert_eq!(lua[1].event_type, EventType::EventDungeonSettle);
    assert_eq!(lua[1].evt.param1, 1);
    assert_eq!(fin.len(), 1);
    assert!(fin[0].is_success);
    assert_eq!(fin[0].challenge_index, 1);
    assert_eq!(m.active_challenges[&1].state, ChallengeState::Finished);
    let (lua, fin) = timer_step(&mut t, &mut m, 2_000);
    assert!(lua.is_empty() && fin.is_empty());
}
