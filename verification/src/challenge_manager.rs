use std::collections::HashMap;
use vstd::prelude::*;

use crate::challenge::{ActiveChallenge, ChallengeFinishReason, ChallengeState, ChallengeType};
use crate::events::{
    ChallengeFinishEvent, ChallengeProgressEvent, ChallengeStartEvent, EventType, LuaEvt,
    LuaTriggerEvent,
};
use crate::keys::key_list;

verus! {

broadcast use vstd::seq_lib::group_seq_properties;

/// What one timer step did to a challenge.
#[derive(Debug, Clone, Copy, PartialEq, Eq, Structural)]
pub enum ChallengeUpdateResult {
    Running {},
    Success { challenge_index: u32, group_id: u32, challenge_id: u32, time_cost: u32 },
    Failed { challenge_index: u32, group_id: u32, challenge_id: u32, time_cost: u32 },
}

/// One timer step on the challenge stored under `index`: its result, and the
/// challenge afterwards.
pub open spec fn update_step(index: u32, c: ActiveChallenge) -> (ChallengeUpdateResult, ActiveChallenge) {
    if c.success_reached() {
        (
            ChallengeUpdateResult::Success {
                challenge_index: index,
                group_id: c.group_id,
                challenge_id: c.challenge_id,
                time_cost: c.time_cost,
            },
            c.finished(ChallengeFinishReason::Success),
        )
    } else if c.failure_reached() {
        (
            ChallengeUpdateResult::Failed {
                challenge_index: index,
                group_id: c.group_id,
                challenge_id: c.challenge_id,
                time_cost: c.time_cost,
            },
            c.finished(ChallengeFinishReason::Fail),
        )
    } else {
        (ChallengeUpdateResult::Running {}, c)
    }
}

/// The progress event of the challenge stored under `index`.
pub open spec fn progress_event(index: u32, c: ActiveChallenge, param_index: u32, value: u32) -> ChallengeProgressEvent {
    ChallengeProgressEvent {
        group_id: c.group_id,
        challenge_index: index,
        challenge_type: c.challenge_type,
        param_index,
        value,
    }
}

/// The finish event of the challenge stored under `index`.
pub open spec fn finish_event(index: u32, c: ActiveChallenge, is_success: bool) -> ChallengeFinishEvent {
    ChallengeFinishEvent {
        group_id: c.group_id,
        challenge_id: c.challenge_id,
        challenge_index: index,
        is_success,
        time_cost: c.time_cost,
    }
}

/// Challenge types whose progress is counted by monster kills.
pub open spec fn is_kill_type(t: ChallengeType) -> bool {
    t == ChallengeType::ChallengeKillCount || t == ChallengeType::ChallengeKillCountInTime
        || t == ChallengeType::ChallengeKillMonsterInTime
}

/// What a monster-kill lookup on `m` for `group_id` may answer: a challenge of
/// the group whose progress kills count, or none when the group has no such
/// challenge.
pub open spec fn kill_lookup_answer(m: Map<u32, ActiveChallenge>, group_id: u32, r: Option<u32>) -> bool {
    match r {
        Some(k) => m.contains_key(k) && m[k].group_id == group_id && is_kill_type(m[k].challenge_type),
        None => forall|k: u32|
            m.contains_key(k) && #[trigger] m[k].group_id == group_id ==> !is_kill_type(m[k].challenge_type),
    }
}

/// A monster kill in a group counts towards that group's kill-count, timed
/// kill-count or timed monster-kill challenge: the lookup finds one whenever the
/// group has one, and never answers a challenge of another group or type.
pub proof fn law_monster_kill_lookup(m: Map<u32, ActiveChallenge>, group_id: u32, r: Option<u32>)
    requires
        kill_lookup_answer(m, group_id, r),
    ensures
        (exists|k: u32|
            m.contains_key(k) && #[trigger] m[k].group_id == group_id && (m[k].challenge_type
                == ChallengeType::ChallengeKillCount || m[k].challenge_type
                == ChallengeType::ChallengeKillCountInTime || m[k].challenge_type
                == ChallengeType::ChallengeKillMonsterInTime)) ==> r is Some,
        r is Some ==> {
            &&& m.contains_key(r->0)
            &&& m[r->0].group_id == group_id
            &&& m[r->0].challenge_type == ChallengeType::ChallengeKillCount || m[r->0].challenge_type
                == ChallengeType::ChallengeKillCountInTime || m[r->0].challenge_type
                == ChallengeType::ChallengeKillMonsterInTime
        },
{
    if exists|k: u32|
        m.contains_key(k) && #[trigger] m[k].group_id == group_id && (m[k].challenge_type
            == ChallengeType::ChallengeKillCount || m[k].challenge_type
            == ChallengeType::ChallengeKillCountInTime || m[k].challenge_type
            == ChallengeType::ChallengeKillMonsterInTime) {
        let k = choose|k: u32|
            m.contains_key(k) && #[trigger] m[k].group_id == group_id && (m[k].challenge_type
                == ChallengeType::ChallengeKillCount || m[k].challenge_type
                == ChallengeType::ChallengeKillCountInTime || m[k].challenge_type
                == ChallengeType::ChallengeKillMonsterInTime);
        if r is None {
            assert(!is_kill_type(m[k].challenge_type));
        }
    }
}

/// A timer step on a challenge raises, once it ends, one finish event that
/// reports that challenge (its group, its id, the index it is stored under, its
/// time) and whether it succeeded, together with the success or failure script
/// event of its group and the dungeon settle event (1 on success, 0 on failure);
/// a challenge that goes on raises nothing.
pub proof fn law_timer_events_report_the_challenge(index: u32, c: ActiveChallenge)
    ensures
        ({
            let r = update_step(index, c).0;
            let ended = c.success_reached() || c.failure_reached();
            &&& finish_events_of(r) == (if ended {
                seq![
                    ChallengeFinishEvent {
                        group_id: c.group_id,
                        challenge_id: c.challenge_id,
                        challenge_index: index,
                        is_success: c.success_reached(),
                        time_cost: c.time_cost,
                    },
                ]
            } else {
                Seq::<ChallengeFinishEvent>::empty()
            })
            &&& lua_events_of(r) == (if !ended {
                Seq::<LuaTriggerEvent>::empty()
            } else {
                seq![
                    LuaTriggerEvent {
                        group_id: c.group_id,
                        event_type: if c.success_reached() {
                            EventType::EventChallengeSuccess
                        } else {
                            EventType::EventChallengeFail
                        },
                        evt: LuaEvt::zeroed(),
                    },
                    LuaTriggerEvent {
                        group_id: c.group_id,
                        event_type: EventType::EventDungeonSettle,
                        evt: LuaEvt { param1: if c.success_reached() { 1 } else { 0 }, ..LuaEvt::zeroed() },
                    },
                ]
            })
        }),
{
}

/// The events about a challenge report it: a finish event carries its group,
/// its id, the index it is stored under, its time and whether it succeeded; a
/// progress event carries its group, its index and its type.
pub proof fn law_challenge_events_report_the_challenge(index: u32, c: ActiveChallenge, is_success: bool, param_index: u32, value: u32)
    ensures
        finish_event(index, c, is_success) == (ChallengeFinishEvent {
            group_id: c.group_id,
            challenge_id: c.challenge_id,
            challenge_index: index,
            is_success,
            time_cost: c.time_cost,
        }),
        progress_event(index, c, param_index, value) == (ChallengeProgressEvent {
            group_id: c.group_id,
            challenge_index: index,
            challenge_type: c.challenge_type,
            param_index,
            value,
        }),
{
}

/// The keys of `m` whose challenge is running.
pub open spec fn active_keys(m: Map<u32, ActiveChallenge>) -> Set<u32> {
    Set::new(|k: u32| m.contains_key(k) && m[k].state == ChallengeState::Active)
}

/// The keys of `m` whose challenge belongs to `group_id`.
pub open spec fn group_keys(m: Map<u32, ActiveChallenge>, group_id: u32) -> Set<u32> {
    Set::new(|k: u32| m.contains_key(k) && m[k].group_id == group_id)
}

/// Starting a challenge and then stopping it leaves the other challenges as they
/// were, and the finish event reports the challenge as it was started.
pub proof fn law_start_then_stop(m0: Map<u32, ActiveChallenge>, c: ActiveChallenge, is_success: bool)
    ensures
        ({
            let m1 = m0.insert(c.challenge_index, c.started());
            &&& m1.contains_key(c.challenge_index)
            &&& m1[c.challenge_index].state == ChallengeState::Active
            &&& m1.remove(c.challenge_index) == m0.remove(c.challenge_index)
            &&& finish_event(c.challenge_index, m1[c.challenge_index], is_success) == finish_event(
                c.challenge_index,
                c,
                is_success,
            )
        }),
{
    let m1 = m0.insert(c.challenge_index, c.started());
    assert(m1.remove(c.challenge_index) =~= m0.remove(c.challenge_index));
}

/// A timer step finishes a challenge exactly when it reports success or failure,
/// and leaves any other challenge as it is.
pub proof fn law_update_step_matches_result(index: u32, c: ActiveChallenge)
    ensures
        match update_step(index, c) {
            (ChallengeUpdateResult::Success { challenge_index, group_id, challenge_id, time_cost }, after) => {
                &&& c.success_reached()
                &&& after == c.finished(ChallengeFinishReason::Success)
                &&& challenge_index == index && group_id == c.group_id
                &&& challenge_id == c.challenge_id && time_cost == c.time_cost
            },
            (ChallengeUpdateResult::Failed { challenge_index, group_id, challenge_id, time_cost }, after) => {
                &&& !c.success_reached()
                &&& c.failure_reached()
                &&& after == c.finished(ChallengeFinishReason::Fail)
                &&& challenge_index == index && group_id == c.group_id
                &&& challenge_id == c.challenge_id && time_cost == c.time_cost
            },
            (ChallengeUpdateResult::Running {}, after) => {
                &&& after == c
                &&& !c.success_reached()
                &&& !c.failure_reached()
            },
        },
{
}

/// A challenge ends at most once: a second timer step after the first reports
/// it running and changes nothing.
pub proof fn law_update_step_settles(index: u32, c: ActiveChallenge)
    ensures
        update_step(index, update_step(index, c).1) == (ChallengeUpdateResult::Running {}, update_step(index, c).1),
{
}

/// A timer step raises a finish event for each result that ended a challenge, and
/// two script events for it.
pub proof fn law_timer_events_count(rs: Seq<ChallengeUpdateResult>)
    ensures
        all_lua_events(rs).len() == 2 * all_finish_events(rs).len(),
    decreases rs.len(),
{
    if rs.len() > 0 {
        law_timer_events_count(rs.drop_last());
    }
}

/// The challenges running in a scene, by challenge index.
pub struct ChallengeManager {
    pub active_challenges: HashMap<u32, ActiveChallenge>,
    pub challenge_index_counter: u32,
}

impl Default for ChallengeManager {
    fn default() -> (m: Self)
        ensures
            m.active_challenges@ == Map::<u32, ActiveChallenge>::empty(),
            m.challenge_index_counter == 0,
    {
        ChallengeManager::new()
    }
}

impl ChallengeManager {
    pub fn new() -> (m: Self)
        ensures
            m.active_challenges@ == Map::<u32, ActiveChallenge>::empty(),
            m.challenge_index_counter == 0,
    {
        ChallengeManager { active_challenges: HashMap::new(), challenge_index_counter: 0 }
    }

    pub fn update_time_by_index(&mut self, index: u32, delta: u32) -> (r: Option<ChallengeProgressEvent>)
        requires
            old(self).active_challenges@.contains_key(index)
                ==> old(self).active_challenges@[index].can_extend(delta),
        ensures
            final(self).challenge_index_counter == old(self).challenge_index_counter,
            !old(self).active_challenges@.contains_key(index) ==> {
                &&& final(self).active_challenges@ == old(self).active_challenges@
                &&& r is None
            },
            old(self).active_challenges@.contains_key(index) ==> {
                let c = old(self).active_challenges@[index].with_time_limit_added(delta);
                &&& final(self).active_challenges@ == old(self).active_challenges@.insert(index, c)
                &&& r == match c.time_progress() {
                    Some(v) => Some(progress_event(index, c, 2, v)),
                    None => None,
                }
            },
    {
        match self.active_challenges.get(&index) {
            Some(c) => {
                let mut challenge = *c;
                challenge.add_time_limit(delta);
                let time_progress = challenge.get_time_progress();
                let _ = self.active_challenges.insert(index, challenge);
                match time_progress {
                    Some(value) => Some(
                        ChallengeProgressEvent {
                            group_id: challenge.group_id,
                            challenge_index: index,
                            challenge_type: challenge.challenge_type,
                            param_index: 2,
                            value,
                        },
                    ),
                    None => None,
                }
            },
            None => None,
        }
    }

    pub fn kill_monster(&mut self, challenge_index: u32, param: u32) -> (r: Option<ChallengeProgressEvent>)
        requires
            old(self).active_challenges@.contains_key(challenge_index)
                && old(self).active_challenges@[challenge_index].state == ChallengeState::Active
                ==> old(self).active_challenges@[challenge_index].target_count + param <= u32::MAX,
        ensures
            final(self).challenge_index_counter == old(self).challenge_index_counter,
            !(old(self).active_challenges@.contains_key(challenge_index)
                && old(self).active_challenges@[challenge_index].state == ChallengeState::Active) ==> {
                &&& final(self).active_challenges@ == old(self).active_challenges@
                &&& r is None
            },
            old(self).active_challenges@.contains_key(challenge_index)
                && old(self).active_challenges@[challenge_index].state == ChallengeState::Active ==> {
                let c0 = old(self).active_challenges@[challenge_index];
                let c = ActiveChallenge { target_count: (c0.target_count + param) as u32, ..c0 };
                &&& final(self).active_challenges@ == old(self).active_challenges@.insert(challenge_index, c)
                &&& r == Some(progress_event(challenge_index, c, 1, c.target_count))
            },
    {
        match self.active_challenges.get(&challenge_index) {
            None => None,
            Some(c) => {
                if c.state != ChallengeState::Active {
                    return None;
                }
                let mut challenge = *c;
                challenge.target_count += param;
                let _ = self.active_challenges.insert(challenge_index, challenge);
                Some(
                    ChallengeProgressEvent {
                        group_id: challenge.group_id,
                        challenge_index,
                        challenge_type: challenge.challenge_type,
                        param_index: 1,
                        value: challenge.target_count,
                    },
                )
            },
        }
    }

    pub fn get_next_challenge_index(&mut self) -> (r: u32)
        requires
            old(self).challenge_index_counter < u32::MAX,
        ensures
            final(self).challenge_index_counter == old(self).challenge_index_counter + 1,
            r == final(self).challenge_index_counter,
            final(self).active_challenges@ == old(self).active_challenges@,
    {
        self.challenge_index_counter += 1;
        self.challenge_index_counter
    }

    pub fn start_challenge(&mut self, challenge: ActiveChallenge) -> (r: ChallengeStartEvent)
        ensures
            final(self).challenge_index_counter == old(self).challenge_index_counter,
            final(self).active_challenges@ == old(self).active_challenges@.insert(
                challenge.challenge_index,
                challenge.started(),
            ),
            r.group_id == challenge.group_id,
            r.challenge_id == challenge.challenge_id,
            r.challenge_index == challenge.challenge_index,
            r.param_list@ == challenge.initial_params(),
    {
        let mut challenge = challenge;
        let index = challenge.challenge_index;
        let group_id = challenge.group_id;
        let challenge_id = challenge.challenge_id;
        let param_list = challenge.get_initial_param_list();
        challenge.start();
        let _ = self.active_challenges.insert(index, challenge);
        ChallengeStartEvent { group_id, challenge_id, challenge_index: index, param_list }
    }

    pub fn stop_challenge(&mut self, challenge_index: u32, is_success: bool) -> (r: Option<(ActiveChallenge, ChallengeFinishEvent)>)
        ensures
            final(self).challenge_index_counter == old(self).challenge_index_counter,
            final(self).active_challenges@ == old(self).active_challenges@.remove(challenge_index),
            !old(self).active_challenges@.contains_key(challenge_index) ==> r is None,
            old(self).active_challenges@.contains_key(challenge_index) ==> {
                let c = old(self).active_challenges@[challenge_index];
                let reason = if is_success {
                    ChallengeFinishReason::Success
                } else {
                    ChallengeFinishReason::Fail
                };
                r == Some((c.finished(reason), finish_event(challenge_index, c, is_success)))
            },
    {
        match self.active_challenges.remove(&challenge_index) {
            Some(c) => {
                let mut challenge = c;
                let reason = if is_success {
                    ChallengeFinishReason::Success
                } else {
                    ChallengeFinishReason::Fail
                };
                challenge.finish(reason);
                let event = ChallengeFinishEvent {
                    group_id: challenge.group_id,
                    challenge_id: challenge.challenge_id,
                    challenge_index,
                    is_success,
                    time_cost: challenge.time_cost,
                };
                Some((challenge, event))
            },
            None => None,
        }
    }

    pub fn update_challenges_by_index(&mut self, index: u32) -> (r: ChallengeUpdateResult)
        ensures
            final(self).challenge_index_counter == old(self).challenge_index_counter,
            !old(self).active_challenges@.contains_key(index) ==> {
                &&& final(self).active_challenges@ == old(self).active_challenges@
                &&& r == ChallengeUpdateResult::Running {}
            },
            old(self).active_challenges@.contains_key(index) ==> {
                let step = update_step(index, old(self).active_challenges@[index]);
                &&& final(self).active_challenges@ == old(self).active_challenges@.insert(index, step.1)
                &&& r == step.0
            },
    {
        match self.active_challenges.get(&index) {
            Some(c) => {
                let mut challenge = *c;
                if challenge.is_success() {
                    challenge.finish(ChallengeFinishReason::Success);
                    let _ = self.active_challenges.insert(index, challenge);
                    return ChallengeUpdateResult::Success {
                        challenge_index: index,
                        group_id: challenge.group_id,
                        challenge_id: challenge.challenge_id,
                        time_cost: challenge.time_cost,
                    };
                }
                if challenge.is_failed() {
                    challenge.finish(ChallengeFinishReason::Fail);
                    let _ = self.active_challenges.insert(index, challenge);
                    return ChallengeUpdateResult::Failed {
                        challenge_index: index,
                        group_id: challenge.group_id,
                        challenge_id: challenge.challenge_id,
                        time_cost: challenge.time_cost,
                    };
                }
                ChallengeUpdateResult::Running {}
            },
            None => ChallengeUpdateResult::Running {},
        }
    }

    pub fn update_challenges(&mut self) -> (results: Vec<ChallengeUpdateResult>)
        ensures
            final(self).challenge_index_counter == old(self).challenge_index_counter,
            final(self).active_challenges@ == Map::new(
                |k: u32| old(self).active_challenges@.contains_key(k),
                |k: u32| update_step(k, old(self).active_challenges@[k]).1,
            ),
            exists|order: Seq<u32>|
                {
                    &&& order.no_duplicates()
                    &&& order.to_set() == active_keys(old(self).active_challenges@)
                    &&& results@ == order.map_values(
                        |k: u32| update_step(k, old(self).active_challenges@[k]).0,
                    )
                },
    {
        let ghost m0 = self.active_challenges@;
        let mut results: Vec<ChallengeUpdateResult> = Vec::new();
        let indices = key_list(&self.active_challenges);
        let ghost mut order: Seq<u32> = Seq::empty();
        let mut i: usize = 0;
        while i < indices.len()
            invariant
                i <= indices.len(),
                indices@.no_duplicates(),
                indices@.to_set() == m0.dom(),
                self.challenge_index_counter == old(self).challenge_index_counter,
                m0 == old(self).active_challenges@,
                self.active_challenges@.dom() == m0.dom(),
                forall|k: u32|
                    #![trigger self.active_challenges@[k]]
                    m0.contains_key(k) ==> self.active_challenges@[k] == (
                        if indices@.take(i as int).contains(k) {
                            update_step(k, m0[k]).1
                        } else {
                            m0[k]
                        }),
                order.no_duplicates(),
                forall|j: int|
                    0 <= j < order.len() ==> indices@.take(i as int).contains(#[trigger] order[j])
                        && m0[order[j]].state == ChallengeState::Active,
                forall|k: u32|
                    indices@.take(i as int).contains(k) && m0[k].state == ChallengeState::Active
                        ==> #[trigger] order.contains(k),
                results@ == order.map_values(|k: u32| update_step(k, m0[k]).0),
            decreases indices.len() - i,
        {
            let index = indices[i];
            proof {
                assert(m0.dom().contains(index)) by {
                    assert(indices@.contains(index));
                }
                assert(!indices@.take(i as int).contains(index));
                assert(indices@.take(i as int + 1) == indices@.take(i as int).push(index));
            }
            match self.active_challenges.get(&index) {
                Some(c) => {
                    if c.state == ChallengeState::Active {
                        let r = self.update_challenges_by_index(index);
                        results.push(r);
                        proof {
                            order = order.push(index);
                        }
                    }
                },
                None => {},
            }
            proof {
                assert forall|k: u32| indices@.take(i as int + 1).contains(k) && m0[k].state == ChallengeState::Active
                    implies #[trigger] order.contains(k) by {
                    if k == index {
                        assert(order.last() == index);
                    } else {
                        assert(indices@.take(i as int).contains(k));
                    }
                }
            }
            i = i + 1;
        }
        proof {
            assert(indices@.take(i as int) == indices@);
            assert(self.active_challenges@ == Map::new(
                |k: u32| old(self).active_challenges@.contains_key(k),
                |k: u32| update_step(k, old(self).active_challenges@[k]).1,
            ));
            assert(order.to_set() == active_keys(m0)) by {
                assert forall|k: u32| order.to_set().contains(k) implies active_keys(m0).contains(k) by {
                    let j = order.index_of(k);
                    assert(indices@.contains(order[j]));
                }
            }
        }
        results
    }

    pub fn remove_group_challenges(&mut self, group_id: u32) -> (events: Vec<ChallengeFinishEvent>)
        ensures
            final(self).challenge_index_counter == old(self).challenge_index_counter,
            final(self).active_challenges@ == old(self).active_challenges@.remove_keys(
                group_keys(old(self).active_challenges@, group_id),
            ),
            exists|order: Seq<u32>|
                {
                    &&& order.no_duplicates()
                    &&& order.to_set() == group_keys(old(self).active_challenges@, group_id)
                    &&& events@ == order.map_values(
                        |k: u32| finish_event(k, old(self).active_challenges@[k], false),
                    )
                },
    {
        let ghost m0 = self.active_challenges@;
        let mut events: Vec<ChallengeFinishEvent> = Vec::new();
        let indices = key_list(&self.active_challenges);
        let ghost mut order: Seq<u32> = Seq::empty();
        let mut i: usize = 0;
        while i < indices.len()
            invariant
                i <= indices.len(),
                indices@.no_duplicates(),
                indices@.to_set() == m0.dom(),
                self.challenge_index_counter == old(self).challenge_index_counter,
                m0 == old(self).active_challenges@,
                self.active_challenges@ == m0.remove_keys(
                    group_keys(m0, group_id).filter(|k: u32| indices@.take(i as int).contains(k)),
                ),
                order.no_duplicates(),
                forall|j: int|
                    0 <= j < order.len() ==> indices@.take(i as int).contains(#[trigger] order[j])
                        && m0.contains_key(order[j]) && m0[order[j]].group_id == group_id,
                forall|k: u32|
                    indices@.take(i as int).contains(k) && m0.contains_key(k) && m0[k].group_id == group_id
                        ==> #[trigger] order.contains(k),
                events@ == order.map_values(|k: u32| finish_event(k, m0[k], false)),
            decreases indices.len() - i,
        {
            let index = indices[i];
            proof {
                assert(m0.dom().contains(index)) by {
                    assert(indices@.contains(index));
                }
                assert(!indices@.take(i as int).contains(index));
                assert(indices@.take(i as int + 1) == indices@.take(i as int).push(index));
            }
            let ghost before = self.active_challenges@;
            match self.active_challenges.get(&index) {
                Some(c) => {
                    if c.group_id == group_id {
                        events.push(
                            ChallengeFinishEvent {
                                group_id: c.group_id,
                                challenge_id: c.challenge_id,
                                challenge_index: index,
                                is_success: false,
                                time_cost: c.time_cost,
                            },
                        );
                        let _ = self.active_challenges.remove(&index);
                        proof {
                            order = order.push(index);
                        }
                    }
                },
                None => {},
            }
            proof {
                assert(self.active_challenges@ =~= m0.remove_keys(
                    group_keys(m0, group_id).filter(|k: u32| indices@.take(i as int + 1).contains(k)),
                ));
                assert forall|k: u32|
                    indices@.take(i as int + 1).contains(k) && m0.contains_key(k) && m0[k].group_id == group_id
                    implies #[trigger] order.contains(k) by {
                    if k == index {
                        assert(order.last() == index);
                    } else {
                        assert(indices@.take(i as int).contains(k));
                    }
                }
            }
            i = i + 1;
        }
        proof {
            assert(indices@.take(i as int) == indices@);
            assert(group_keys(m0, group_id).filter(|k: u32| indices@.take(i as int).contains(k))
                =~= group_keys(m0, group_id)) by {
                assert forall|k: u32| group_keys(m0, group_id).contains(k) implies indices@.contains(k) by {
                    assert(indices@.to_set().contains(k));
                }
            }
            assert(order.to_set() =~= group_keys(m0, group_id)) by {
                assert forall|k: u32| order.to_set().contains(k) implies group_keys(m0, group_id).contains(k) by {
                    let j = order.index_of(k);
                }
                assert forall|k: u32| group_keys(m0, group_id).contains(k) implies order.to_set().contains(k) by {
                    assert(indices@.to_set().contains(k));
                }
            }
        }
        events
    }

    pub fn get_challenge_for_monster_kill(&self, group_id: u32) -> (r: Option<u32>)
        ensures
            kill_lookup_answer(self.active_challenges@, group_id, r),
    {
        let indices = key_list(&self.active_challenges);
        let mut i: usize = 0;
        while i < indices.len()
            invariant
                i <= indices.len(),
                indices@.to_set() == self.active_challenges@.dom(),
                forall|j: int|
                    0 <= j < i ==> {
                        let k = #[trigger] indices@[j];
                        self.active_challenges@[k].group_id == group_id
                            ==> !is_kill_type(self.active_challenges@[k].challenge_type)
                    },
            decreases indices.len() - i,
        {
            let index = indices[i];
            proof {
                assert(indices@.contains(index));
            }
            match self.active_challenges.get(&index) {
                Some(c) => {
                    if c.group_id == group_id {
                        let matches = match c.challenge_type {
                            ChallengeType::ChallengeKillCount
                            | ChallengeType::ChallengeKillCountInTime
                            | ChallengeType::ChallengeKillMonsterInTime => true,
                            _ => false,
                        };
                        if matches {
                            return Some(index);
                        }
                    }
                },
                None => {},
            }
            i = i + 1;
        }
        proof {
            assert forall|k: u32|
                self.active_challenges@.contains_key(k) && #[trigger] self.active_challenges@[k].group_id == group_id
                implies !is_kill_type(self.active_challenges@[k].challenge_type) by {
                assert(indices@.to_set().contains(k));
                let j = indices@.index_of(k);
                assert(indices@[j] == k);
            }
        }
        None
    }
}

/// The script events that one update result raises.
pub open spec fn lua_events_of(r: ChallengeUpdateResult) -> Seq<LuaTriggerEvent> {
    match r {
        ChallengeUpdateResult::Running {} => Seq::empty(),
        ChallengeUpdateResult::Success { group_id, .. } => seq![
            LuaTriggerEvent {
                group_id,
                event_type: EventType::EventChallengeSuccess,
                evt: LuaEvt::zeroed(),
            },
            LuaTriggerEvent {
                group_id,
                event_type: EventType::EventDungeonSettle,
                evt: LuaEvt { param1: 1, ..LuaEvt::zeroed() },
            },
        ],
        ChallengeUpdateResult::Failed { group_id, .. } => seq![
            LuaTriggerEvent {
                group_id,
                event_type: EventType::EventChallengeFail,
                evt: LuaEvt::zeroed(),
            },
            LuaTriggerEvent {
                group_id,
                event_type: EventType::EventDungeonSettle,
                evt: LuaEvt { param1: 0, ..LuaEvt::zeroed() },
            },
        ],
    }
}

/// The finish events that one update result raises.
pub open spec fn finish_events_of(r: ChallengeUpdateResult) -> Seq<ChallengeFinishEvent> {
    match r {
        ChallengeUpdateResult::Running {} => Seq::empty(),
        ChallengeUpdateResult::Success { challenge_index, group_id, challenge_id, time_cost } => seq![
            ChallengeFinishEvent { group_id, challenge_id, challenge_index, is_success: true, time_cost },
        ],
        ChallengeUpdateResult::Failed { challenge_index, group_id, challenge_id, time_cost } => seq![
            ChallengeFinishEvent { group_id, challenge_id, challenge_index, is_success: false, time_cost },
        ],
    }
}

/// The script events of a sequence of results, in order.
pub open spec fn all_lua_events(rs: Seq<ChallengeUpdateResult>) -> Seq<LuaTriggerEvent>
    decreases rs.len(),
{
    if rs.len() == 0 {
        Seq::empty()
    } else {
        all_lua_events(rs.drop_last()) + lua_events_of(rs.last())
    }
}

/// The finish events of a sequence of results, in order.
pub open spec fn all_finish_events(rs: Seq<ChallengeUpdateResult>) -> Seq<ChallengeFinishEvent>
    decreases rs.len(),
{
    if rs.len() == 0 {
        Seq::empty()
    } else {
        all_finish_events(rs.drop_last()) + finish_events_of(rs.last())
    }
}

/// The events that a timer step raises for its update results: script events and
/// finish events, each in the order of the results.
pub fn timer_events(results: &Vec<ChallengeUpdateResult>) -> (r: (Vec<LuaTriggerEvent>, Vec<ChallengeFinishEvent>))
    ensures
        r.0@ == all_lua_events(results@),
        r.1@ == all_finish_events(results@),
{
    let mut lua: Vec<LuaTriggerEvent> = Vec::new();
    let mut finishes: Vec<ChallengeFinishEvent> = Vec::new();
    let mut i: usize = 0;
    while i < results.len()
        invariant
            i <= results.len(),
            lua@ == all_lua_events(results@.take(i as int)),
            finishes@ == all_finish_events(results@.take(i as int)),
        decreases results.len() - i,
    {
        proof {
            assert(results@.take(i as int + 1).drop_last() == results@.take(i as int));
        }
        match results[i] {
            ChallengeUpdateResult::Running {} => {},
            ChallengeUpdateResult::Success { challenge_index, group_id, challenge_id, time_cost } => {
                lua.push(LuaTriggerEvent {
                    group_id,
                    event_type: EventType::EventChallengeSuccess,
                    evt: LuaEvt::default(),
                });
                lua.push(LuaTriggerEvent {
                    group_id,
                    event_type: EventType::EventDungeonSettle,
                    evt: LuaEvt::with_param1(1),
                });
                finishes.push(ChallengeFinishEvent {
                    group_id,
                    challenge_id,
                    challenge_index,
                    is_success: true,
                    time_cost,
                });
            },
            ChallengeUpdateResult::Failed { challenge_index, group_id, challenge_id, time_cost } => {
                lua.push(LuaTriggerEvent {
                    group_id,
                    event_type: EventType::EventChallengeFail,
                    evt: LuaEvt::default(),
                });
                lua.push(LuaTriggerEvent {
                    group_id,
                    event_type: EventType::EventDungeonSettle,
                    evt: LuaEvt::with_param1(0),
                });
                finishes.push(ChallengeFinishEvent {
                    group_id,
                    challenge_id,
                    challenge_index,
                    is_success: false,
                    time_cost,
                });
            },
        }
        i = i + 1;
    }
    proof {
        assert(results@.take(i as int) == results@);
    }
    (lua, finishes)
}

/// The clock that drives challenge updates: it fires at most once per interval.
pub struct ChallengeTimer {
    pub last_tick_ms: u64,
    pub interval_ms: u64,
}

/// Milliseconds from `last` to `now`, zero when `now` is earlier.
pub open spec fn elapsed_ms(last: u64, now: u64) -> int {
    if now >= last { now - last } else { 0 }
}

impl ChallengeTimer {
    /// A timer that last fired at `now_ms` and fires every second.
    pub fn new(now_ms: u64) -> (t: Self)
        ensures
            t.last_tick_ms == now_ms,
            t.interval_ms == 1000,
    {
        ChallengeTimer { last_tick_ms: now_ms, interval_ms: 1000 }
    }

    /// Fires when a whole interval has passed since it last fired, and then
    /// remembers `now_ms`.
    pub fn tick(&mut self, now_ms: u64) -> (fired: bool)
        ensures
            fired == (elapsed_ms(old(self).last_tick_ms, now_ms) >= old(self).interval_ms),
            final(self).interval_ms == old(self).interval_ms,
            final(self).last_tick_ms == (if fired { now_ms } else { old(self).last_tick_ms }),
    {
        let elapsed = now_ms.saturating_sub(self.last_tick_ms);
        if elapsed >= self.interval_ms {
            self.last_tick_ms = now_ms;
            true
        } else {
            false
        }
    }
}

/// One step of the challenge clock: when the timer fires, every active challenge
/// is updated once, and the script events and finish events of the results are
/// raised, each in the order of the updates; otherwise nothing changes and
/// nothing is raised.
pub fn timer_step(timer: &mut ChallengeTimer, manager: &mut ChallengeManager, now_ms: u64) -> (r: (
    Vec<LuaTriggerEvent>,
    Vec<ChallengeFinishEvent>,
))
    ensures
        final(timer).interval_ms == old(timer).interval_ms,
        elapsed_ms(old(timer).last_tick_ms, now_ms) >= old(timer).interval_ms ==> {
            &&& final(timer).last_tick_ms == now_ms
            &&& final(manager).challenge_index_counter == old(manager).challenge_index_counter
            &&& final(manager).active_challenges@ == Map::new(
                |k: u32| old(manager).active_challenges@.contains_key(k),
                |k: u32| update_step(k, old(manager).active_challenges@[k]).1,
            )
            &&& exists|order: Seq<u32>|
                {
                    &&& order.no_duplicates()
                    &&& order.to_set() == active_keys(old(manager).active_challenges@)
                    &&& r.0@ == all_lua_events(
                        order.map_values(|k: u32| update_step(k, old(manager).active_challenges@[k]).0),
                    )
                    &&& r.1@ == all_finish_events(
                        order.map_values(|k: u32| update_step(k, old(manager).active_challenges@[k]).0),
                    )
                }
        },
        elapsed_ms(old(timer).last_tick_ms, now_ms) < old(timer).interval_ms ==> {
            &&& *final(timer) == *old(timer)
            &&& final(manager).challenge_index_counter == old(manager).challenge_index_counter
            &&& final(manager).active_challenges@ == old(manager).active_challenges@
            &&& r.0@.len() == 0
            &&& r.1@.len() == 0
        },
{
    if !timer.tick(now_ms) {
        return (Vec::new(), Vec::new());
    }
    let results = manager.update_challenges();
    timer_events(&results)
}

} // verus!
