use vstd::prelude::*;

verus! {

/// The kinds of dungeon challenge a group script can start.
#[derive(Debug, Clone, Copy, PartialEq, Eq, Structural)]
pub enum ChallengeType {
    ChallengeNone,
    ChallengeKillCount,
    ChallengeKillCountInTime,
    ChallengeSurvive,
    ChallengeTimeFly,
    ChallengeKillCountFast,
    ChallengeKillCountFrozenLess,
    ChallengeKillMonsterInTime,
    ChallengeTriggerInTime,
    ChallengeGuardHp,
    ChallengeKillCountGuardHp,
    ChallengeTriggerInTimeFly,
    ChallengeSurviveInTime,
}

/// Life-cycle state of a challenge.
#[derive(Debug, Clone, Copy, PartialEq, Eq, Structural)]
pub enum ChallengeState {
    Idle,
    Active,
    Paused,
    Finished,
    Failed,
}

/// Why a challenge ended.
#[derive(Debug, Clone, Copy, PartialEq, Eq, Structural)]
pub enum ChallengeFinishReason {
    Unset,
    Success,
    Fail,
    Timeout,
    Interrupted,
}

/// A challenge that a group script has started in a scene.
#[derive(Debug, Clone, Copy)]
pub struct ActiveChallenge {
    pub is_active: bool,
    pub group_id: u32,
    pub source: u32,
    pub challenge_id: u32,
    pub param1: u32,
    pub param2: u32,
    pub param3: u32,
    pub param4: u32,
    pub challenge_index: u32,
    pub challenge_type: ChallengeType,
    pub state: ChallengeState,
    pub finish_reason: ChallengeFinishReason,
    pub time_cost: u32,
    pub target_count: u32,
}

/// Challenge types whose clock counts down from `param1`.
pub open spec fn counts_down_from_param1(t: ChallengeType) -> bool {
    t == ChallengeType::ChallengeKillCountInTime || t == ChallengeType::ChallengeKillCountFast
        || t == ChallengeType::ChallengeKillMonsterInTime
        || t == ChallengeType::ChallengeTriggerInTime
}

/// The group a challenge really belongs to, given its type and parameters.
pub open spec fn real_group_for(t: ChallengeType, group_id: u32, param1: u32, param2: u32) -> u32 {
    match t {
        ChallengeType::ChallengeKillCount | ChallengeType::ChallengeTimeFly
        | ChallengeType::ChallengeKillCountGuardHp => param1,
        ChallengeType::ChallengeKillCountInTime | ChallengeType::ChallengeKillCountFast
        | ChallengeType::ChallengeKillMonsterInTime => param2,
        _ => group_id,
    }
}

/// Pausing a running challenge and resuming it gives back the same challenge.
pub proof fn law_pause_then_resume(c: ActiveChallenge)
    requires
        c.state == ChallengeState::Active,
    ensures
        c.paused().resumed() == c,
{
}

/// Only a running challenge succeeds or fails.
pub proof fn law_only_running_challenges_end(c: ActiveChallenge)
    requires
        c.state != ChallengeState::Active,
    ensures
        !c.success_reached(),
        !c.failure_reached(),
{
}

/// A finished challenge stays as it is: pausing and resuming change nothing,
/// and it neither succeeds nor fails again.
pub proof fn law_finished_is_final(c: ActiveChallenge, reason: ChallengeFinishReason)
    ensures
        c.finished(reason).paused() == c.finished(reason),
        c.finished(reason).resumed() == c.finished(reason),
        !c.finished(reason).success_reached(),
        !c.finished(reason).failure_reached(),
{
}

/// More time never makes a challenge fail sooner, nor changes whether it succeeds.
pub proof fn law_extension_never_hastens_failure(c: ActiveChallenge, delta: u32)
    requires
        c.can_extend(delta),
    ensures
        c.with_time_limit_added(delta).failure_reached() ==> c.failure_reached(),
        c.with_time_limit_added(delta).success_reached() == c.success_reached(),
{
}

/// A running challenge with a count goal succeeds exactly when its count reaches
/// the goal it was started with: the first of its start parameters for the kill
/// and flight challenges, the second for a trigger challenge; a survival
/// challenge succeeds once it has lasted its first start parameter; the others
/// never succeed on their own.
pub proof fn law_goal_is_a_start_param(c: ActiveChallenge)
    requires
        c.state == ChallengeState::Active,
    ensures
        c.challenge_type == ChallengeType::ChallengeKillCount
            || c.challenge_type == ChallengeType::ChallengeKillCountInTime
            || c.challenge_type == ChallengeType::ChallengeKillCountFast
            || c.challenge_type == ChallengeType::ChallengeTimeFly
            || c.challenge_type == ChallengeType::ChallengeKillCountGuardHp ==> {
            &&& c.initial_params().len() >= 1
            &&& c.success_reached() <==> c.target_count >= c.initial_params()[0]
        },
        c.challenge_type == ChallengeType::ChallengeTriggerInTime ==> {
            &&& c.initial_params().len() == 2
            &&& c.success_reached() <==> c.target_count >= c.initial_params()[1]
        },
        c.challenge_type == ChallengeType::ChallengeSurvive ==> {
            &&& c.initial_params().len() == 1
            &&& c.success_reached() <==> c.time_cost >= c.initial_params()[0]
        },
        c.challenge_type == ChallengeType::ChallengeSurviveInTime ==> (c.success_reached() <==> c.time_cost
            >= c.param1),
        c.challenge_type == ChallengeType::ChallengeNone || c.challenge_type
            == ChallengeType::ChallengeKillCountFrozenLess || c.challenge_type
            == ChallengeType::ChallengeKillMonsterInTime || c.challenge_type == ChallengeType::ChallengeGuardHp
            || c.challenge_type == ChallengeType::ChallengeTriggerInTimeFly ==> !c.success_reached(),
{
}

/// A running timed challenge fails exactly when its time is over its limit, the
/// limit it was started with plus any extension: `param1` for the count-down
/// types, `param3` for a flight challenge; when it has failed no time is left on
/// its clock. The untimed ones never fail on their own.
pub proof fn law_failure_is_time_over_limit(c: ActiveChallenge)
    requires
        c.state == ChallengeState::Active,
    ensures
        c.challenge_type == ChallengeType::ChallengeKillCountInTime
            || c.challenge_type == ChallengeType::ChallengeKillCountFast
            || c.challenge_type == ChallengeType::ChallengeKillMonsterInTime
            || c.challenge_type == ChallengeType::ChallengeTriggerInTime ==> {
            &&& c.failure_reached() <==> c.time_cost > c.param1
            &&& c.time_progress() == Some(if c.time_cost <= c.param1 { (c.param1 - c.time_cost) as u32 } else { 0u32 })
        },
        c.challenge_type == ChallengeType::ChallengeTimeFly ==> {
            &&& c.failure_reached() <==> c.time_cost > c.param3
            &&& c.time_progress() == Some(if c.time_cost <= c.param3 { (c.param3 - c.time_cost) as u32 } else { 0u32 })
        },
        c.challenge_type == ChallengeType::ChallengeKillCount || c.challenge_type
            == ChallengeType::ChallengeSurvive || c.challenge_type == ChallengeType::ChallengeSurviveInTime
            || c.challenge_type == ChallengeType::ChallengeKillCountGuardHp || c.challenge_type
            == ChallengeType::ChallengeNone ==> !c.failure_reached(),
        c.failure_reached() ==> c.time_progress() == Some(0u32),
{
}

/// Extending a running timed challenge by `delta` moves its limit by `delta`: it
/// then fails exactly when its time is over the old limit plus `delta`, and
/// nothing else about it changes.
pub proof fn law_extension_moves_the_limit(c: ActiveChallenge, delta: u32)
    requires
        c.state == ChallengeState::Active,
        c.can_extend(delta),
    ensures
        c.challenge_type == ChallengeType::ChallengeKillCountInTime
            || c.challenge_type == ChallengeType::ChallengeKillCountFast
            || c.challenge_type == ChallengeType::ChallengeKillMonsterInTime
            || c.challenge_type == ChallengeType::ChallengeTriggerInTime ==> {
            &&& c.with_time_limit_added(delta).failure_reached() <==> c.time_cost > c.param1 + delta
            &&& c.with_time_limit_added(delta).param1 == c.param1 + delta
        },
        c.challenge_type == ChallengeType::ChallengeTimeFly ==> {
            &&& c.with_time_limit_added(delta).failure_reached() <==> c.time_cost > c.param3 + delta
            &&& c.with_time_limit_added(delta).param3 == c.param3 + delta
        },
        c.with_time_limit_added(delta).target_count == c.target_count,
        c.with_time_limit_added(delta).time_cost == c.time_cost,
        c.with_time_limit_added(delta).group_id == c.group_id,
        c.with_time_limit_added(delta).challenge_type == c.challenge_type,
        c.with_time_limit_added(delta).state == c.state,
{
}

/// The group a challenge belongs to: for the kill-count, flight and guarded
/// kill-count types the group named by `param1`, for the timed kill types the
/// group named by `param2`, for every other type the group that started it.
pub proof fn law_real_group(t: ChallengeType, group_id: u32, param1: u32, param2: u32)
    ensures
        t == ChallengeType::ChallengeKillCount || t == ChallengeType::ChallengeTimeFly || t
            == ChallengeType::ChallengeKillCountGuardHp ==> real_group_for(t, group_id, param1, param2)
            == param1,
        t == ChallengeType::ChallengeKillCountInTime || t == ChallengeType::ChallengeKillCountFast || t
            == ChallengeType::ChallengeKillMonsterInTime ==> real_group_for(t, group_id, param1, param2)
            == param2,
        t == ChallengeType::ChallengeNone || t == ChallengeType::ChallengeSurvive || t
            == ChallengeType::ChallengeKillCountFrozenLess || t == ChallengeType::ChallengeTriggerInTime || t
            == ChallengeType::ChallengeGuardHp || t == ChallengeType::ChallengeTriggerInTimeFly || t
            == ChallengeType::ChallengeSurviveInTime ==> real_group_for(t, group_id, param1, param2)
            == group_id,
{
}

impl ActiveChallenge {
    /// The challenge's goal has been reached while it is running.
    pub open spec fn success_reached(self) -> bool {
        self.state == ChallengeState::Active && match self.challenge_type {
            ChallengeType::ChallengeKillCount => self.target_count >= self.param2,
            ChallengeType::ChallengeKillCountInTime | ChallengeType::ChallengeKillCountFast =>
                self.target_count >= self.param3,
            ChallengeType::ChallengeSurvive | ChallengeType::ChallengeSurviveInTime =>
                self.time_cost >= self.param1,
            ChallengeType::ChallengeTimeFly => self.target_count >= self.param2,
            ChallengeType::ChallengeKillMonsterInTime => false,
            ChallengeType::ChallengeTriggerInTime => self.target_count >= self.param4,
            ChallengeType::ChallengeKillCountGuardHp => self.target_count >= self.param2,
            _ => false,
        }
    }

    /// The running challenge has run out of time.
    pub open spec fn failure_reached(self) -> bool {
        self.state == ChallengeState::Active && match self.challenge_type {
            ChallengeType::ChallengeKillCountInTime | ChallengeType::ChallengeKillCountFast =>
                self.time_cost > self.param1,
            ChallengeType::ChallengeTimeFly => self.time_cost > self.param3,
            ChallengeType::ChallengeKillMonsterInTime => self.time_cost > self.param1,
            ChallengeType::ChallengeTriggerInTime => self.time_cost > self.param1,
            _ => false,
        }
    }

    /// Time shown to the player: the time left for timed types, the time survived
    /// for survival types, nothing for the others.
    pub open spec fn time_progress(self) -> Option<u32> {
        if counts_down_from_param1(self.challenge_type) {
            Some(if self.time_cost <= self.param1 { (self.param1 - self.time_cost) as u32 } else { 0 })
        } else if self.challenge_type == ChallengeType::ChallengeTimeFly {
            Some(if self.time_cost <= self.param3 { (self.param3 - self.time_cost) as u32 } else { 0 })
        } else if self.challenge_type == ChallengeType::ChallengeSurvive
            || self.challenge_type == ChallengeType::ChallengeSurviveInTime {
            Some(self.time_cost)
        } else {
            None
        }
    }

    /// The parameters sent to the client when the challenge starts.
    pub open spec fn initial_params(self) -> Seq<u32> {
        match self.challenge_type {
            ChallengeType::ChallengeKillCount => seq![self.param2, self.param1],
            ChallengeType::ChallengeKillCountInTime | ChallengeType::ChallengeKillCountFast =>
                seq![self.param3, self.param1],
            ChallengeType::ChallengeSurvive | ChallengeType::ChallengeKillMonsterInTime =>
                seq![self.param1],
            ChallengeType::ChallengeTimeFly => seq![self.param2, self.param3, self.param4],
            ChallengeType::ChallengeTriggerInTime => seq![self.param1, self.param4],
            ChallengeType::ChallengeKillCountGuardHp => seq![self.param2, self.param3],
            _ => Seq::empty(),
        }
    }

    /// The time limit can be extended by `delta` without overflow.
    pub open spec fn can_extend(self, delta: u32) -> bool {
        &&& counts_down_from_param1(self.challenge_type) ==> self.param1 + delta <= u32::MAX
        &&& self.challenge_type == ChallengeType::ChallengeTimeFly ==> self.param3 + delta <= u32::MAX
    }

    /// The challenge once started.
    pub open spec fn started(self) -> Self {
        ActiveChallenge { state: ChallengeState::Active, is_active: true, ..self }
    }

    /// The challenge once paused: only a running challenge pauses.
    pub open spec fn paused(self) -> Self {
        if self.state == ChallengeState::Active {
            ActiveChallenge { state: ChallengeState::Paused, ..self }
        } else {
            self
        }
    }

    /// The challenge once resumed: only a paused challenge resumes.
    pub open spec fn resumed(self) -> Self {
        if self.state == ChallengeState::Paused {
            ActiveChallenge { state: ChallengeState::Active, ..self }
        } else {
            self
        }
    }

    /// The challenge once finished for `reason`.
    pub open spec fn finished(self, reason: ChallengeFinishReason) -> Self {
        ActiveChallenge {
            state: ChallengeState::Finished,
            is_active: false,
            finish_reason: reason,
            ..self
        }
    }

    /// The challenge with its time limit extended by `delta`.
    pub open spec fn with_time_limit_added(self, delta: u32) -> Self {
        if counts_down_from_param1(self.challenge_type) {
            ActiveChallenge { param1: (self.param1 + delta) as u32, ..self }
        } else if self.challenge_type == ChallengeType::ChallengeTimeFly {
            ActiveChallenge { param3: (self.param3 + delta) as u32, ..self }
        } else {
            self
        }
    }

    pub fn new(
        group_id: u32,
        source: u32,
        challenge_id: u32,
        param1: u32,
        param2: u32,
        param3: u32,
        param4: u32,
        challenge_index: u32,
        challenge_type: ChallengeType,
    ) -> (s: Self)
        ensures
            s.is_active == false,
            s.group_id == real_group_for(challenge_type, group_id, param1, param2),
            s.source == source,
            s.challenge_id == challenge_id,
            s.param1 == param1,
            s.param2 == param2,
            s.param3 == param3,
            s.param4 == param4,
            s.challenge_index == challenge_index,
            s.challenge_type == challenge_type,
            s.state == ChallengeState::Idle,
            s.finish_reason == ChallengeFinishReason::Unset,
            s.time_cost == 0,
            s.target_count == 0,
    {
        let mut s = ActiveChallenge {
            is_active: false,
            source,
            group_id,
            challenge_id,
            param1,
            param2,
            param3,
            param4,
            challenge_index,
            challenge_type,
            state: ChallengeState::Idle,
            finish_reason: ChallengeFinishReason::Unset,
            time_cost: 0,
            target_count: 0,
        };
        s.group_id = s.get_real_group();
        s
    }

    pub fn start(&mut self)
        ensures
            *final(self) == old(self).started(),
    {
        self.state = ChallengeState::Active;
        self.is_active = true;
    }

    pub fn pause(&mut self)
        ensures
            *final(self) == old(self).paused(),
    {
        if self.state == ChallengeState::Active {
            self.state = ChallengeState::Paused;
        }
    }

    pub fn resume(&mut self)
        ensures
            *final(self) == old(self).resumed(),
    {
        if self.state == ChallengeState::Paused {
            self.state = ChallengeState::Active;
        }
    }

    pub fn finish(&mut self, reason: ChallengeFinishReason)
        ensures
            *final(self) == old(self).finished(reason),
    {
        self.state = ChallengeState::Finished;
        self.is_active = false;
        self.finish_reason = reason;
    }

    pub fn is_success(&self) -> (r: bool)
        ensures
            r == self.success_reached(),
    {
        if self.state != ChallengeState::Active {
            return false;
        }
        match self.challenge_type {
            ChallengeType::ChallengeKillCount => self.target_count >= self.param2,
            ChallengeType::ChallengeKillCountInTime | ChallengeType::ChallengeKillCountFast => {
                self.target_count >= self.param3
            },
            ChallengeType::ChallengeSurvive | ChallengeType::ChallengeSurviveInTime => {
                self.time_cost >= self.param1
            },
            ChallengeType::ChallengeTimeFly => self.target_count >= self.param2,
            ChallengeType::ChallengeKillMonsterInTime => false,
            ChallengeType::ChallengeTriggerInTime => self.target_count >= self.param4,
            ChallengeType::ChallengeKillCountGuardHp => self.target_count >= self.param2,
            _ => false,
        }
    }

    pub fn is_failed(&self) -> (r: bool)
        ensures
            r == self.failure_reached(),
    {
        if self.state != ChallengeState::Active {
            return false;
        }
        match self.challenge_type {
            ChallengeType::ChallengeKillCount => false,
            ChallengeType::ChallengeKillCountInTime | ChallengeType::ChallengeKillCountFast => {
                self.time_cost > self.param1
            },
            ChallengeType::ChallengeSurvive | ChallengeType::ChallengeSurviveInTime => false,
            ChallengeType::ChallengeTimeFly => self.time_cost > self.param3,
            ChallengeType::ChallengeKillMonsterInTime => self.time_cost > self.param1,
            ChallengeType::ChallengeTriggerInTime => self.time_cost > self.param1,
            ChallengeType::ChallengeKillCountGuardHp => false,
            _ => false,
        }
    }

    pub fn get_time_progress(&self) -> (r: Option<u32>)
        ensures
            r == self.time_progress(),
    {
        match self.challenge_type {
            ChallengeType::ChallengeKillCountInTime
            | ChallengeType::ChallengeKillCountFast
            | ChallengeType::ChallengeKillMonsterInTime
            | ChallengeType::ChallengeTriggerInTime => {
                Some(self.param1.saturating_sub(self.time_cost))
            },
            ChallengeType::ChallengeTimeFly => Some(self.param3.saturating_sub(self.time_cost)),
            ChallengeType::ChallengeSurvive | ChallengeType::ChallengeSurviveInTime => {
                Some(self.time_cost)
            },
            _ => None,
        }
    }

    pub fn add_time_limit(&mut self, delta: u32)
        requires
            old(self).can_extend(delta),
        ensures
            *final(self) == old(self).with_time_limit_added(delta),
    {
        match self.challenge_type {
            ChallengeType::ChallengeKillCountInTime
            | ChallengeType::ChallengeKillCountFast
            | ChallengeType::ChallengeKillMonsterInTime
            | ChallengeType::ChallengeTriggerInTime => {
                self.param1 += delta;
            },
            ChallengeType::ChallengeTimeFly => self.param3 += delta,
            _ => {},
        }
    }

    pub fn get_real_group(&self) -> (r: u32)
        ensures
            r == real_group_for(self.challenge_type, self.group_id, self.param1, self.param2),
    {
        match self.challenge_type {
            ChallengeType::ChallengeKillCount
            | ChallengeType::ChallengeTimeFly
            | ChallengeType::ChallengeKillCountGuardHp => self.param1,
            ChallengeType::ChallengeKillCountInTime
            | ChallengeType::ChallengeKillCountFast
            | ChallengeType::ChallengeKillMonsterInTime => self.param2,
            _ => self.group_id,
        }
    }

    pub fn get_initial_param_list(&self) -> (r: Vec<u32>)
        ensures
            r@ == self.initial_params(),
    {
        match self.challenge_type {
            ChallengeType::ChallengeKillCount => vec![self.param2, self.param1],
            ChallengeType::ChallengeKillCountInTime | ChallengeType::ChallengeKillCountFast => {
                vec![self.param3, self.param1]
            },
            ChallengeType::ChallengeSurvive | ChallengeType::ChallengeKillMonsterInTime => {
                vec![self.param1]
            },
            ChallengeType::ChallengeTimeFly => vec![self.param2, self.param3, self.param4],
            ChallengeType::ChallengeTriggerInTime => vec![self.param1, self.param4],
            ChallengeType::ChallengeKillCountGuardHp => vec![self.param2, self.param3],
            _ => Vec::new(),
        }
    }
}

} // verus!
