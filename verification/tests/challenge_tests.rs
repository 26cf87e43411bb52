use nod_krai_gi::challenge::{ActiveChallenge, ChallengeFinishReason, ChallengeState, ChallengeType};

fn kill_count() -> ActiveChallenge {
    // kill 10 monsters; the group is param1
    ActiveChallenge::new(1, 2, 3, 111, 10, 0, 0, 5, ChallengeType::ChallengeKillCount)
}

#[test]
fn new_challenge_uses_real_group() {
    let c = kill_count();
    assert_eq!(c.group_id, 111);
    assert_eq!(c.state, ChallengeState::Idle);
    assert_eq!(c.finish_reason, ChallengeFinishReason::Unset);
    assert!(!c.is_active);
    let timed = ActiveChallenge::new(1, 2, 3, 60, 222, 8, 0, 5, ChallengeType::ChallengeKillCountInTime);
    assert_eq!(timed.group_id, 222);
    let survive = ActiveChallenge::new(7, 2, 3, 60, 222, 8, 0, 5, ChallengeType::ChallengeSurvive);
    assert_eq!(survive.group_id, 7);
}

#[test]
fn pause_then_resume_restores_running() {
    let mut c = kill_count();
    c.start();
    c.pause();
    assert_eq!(c.state, ChallengeState::Paused);
    c.resume();
    assert_eq!(c.state, ChallengeState::Active);
    assert!(c.is_active);
}

#[test]
fn pause_and_resume_only_from_matching_state() {
    let mut c = kill_count();
    c.pause();
    assert_eq!(c.state, ChallengeState::Idle);
    c.resume();
    assert_eq!(c.state, ChallengeState::Idle);
}

#[test]
fn success_and_failure_need_running_challenge() {
    let mut c = kill_count();
    c.target_count = 10;
    assert!(!c.is_success());
    c.start();
    assert!(c.is_success());
    assert!(!c.is_failed());
    c.finish(ChallengeFinishReason::Success);
    assert!(!c.is_success());
    assert_eq!(c.state, ChallengeState::Finished);
    assert!(!c.is_active);
    assert_eq!(c.finish_reason, ChallengeFinishReason::Success);
}

#[test]
fn timed_kill_fails_after_limit() {
    let mut c = ActiveChallenge::new(1, 2, 3, 60, 222, 8, 0, 5, ChallengeType::ChallengeKillCountInTime);
    c.start();
    c.time_cost = 60;
    assert!(!c.is_failed());
    c.time_cost = 61;
    assert!(c.is_failed());
    c.target_count = 8;
    assert!(c.is_success());
}

#[test]
fn time_progress_counts_down_and_saturates() {
    let mut c = ActiveChallenge::new(1, 2, 3, 60, 222, 8, 0, 5, ChallengeType::ChallengeKillCountInTime);
    c.time_cost = 15;
    assert_eq!(c.get_time_progress(), Some(45));
    c.time_cost = 90;
    assert_eq!(c.get_time_progress(), Some(0));
    let mut s = ActiveChallenge::new(1, 2, 3, 60, 0, 0, 0, 5, ChallengeType::ChallengeSurvive);
    s.time_cost = 12;
    assert_eq!(s.get_time_progress(), Some(12));
    let k = kill_count();
    assert_eq!(k.get_time_progress(), None);
    let mut f = ActiveChallenge::new(1, 2, 3, 0, 0, 30, 0, 5, ChallengeType::ChallengeTimeFly);
    f.time_cost = 10;
    assert_eq!(f.get_time_progress(), Some(20));
}

#[test]
fn add_time_limit_extends_the_right_parameter() {
    let mut c = ActiveChallenge::new(1, 2, 3, 60, 222, 8, 0, 5, ChallengeType::ChallengeKillCountInTime);
    c.add_time_limit(30);
    assert_eq!(c.param1, 90);
    let mut f = ActiveChallenge::new(1, 2, 3, 0, 0, 30, 0, 5, ChallengeType::ChallengeTimeFly);
    f.add_time_limit(5);
    assert_eq!(f.param3, 35);
    assert_eq!(f.param1, 0);
    let mut k = kill_count();
    k.add_time_limit(5);
    assert_eq!(k.param1, 111);
}

#[test]
fn extension_never_hastens_failure() {
    let mut c = ActiveChallenge::new(1, 2, 3, 60, 222, 8, 0, 5, ChallengeType::ChallengeTriggerInTime);
    c.start();
    c.time_cost = 61;
    assert!(c.is_failed());
    c.add_time_limit(10);
    assert!(!c.is_failed());
}

#[test]
fn initial_param_lists() {
    assert_eq!(kill_count().get_initial_param_list(), vec![10, 111]);
    let t = ActiveChallenge::new(1, 2, 3, 60, 222, 8, 0, 5, ChallengeType::ChallengeKillCountInTime);
    assert_eq!(t.get_initial_param_list(), vec![8, 60]);
    let f = ActiveChallenge::new(1, 2, 3, 4, 5, 6, 7, 5, ChallengeType::ChallengeTimeFly);
    assert_eq!(f.get_initial_param_list(), vec![5, 6, 7]);
    let g = ActiveChallenge::new(1, 2, 3, 4, 5, 6, 7, 5, ChallengeType::ChallengeTriggerInTime);
    assert_eq!(g.get_initial_param_list(), vec![4, 7]);
    let n = ActiveChallenge::new(1, 2, 3, 4, 5, 6, 7, 5, ChallengeType::ChallengeNone);
    assert_eq!(n.get_initial_param_list(), Vec::<u32>::new());
}

#[test]
fn real_group_by_type() {
    let g = ActiveChallenge::new(9, 2, 3, 4, 5, 6, 7, 5, ChallengeType::ChallengeKillCountGuardHp);
    assert_eq!(g.get_real_group(), 4);
    let m = ActiveChallenge::new(9, 2, 3, 4, 5, 6, 7, 5, ChallengeType::ChallengeKillMonsterInTime);
    assert_eq!(m.get_real_group(), 5);
}

#[test]
fn finished_challenge_stays_finished() {
    let mut c = kill_count();
    c.start();
    c.target_count = 10;
    c.finish(ChallengeFinishReason::Fail);
    c.pause();
    c.resume();
    assert_eq!(c.state, ChallengeState::Finished);
    assert_eq!(c.finish_reason, ChallengeFinishReason::Fail);
    assert!(!c.is_success());
    assert!(!c.is_failed());
}
