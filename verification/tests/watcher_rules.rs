use openstory_console::watcher::{
    ExitKind, RestartCounters, RestartPolicy, RestartState, RunOutcome, Watcher,
};

/// A fixed starting instant in milliseconds.
fn t0() -> u64 {
    1_000_000
}

const SEC: u64 = 1000;

#[test]
fn exit_kind_classification() {
    assert_eq!(ExitKind::from_outcome(RunOutcome::Quit), ExitKind::Normal);
    assert_eq!(ExitKind::from_outcome(RunOutcome::DurationElapsed), ExitKind::Normal);
    assert_eq!(ExitKind::from_outcome(RunOutcome::Failed), ExitKind::AuthFailed);
    assert_eq!(ExitKind::from_outcome(RunOutcome::ConnectFailed), ExitKind::Disconnected);
    assert_eq!(ExitKind::from_outcome(RunOutcome::ConnectionClosed), ExitKind::Disconnected);
}

#[test]
fn auth_failure_is_never_restarted() {
    let mut w = Watcher::new(RestartPolicy::default_policy());
    assert!(!w.on_exit(Some(RunOutcome::Failed), false, t0()));
    assert!(w.needs_attention());
    assert!(!w.is_waiting());
    assert!(!w.given_up());
}

#[test]
fn watcher_normal_exit_is_never_restarted() {
    for o in [RunOutcome::Quit, RunOutcome::DurationElapsed] {
        let mut w = Watcher::new(RestartPolicy::default_policy());
        assert!(!w.on_exit(Some(o), false, t0()));
        assert!(!w.is_waiting());
        assert!(!w.needs_attention());
        assert_eq!(*w.state(), RestartState::Stopped { kind: ExitKind::Normal });
    }
}

#[test]
fn panic_and_disconnect_are_restarted() {
    for (o, panicked) in [
        (RunOutcome::Quit, true),
        (RunOutcome::ConnectionClosed, false),
        (RunOutcome::ConnectFailed, false),
    ] {
        let mut w = Watcher::new(RestartPolicy::default_policy());
        assert!(w.on_exit(Some(o), panicked, t0()), "{o:?} panicked={panicked}");
        assert!(w.is_waiting());
    }
}

#[test]
fn panic_beats_normal_outcome() {
    let mut w = Watcher::new(RestartPolicy::default_policy());
    assert!(w.on_exit(Some(RunOutcome::Quit), true, t0()));
    assert!(w.is_waiting());
}

#[test]
fn disabled_policy_never_restarts() {
    let mut w = Watcher::new(RestartPolicy::disabled());
    assert!(!w.on_exit(Some(RunOutcome::ConnectionClosed), true, t0()));
    assert!(!w.is_waiting());
}

#[test]
fn backoff_sequence_follows_policy() {
    let p = RestartPolicy::default_policy();
    assert_eq!(p.backoff_for(1), 5 * SEC);
    assert_eq!(p.backoff_for(2), 15 * SEC);
    assert_eq!(p.backoff_for(3), 45 * SEC);
    assert_eq!(p.backoff_for(99), 45 * SEC);
}

#[test]
fn backoff_for_zero_and_empty_policy() {
    let p = RestartPolicy::default_policy();
    assert_eq!(p.backoff_for(0), 5 * SEC);
    let empty = RestartPolicy { backoff_secs: vec![], ..RestartPolicy::default_policy() };
    assert_eq!(empty.backoff_for(3), 0);
}

#[test]
fn first_backoff_is_the_shortest() {
    let p = RestartPolicy::default_policy();
    assert!(p.backoff_for(1) < p.backoff_for(2));
    assert!(p.backoff_for(2) < p.backoff_for(3));
}

#[test]
fn restart_happens_once_per_backoff_window() {
    let mut w = Watcher::new(RestartPolicy::default_policy());
    let now = t0();
    assert!(w.on_exit(Some(RunOutcome::ConnectionClosed), false, now));
    assert!(!w.poll_ready(now));
    assert!(!w.poll_ready(now + SEC));
    assert!(w.poll_ready(now + 6 * SEC));
    assert!(!w.poll_ready(now + 6 * SEC));
    assert!(!w.poll_ready(now + 7 * SEC));
}

#[test]
fn gives_up_after_max_attempts() {
    let mut w = Watcher::new(RestartPolicy::default_policy());
    let mut now = t0();
    for i in 1..=3u32 {
        assert!(w.on_exit(Some(RunOutcome::ConnectionClosed), false, now), "attempt {i}");
        let wait = w.remaining(now).expect("waiting");
        assert!(wait > 0);
        now += wait + 1;
        assert!(w.poll_ready(now), "attempt {i} is due");
    }
    assert!(!w.on_exit(Some(RunOutcome::ConnectionClosed), false, now));
    assert!(w.given_up());
    assert!(w.needs_attention());
    assert_eq!(w.total_restarts(), 3);
}

#[test]
fn backoff_grows_across_attempts() {
    let mut w = Watcher::new(RestartPolicy::default_policy());
    let now = t0();
    let mut waits = Vec::new();
    assert!(w.on_exit(Some(RunOutcome::ConnectionClosed), false, now));
    waits.push(w.remaining(now).unwrap());
    let mut cur = now;
    for _ in 0..2 {
        cur += *waits.last().unwrap() + 1;
        assert!(w.poll_ready(cur));
        assert!(w.on_exit(Some(RunOutcome::ConnectionClosed), false, cur));
        waits.push(w.remaining(cur).unwrap());
    }
    assert!(waits[0] < waits[1], "{waits:?}");
    assert!(waits[1] < waits[2], "{waits:?}");
}

#[test]
fn reset_clears_the_give_up_state() {
    let mut w = Watcher::new(RestartPolicy::default_policy());
    let mut now = t0();
    for _ in 0..3 {
        w.on_exit(Some(RunOutcome::ConnectionClosed), false, now);
        now += w.remaining(now).unwrap_or_default() + 1;
        w.poll_ready(now);
    }
    w.on_exit(Some(RunOutcome::ConnectionClosed), false, now);
    assert!(w.given_up());
    w.reset();
    assert!(!w.given_up());
    assert!(!w.needs_attention());
    assert_eq!(*w.state(), RestartState::Idle);
    assert!(w.on_exit(Some(RunOutcome::ConnectionClosed), false, now));
}

#[test]
fn remaining_is_none_when_not_waiting() {
    let mut w = Watcher::new(RestartPolicy::default_policy());
    let now = t0();
    assert!(w.remaining(now).is_none());
    w.on_exit(Some(RunOutcome::Failed), false, now);
    assert!(w.remaining(now).is_none());
}

#[test]
fn remaining_counts_down_and_saturates() {
    let mut w = Watcher::new(RestartPolicy::default_policy());
    let now = t0();
    w.on_exit(Some(RunOutcome::ConnectionClosed), false, now);
    let r0 = w.remaining(now).unwrap();
    let r1 = w.remaining(now + 2 * SEC).unwrap();
    assert!(r1 < r0);
    assert_eq!(w.remaining(now + 60 * SEC), Some(0));
}

#[test]
fn a_normal_exit_after_a_restart_clears_the_window() {
    let mut w = Watcher::new(RestartPolicy::default_policy());
    let t = t0();
    assert!(w.on_exit(Some(RunOutcome::ConnectionClosed), false, t));
    let at = t + w.remaining(t).unwrap() + 1;
    assert!(w.poll_ready(at));
    assert!(w.is_waiting_restart_fired());
    assert!(!w.on_exit(Some(RunOutcome::Quit), false, at));
    assert!(!w.is_waiting());
    assert!(
        matches!(w.state(), RestartState::Stopped { kind: ExitKind::Normal }),
        "got {:?}",
        w.state()
    );
    assert!(!w.needs_attention());
}

#[test]
fn a_disconnect_after_a_restart_schedules_the_next_attempt() {
    let mut w = Watcher::new(RestartPolicy::default_policy());
    let t = t0();
    assert!(w.on_exit(Some(RunOutcome::ConnectionClosed), false, t));
    let first = w.remaining(t).unwrap();
    let at = t + first + 1;
    assert!(w.poll_ready(at));
    assert!(w.on_exit(Some(RunOutcome::ConnectionClosed), false, at));
    assert!(w.is_waiting());
    assert!(!w.is_waiting_restart_fired());
    let second = w.remaining(at).unwrap();
    assert!(second > first, "{first} vs {second}");
    assert_eq!(w.attempts(), 2);
}

#[test]
fn attempt_counter_survives_restarts_so_backoff_grows() {
    let mut w = Watcher::new(RestartPolicy::default_policy());
    let mut t = t0();
    let mut waits = Vec::new();
    for i in 0..3u32 {
        assert!(w.on_exit(Some(RunOutcome::ConnectionClosed), false, t), "round {i}");
        waits.push(w.remaining(t).unwrap());
        t += *waits.last().unwrap() + 1;
        assert!(w.poll_ready(t), "round {i} is due");
    }
    assert!(waits[0] < waits[1], "{waits:?}");
    assert!(waits[1] < waits[2], "{waits:?}");
    assert!(!w.on_exit(Some(RunOutcome::ConnectionClosed), false, t));
    assert!(w.given_up());
    assert_eq!(w.total_restarts(), 3);
    assert_eq!(w.attempts(), 3);
}

#[test]
fn rearm_clears_a_fired_window() {
    let mut w = Watcher::new(RestartPolicy::default_policy());
    let t = t0();
    assert!(w.on_exit(Some(RunOutcome::ConnectionClosed), false, t));
    let at = t + w.remaining(t).unwrap() + 1;
    assert!(w.poll_ready(at));
    w.rearm();
    assert!(!w.is_waiting_restart_fired());
    assert!(!w.is_waiting());
    assert_eq!(w.attempts(), 1);
}

#[test]
fn rearm_does_not_swallow_a_pending_unfired_wait() {
    let mut w = Watcher::new(RestartPolicy::default_policy());
    let t = t0();
    assert!(w.on_exit(Some(RunOutcome::ConnectionClosed), false, t));
    let deadline = w.remaining(t).unwrap();
    w.rearm();
    assert!(w.is_waiting());
    assert_eq!(w.remaining(t).unwrap(), deadline);
    assert!(!w.poll_ready(t));
}

#[test]
fn rearm_is_a_noop_when_idle_or_given_up() {
    let mut w = Watcher::new(RestartPolicy::default_policy());
    w.rearm();
    assert_eq!(*w.state(), RestartState::Idle);
    let mut t = t0();
    for _ in 0..4 {
        w.on_exit(Some(RunOutcome::ConnectionClosed), false, t);
        t += 60 * SEC;
        w.poll_ready(t);
    }
    assert!(w.given_up());
    w.rearm();
    assert!(w.given_up());
}

#[test]
fn poll_ready_is_false_for_all_non_waiting_states() {
    let now = t0();
    for outcome in [RunOutcome::Quit, RunOutcome::Failed] {
        let mut w = Watcher::new(RestartPolicy::default_policy());
        w.on_exit(Some(outcome), false, now);
        assert!(!w.poll_ready(now + 999 * SEC), "{outcome:?}");
    }
    let mut idle = Watcher::new(RestartPolicy::default_policy());
    assert!(!idle.poll_ready(now));
}

#[test]
fn zero_max_attempts_gives_up_immediately() {
    let mut w = Watcher::new(RestartPolicy { max_attempts: 0, ..RestartPolicy::default_policy() });
    assert!(!w.on_exit(Some(RunOutcome::ConnectionClosed), false, t0()));
    assert!(w.given_up());
}

#[test]
fn alternates_between_restartable_and_auth_failure() {
    let mut w = Watcher::new(RestartPolicy::default_policy());
    let now = t0();
    assert!(w.on_exit(Some(RunOutcome::ConnectFailed), false, now));
    let n1 = now + w.remaining(now).unwrap() + 1;
    assert!(w.poll_ready(n1));
    assert!(!w.on_exit(Some(RunOutcome::Failed), false, n1));
    assert!(w.needs_attention());
    assert!(!w.is_waiting());
}

#[test]
fn set_enabled_toggles_without_losing_a_pending_wait() {
    let mut w = Watcher::new(RestartPolicy::default_policy());
    let now = t0();
    assert!(w.on_exit(Some(RunOutcome::ConnectionClosed), false, now));
    w.set_enabled(false);
    assert!(!w.policy().enabled);
    assert!(w.is_waiting());
    assert!(w.poll_ready(now + 60 * SEC));
    w.reset();
    w.set_enabled(false);
    assert!(!w.on_exit(Some(RunOutcome::ConnectionClosed), false, now));
    assert!(!w.is_waiting());
}

#[test]
fn disabled_policy_reports_stopped_not_given_up() {
    let mut w = Watcher::new(RestartPolicy::disabled());
    assert!(!w.on_exit(Some(RunOutcome::ConnectionClosed), false, t0()));
    assert!(!w.given_up());
    assert!(matches!(w.state(), RestartState::Stopped { kind: ExitKind::Disconnected }));
    assert!(w.needs_attention());
}

#[test]
fn a_normal_stop_does_not_ask_for_attention() {
    for out in [RunOutcome::Quit, RunOutcome::DurationElapsed] {
        let mut w = Watcher::new(RestartPolicy::default_policy());
        assert!(!w.on_exit(Some(out), false, t0()));
        assert!(!w.needs_attention(), "{out:?}");
    }
}

#[test]
fn auth_failure_asks_for_attention() {
    let mut w = Watcher::new(RestartPolicy::default_policy());
    assert!(!w.on_exit(Some(RunOutcome::Failed), false, t0()));
    assert!(w.needs_attention());
}

#[test]
fn counters_start_empty_and_accumulate() {
    let c = RestartCounters::new();
    assert_eq!(c.spawned_count(), 0);
    assert!(!c.has_errors());
    assert!(c.first_error().is_none());
    c.push_error("acc1: 档案未能加载");
    c.push_error("acc2: 另一个错");
    assert!(c.has_errors());
    assert_eq!(c.first_error().as_deref(), Some("acc1: 档案未能加载"));
    c.spawned.fetch_add(3, std::sync::atomic::Ordering::SeqCst);
    assert_eq!(c.spawned_count(), 3);
}

#[test]
fn counters_clone_shares_state() {
    let c = RestartCounters::new();
    let c2 = c.clone();
    c2.push_error("x");
    c2.spawned.fetch_add(1, std::sync::atomic::Ordering::SeqCst);
    assert!(c.has_errors());
    assert_eq!(c.spawned_count(), 1);
}

#[test]
fn manual_stop_blocks_the_auto_restart_that_follows() {
    let mut w = Watcher::new(RestartPolicy::default_policy());
    w.stop_manual();
    assert!(w.is_manually_stopped());
    assert!(!w.on_exit(Some(RunOutcome::ConnectionClosed), false, t0()));
    assert!(!w.is_waiting());
    assert!(w.is_manually_stopped());
}

#[test]
fn manual_stop_also_blocks_a_panic_restart() {
    let mut w = Watcher::new(RestartPolicy::default_policy());
    w.stop_manual();
    assert!(!w.on_exit(Some(RunOutcome::Quit), true, t0()));
    assert!(!w.is_waiting());
    assert!(w.is_manually_stopped());
}

#[test]
fn a_manually_stopped_session_does_not_ask_for_attention() {
    let mut w = Watcher::new(RestartPolicy::default_policy());
    assert!(!w.needs_attention());
    w.stop_manual();
    assert!(!w.needs_attention());
    let mut w2 = Watcher::new(RestartPolicy::default_policy());
    w2.on_exit(Some(RunOutcome::Failed), false, t0());
    assert!(w2.needs_attention());
}

#[test]
fn reset_does_not_revive_a_manually_stopped_session() {
    let mut w = Watcher::new(RestartPolicy::default_policy());
    w.stop_manual();
    w.reset();
    assert!(w.is_manually_stopped());
    assert!(!w.on_exit(Some(RunOutcome::ConnectionClosed), false, t0()));
    let mut w2 = Watcher::new(RestartPolicy::default_policy());
    w2.on_exit(Some(RunOutcome::Quit), false, t0());
    assert!(!w2.is_manually_stopped());
    w2.reset();
    assert!(w2.on_exit(Some(RunOutcome::ConnectionClosed), false, t0()));
}

#[test]
fn resume_restores_the_policy_the_user_configured() {
    let mut w = Watcher::new(RestartPolicy::disabled());
    w.stop_manual();
    assert!(w.resume());
    assert!(!w.policy().enabled);
    assert!(!w.is_manually_stopped());
    assert!(!w.on_exit(Some(RunOutcome::ConnectionClosed), false, t0()));
    let mut w2 = Watcher::new(RestartPolicy::default_policy());
    w2.stop_manual();
    assert!(w2.resume());
    assert!(w2.policy().enabled);
    assert!(w2.on_exit(Some(RunOutcome::ConnectionClosed), false, t0()));
}

#[test]
fn resume_is_a_noop_on_any_other_state() {
    let mut w = Watcher::new(RestartPolicy::default_policy());
    assert!(!w.resume());
    let t = t0();
    assert!(w.on_exit(Some(RunOutcome::ConnectionClosed), false, t));
    let deadline = w.remaining(t).unwrap();
    assert!(!w.resume());
    assert!(w.is_waiting());
    assert_eq!(w.remaining(t).unwrap(), deadline);
    assert_eq!(w.attempts(), 1);
}

#[test]
fn stop_manual_keep_attempts_preserves_the_counter() {
    let mut w = Watcher::new(RestartPolicy::default_policy());
    w.on_exit(Some(RunOutcome::ConnectionClosed), false, t0());
    assert_eq!(w.attempts(), 1);
    w.stop_manual_keep_attempts();
    assert_eq!(w.attempts(), 1);
    assert!(w.is_manually_stopped());
    assert!(!w.policy().enabled);
    let mut w2 = Watcher::new(RestartPolicy::default_policy());
    w2.on_exit(Some(RunOutcome::ConnectionClosed), false, t0());
    w2.stop_manual();
    assert_eq!(w2.attempts(), 0);
}

#[test]
fn manual_stop_after_a_fired_window_still_wins() {
    let mut w = Watcher::new(RestartPolicy::default_policy());
    let t = t0();
    assert!(w.on_exit(Some(RunOutcome::ConnectionClosed), false, t));
    let at = t + w.remaining(t).unwrap() + 1;
    assert!(w.poll_ready(at));
    w.stop_manual();
    assert!(!w.on_exit(Some(RunOutcome::ConnectionClosed), false, at));
    assert!(w.is_manually_stopped());
}

// ---- own tests

#[test]
fn a_stale_unfired_window_lets_a_new_report_through() {
    let mut w = Watcher::new(RestartPolicy::default_policy());
    let t = t0();
    assert!(w.on_exit(Some(RunOutcome::ConnectionClosed), false, t));
    let until = t + 5 * SEC;
    assert!(!w.on_exit(Some(RunOutcome::ConnectionClosed), false, until + 59 * SEC));
    assert!(w.on_exit(Some(RunOutcome::ConnectionClosed), false, until + 60 * SEC));
    assert_eq!(w.attempts(), 2);
}

#[test]
fn a_report_without_an_outcome_only_advances_the_bookkeeping() {
    let mut w = Watcher::new(RestartPolicy::default_policy());
    assert!(!w.on_exit(None, false, t0()));
    assert_eq!(*w.state(), RestartState::Idle);
}

#[test]
fn a_huge_backoff_saturates_instead_of_overflowing() {
    let p = RestartPolicy { backoff_secs: vec![u64::MAX], ..RestartPolicy::default_policy() };
    assert_eq!(p.backoff_for(1), u64::MAX);
    let mut w = Watcher::new(p);
    assert!(w.on_exit(Some(RunOutcome::ConnectionClosed), false, 10));
    assert_eq!(w.remaining(10), Some(u64::MAX - 10));
}

#[test]
fn a_run_of_calls_schedules_at_most_max_attempts_restarts() {
    let mut w = Watcher::new(RestartPolicy { enabled: true, max_attempts: 2, backoff_secs: vec![0] });
    let mut scheduled = 0;
    let mut now: u64 = 1_000_000;
    for _ in 0..6 {
        if w.on_exit(Some(RunOutcome::ConnectionClosed), false, now) {
            scheduled += 1;
        }
        w.poll_ready(now);
        w.rearm();
        now += 1000;
    }
    assert_eq!(scheduled, 2);
    assert_eq!(w.attempts(), 2);
    assert!(w.given_up());
    assert!(w.needs_attention());
}

#[test]
fn the_first_error_comes_from_a_copy_of_the_list() {
    let list = Some(vec!["a".to_string(), "b".to_string()]);
    assert_eq!(openstory_console::counters::first_recorded(&list), Some("a".to_string()));
    assert!(openstory_console::counters::any_recorded(&list));
    let empty: Option<Vec<String>> = Some(Vec::new());
    assert_eq!(openstory_console::counters::first_recorded(&empty), None);
    assert!(!openstory_console::counters::any_recorded(&empty));
    assert_eq!(openstory_console::counters::first_recorded(&None), None);
    assert!(!openstory_console::counters::any_recorded(&None));
    let c = RestartCounters::new();
    assert!(!c.has_errors());
    c.push_error("boom");
    c.push_error("later");
    assert!(c.has_errors());
    assert_eq!(c.first_error(), Some("boom".to_string()));
}
