use openstory_console::session::{
    BotSession, SessionSpec, SessionTemplate, STAGE_FINISHED, STAGE_RUNNING, STAGE_WIZARD,
};
use openstory_console::watcher::{RestartPolicy, RunOutcome};

const SEC: u64 = 1000;

fn now() -> u64 {
    5_000_000
}

fn spec(name: &str) -> SessionSpec {
    SessionSpec::new(&format!("profiles/{name}.json"))
}

fn tpl() -> SessionTemplate {
    SessionTemplate { ip: "127.0.0.1".to_string(), port: 1, account: "test".to_string(), password: "test".to_string() }
}

fn fast_policy() -> RestartPolicy {
    RestartPolicy { enabled: true, max_attempts: 2, backoff_secs: vec![0] }
}

/// A session that just ended with `outcome`.
fn ended(profile: &str, outcome: RunOutcome, policy: RestartPolicy) -> BotSession {
    let (mut s, _rx) = BotSession::new_with_policy(profile, vec![], policy);
    s.set_stage(STAGE_FINISHED);
    s.set_outcome(Some(outcome));
    s
}

/// The bot of the session ended again with `outcome`.
fn simulate_bot_end(s: &mut BotSession, outcome: RunOutcome) {
    s.set_outcome(Some(outcome));
    s.set_stage(STAGE_FINISHED);
}

/// One drop -> back-off -> respawn round; returns the back-off waited.
fn drop_and_restart(s: &mut BotSession, drop_at: u64) -> u64 {
    assert!(s.note_exit(drop_at), "state {:?}", s.restart_state());
    let wait = s.restart_remaining(drop_at).expect("waiting");
    let fire = s.restart_deadline().unwrap() + 1;
    assert!(s.poll_restart(fire), "state {:?}", s.restart_state());
    assert!(s.begin_respawn(None).is_some());
    simulate_bot_end(s, RunOutcome::ConnectionClosed);
    wait
}

#[test]
fn session_from_channel_needs_nothing_global() {
    let (tx, _rx) = tokio::sync::mpsc::channel::<String>(4);
    let s = BotSession::from_channel("acc1", vec!["profiles/acc1.json".to_string()], tx);
    assert_eq!(s.profile, "acc1");
    assert!(!s.is_running());
    assert!(s.outcome().is_none());
    assert_eq!(s.scroll, 0);
}

#[test]
fn session_new_returns_its_own_receiver() {
    let (s, mut rx) = BotSession::new("acc1", vec!["profiles/acc1.json".to_string()]);
    s.send("hunt on").unwrap();
    assert_eq!(rx.try_recv().unwrap(), "hunt on");
    assert!(rx.try_recv().is_err());
}

#[test]
fn two_sessions_have_independent_queues_and_state() {
    let (mut a, mut ra) = BotSession::new("a", vec!["profiles/a.json".to_string()]);
    let (b, mut rb) = BotSession::new("b", vec!["profiles/b.json".to_string()]);
    a.set_stage(STAGE_RUNNING);
    assert!(a.is_running());
    assert!(!b.is_running(), "the stage is per session");
    a.send("for-a").unwrap();
    assert!(rb.try_recv().is_err(), "the command channel is per session");
    assert_eq!(ra.try_recv().unwrap(), "for-a");
}

#[test]
fn send_reports_error_when_session_ended() {
    let (s, rx) = BotSession::new("acc1", vec![]);
    drop(rx);
    let err = s.send("hunt on").unwrap_err();
    assert!(err.contains("已结束") || err.contains("未运行"), "got {err}");
}

#[test]
fn send_reports_full_queue() {
    let (tx, _rx) = tokio::sync::mpsc::channel::<String>(2);
    let s = BotSession::from_channel("acc1", vec![], tx);
    s.send("a").unwrap();
    s.send("b").unwrap();
    let err = s.send("c").unwrap_err();
    assert!(err.contains("已满"), "got {err}");
}

#[test]
fn replace_cmd_tx_redirects_commands() {
    let (mut s, mut old_rx) = BotSession::new("acc1", vec![]);
    assert!(old_rx.try_recv().is_err());
    let (tx2, mut rx2) = tokio::sync::mpsc::channel::<String>(4);
    s.replace_cmd_tx(tx2);
    s.send("view status").unwrap();
    assert_eq!(rx2.try_recv().unwrap(), "view status");
    assert!(old_rx.try_recv().is_err());
}

#[test]
fn stage_helpers_track_the_flag() {
    let (mut s, _r) = BotSession::new("acc1", vec![]);
    s.set_stage(STAGE_RUNNING);
    assert!(s.is_running() && !s.is_finished());
    s.set_stage(STAGE_FINISHED);
    assert!(!s.is_running() && s.is_finished());
    s.set_stage(STAGE_WIZARD);
    assert!(!s.is_running() && !s.is_finished());
}

#[test]
fn profile_name_comes_from_file_stem() {
    assert_eq!(BotSession::profile_from_path("profiles/本地服_100000001.json"), "本地服_100000001");
    assert_eq!(BotSession::profile_from_path("a/b/c.json"), "c");
    assert_eq!(BotSession::profile_from_path("/"), "unknown");
}

#[test]
fn spec_defaults_to_file_stem_name() {
    let sp = spec("serverA_100000003");
    assert_eq!(sp.name, "serverA_100000003");
    assert!(!sp.remember_password);
    assert_eq!(sp.config_path, "profiles/serverA_100000003.json");
}

#[test]
fn spec_builders_override_defaults() {
    let sp = spec("a").with_name("小号A").remembering_password();
    assert_eq!(sp.name, "小号A");
    assert!(sp.remember_password);
}

#[test]
fn disconnect_is_scheduled_for_restart() {
    let mut s = ended("acc1", RunOutcome::ConnectionClosed, RestartPolicy::default_policy());
    assert!(s.task_finished());
    let t = now();
    assert!(s.note_exit(t));
    assert!(s.is_waiting_restart());
    assert!(s.restart_deadline().is_some());
    assert!(!s.restart_fired());
    assert!(s.restart_remaining(t).unwrap() > 0);
    assert!(!s.needs_attention());
}

#[test]
fn connect_failed_is_scheduled_for_restart() {
    let mut s = ended("acc1", RunOutcome::ConnectFailed, RestartPolicy::default_policy());
    assert!(s.note_exit(now()));
    assert!(s.is_waiting_restart());
}

#[test]
fn panic_is_scheduled_for_restart() {
    let mut s = ended("acc1", RunOutcome::Quit, RestartPolicy::default_policy());
    s.set_panicked(true);
    assert!(s.note_exit(now()));
    assert!(s.is_waiting_restart());
}

#[test]
fn session_normal_exit_is_never_restarted() {
    for out in [RunOutcome::Quit, RunOutcome::DurationElapsed] {
        let mut s = ended("acc1", out, RestartPolicy::default_policy());
        assert!(!s.note_exit(now()), "{out:?}");
        assert!(!s.is_waiting_restart());
        assert!(!s.needs_attention(), "{out:?}");
    }
}

#[test]
fn note_exit_is_idempotent() {
    let mut s = ended("acc1", RunOutcome::ConnectionClosed, RestartPolicy::default_policy());
    let t = now();
    assert!(s.note_exit(t));
    let deadline = s.restart_deadline();
    assert!(!s.note_exit(t));
    assert!(!s.note_exit(t + SEC));
    assert_eq!(s.restart_deadline(), deadline);
}

#[test]
fn note_exit_after_a_fired_window_schedules_the_next_backoff() {
    let mut s = ended("acc1", RunOutcome::ConnectionClosed, RestartPolicy::default_policy());
    s.set_template(tpl());
    let t = now();
    assert!(s.note_exit(t));
    let first = s.restart_remaining(t).unwrap();
    let at = s.restart_deadline().unwrap() + 1;
    assert!(s.poll_restart(at));
    assert!(s.begin_respawn(None).is_some());
    assert!(!s.is_waiting_restart());
    simulate_bot_end(&mut s, RunOutcome::ConnectionClosed);
    assert!(s.note_exit(at + SEC));
    let second = s.restart_remaining(at + SEC).unwrap();
    assert!(second > first, "{first} vs {second}");
}

#[test]
fn poll_restart_fires_exactly_once() {
    let mut s = ended("acc1", RunOutcome::ConnectionClosed, fast_policy());
    let t = now();
    assert!(s.note_exit(t));
    let at = s.restart_deadline().unwrap() + 1;
    assert!(s.poll_restart(at));
    assert!(!s.poll_restart(at));
    assert!(!s.poll_restart(at + 60 * SEC));
    assert!(s.restart_fired());
}

#[test]
fn poll_restart_before_the_deadline_does_nothing() {
    let mut s = ended("acc1", RunOutcome::ConnectionClosed, RestartPolicy::default_policy());
    let t = now();
    assert!(s.note_exit(t));
    assert!(!s.poll_restart(t));
    assert!(!s.poll_restart(t + 4 * SEC));
    assert!(s.is_waiting_restart());
    assert!(!s.restart_fired());
}

#[test]
fn gives_up_after_max_attempts_and_needs_attention() {
    let mut s = ended("acc1", RunOutcome::ConnectionClosed, fast_policy());
    s.set_template(tpl());
    let t = now();
    for i in 0..2u64 {
        drop_and_restart(&mut s, t + i * 20 * SEC);
    }
    assert!(!s.note_exit(t + 60 * SEC), "state {:?}", s.restart_state());
    assert!(s.gave_up_restart());
    assert!(s.needs_attention());
    assert!(!s.is_waiting_restart());
    assert!(!s.poll_restart(t + 9999 * SEC));
}

#[test]
fn backoff_grows_across_real_restarts() {
    let mut s = ended("acc1", RunOutcome::ConnectionClosed, RestartPolicy::default_policy());
    s.set_template(tpl());
    let t = now();
    let mut waits = Vec::new();
    for i in 0..3u64 {
        waits.push(drop_and_restart(&mut s, t + i * 600 * SEC));
    }
    assert!(waits[0] < waits[1], "{waits:?}");
    assert!(waits[1] < waits[2], "{waits:?}");
    assert_eq!(waits[0], 5 * SEC);
    assert_eq!(waits[1], 15 * SEC);
    assert_eq!(waits[2], 45 * SEC);
    assert!(!s.note_exit(t + 2000 * SEC));
    assert!(s.gave_up_restart());
}

#[test]
fn a_stale_pending_window_does_not_block_forever() {
    let mut s = ended("acc1", RunOutcome::ConnectionClosed, fast_policy());
    let t = now();
    assert!(s.note_exit(t));
    let first = s.restart_deadline().unwrap();
    assert!(!s.note_exit(t + SEC));
    assert_eq!(s.restart_deadline(), Some(first));
    assert!(s.note_exit(first + 61 * SEC));
}

#[test]
fn auth_failure_marks_attention_and_never_waits() {
    let mut s = ended("acc1", RunOutcome::Failed, RestartPolicy::default_policy());
    assert!(!s.note_exit(now()));
    assert!(!s.is_waiting_restart());
    assert!(s.needs_attention());
    assert!(!s.poll_restart(now() + 999 * SEC));
    assert!(s.restart_deadline().is_none());
}

#[test]
fn reset_watcher_clears_give_up_so_a_new_exit_can_schedule() {
    let mut s = ended("acc1", RunOutcome::ConnectionClosed, fast_policy());
    s.set_template(tpl());
    let t = now();
    for i in 0..2u64 {
        drop_and_restart(&mut s, t + i * 20 * SEC);
    }
    assert!(!s.note_exit(t + 60 * SEC));
    assert!(s.gave_up_restart());
    assert!(s.needs_attention());
    s.reset_watcher();
    assert!(!s.gave_up_restart());
    assert!(!s.needs_attention());
    assert!(s.note_exit(t + 120 * SEC));
}

#[test]
fn restart_switch_can_be_turned_off_per_session() {
    let mut s = ended("acc1", RunOutcome::ConnectionClosed, RestartPolicy::default_policy());
    assert!(s.restart_enabled());
    s.set_restart_enabled(false);
    assert!(!s.restart_enabled());
    assert!(!s.note_exit(now()));
    assert!(!s.is_waiting_restart());
}

#[test]
fn one_session_giving_up_does_not_affect_another() {
    let mut a = ended("a", RunOutcome::ConnectionClosed, fast_policy());
    let mut b = ended("b", RunOutcome::ConnectionClosed, fast_policy());
    a.set_template(tpl());
    let t = now();
    for i in 0..2u64 {
        drop_and_restart(&mut a, t + i * 20 * SEC);
    }
    assert!(!a.note_exit(t + 60 * SEC));
    assert!(a.gave_up_restart());
    assert!(b.note_exit(t));
    assert!(b.is_waiting_restart());
    assert!(!b.gave_up_restart());
    assert!(!b.needs_attention());
}

#[test]
fn note_exit_without_template_still_schedules_but_respawn_fails() {
    let mut s = ended("acc1", RunOutcome::ConnectionClosed, fast_policy());
    assert!(s.note_exit(now()));
    assert!(s.begin_respawn(None).is_none());
}

#[test]
fn a_fresh_session_is_never_started() {
    let (s, _rx) = BotSession::new("acc1", vec![]);
    assert!(s.never_started());
    assert!(!s.is_manually_stopped());
    assert!(!s.start_failed());
}

#[test]
fn prepare_start_clears_the_manual_stop_and_lets_it_be_never_started() {
    let (mut s, _rx) = BotSession::new_with_policy("acc1", vec![], RestartPolicy::default_policy());
    s.set_template(SessionTemplate { ip: "127.0.0.1".to_string(), port: 1, account: "t".into(), password: "t".into() });
    assert!(s.begin_respawn(None).is_some());
    assert_eq!(s.generation(), 1);
    s.set_stage(STAGE_FINISHED);
    assert!(!s.mark_stopped_by_user());
    assert!(s.is_manually_stopped());
    assert!(!s.never_started());
    assert!(s.prepare_start());
    assert!(!s.is_manually_stopped());
}

#[test]
fn a_stopped_but_still_running_session_cannot_be_started_again() {
    let (mut s, _rx) = BotSession::new_with_policy("acc1", vec![], RestartPolicy::default_policy());
    s.set_template(SessionTemplate { ip: "127.0.0.1".to_string(), port: 1, account: "t".into(), password: "t".into() });
    assert!(s.begin_respawn(None).is_some());
    s.set_stage(STAGE_RUNNING);
    assert!(s.mark_stopped_by_user());
    assert!(!s.prepare_start());
    s.set_stage(STAGE_FINISHED);
    assert!(s.prepare_start());
}

#[test]
fn prepare_start_refuses_a_session_that_is_already_active() {
    let (mut s, _rx) = BotSession::new("acc1", vec![]);
    s.set_stage(STAGE_RUNNING);
    assert!(!s.prepare_start());
    let (mut s2, _rx2) = BotSession::new_with_policy("acc2", vec![], RestartPolicy::default_policy());
    s2.finish_task(RunOutcome::ConnectionClosed, false);
    assert!(s2.note_exit(now()));
    assert!(s2.is_waiting_restart());
    assert!(!s2.prepare_start());
}

#[test]
fn a_failed_start_stops_being_never_started() {
    let (mut s, _rx) = BotSession::new("acc1", vec![]);
    assert!(s.never_started());
    s.prepare_start();
    s.stop_manual_keep_attempts();
    s.mark_start_failed();
    assert!(s.start_failed());
    assert!(!s.never_started());
    assert!(s.is_manually_stopped());
    s.set_template(SessionTemplate { ip: "127.0.0.1".to_string(), port: 1, account: "t".into(), password: "t".into() });
    assert!(s.prepare_start());
    assert!(!s.start_failed());
}

#[test]
fn mark_stopped_by_user_reports_whether_it_was_active() {
    let (mut s, _rx) = BotSession::new("acc1", vec![]);
    s.set_stage(STAGE_RUNNING);
    assert!(s.mark_stopped_by_user());
    assert!(!s.restart_enabled());
    let (mut s2, _rx2) = BotSession::new("acc2", vec![]);
    assert!(!s2.mark_stopped_by_user());
}

// ---- own tests

#[test]
fn start_uses_the_stored_password_and_opens_a_new_channel() {
    let (mut s, old_rx) = BotSession::new("acc1", vec![]);
    drop(old_rx);
    s.set_template(SessionTemplate { ip: "127.0.0.1".to_string(), port: 1, account: "acc".into(), password: String::new() });
    let (pw, mut rx) = s.start(Some("stored")).expect("a stored password is enough");
    assert_eq!(pw, "stored");
    assert_eq!(s.template().unwrap().password, "stored");
    assert!(s.is_running());
    assert!(s.has_task());
    assert_eq!(s.generation(), 1);
    s.send("hello").unwrap();
    assert_eq!(rx.try_recv().unwrap(), "hello");
}

#[test]
fn start_without_any_password_fails_and_settles() {
    let (mut s, _rx) = BotSession::new("acc1", vec![]);
    s.set_template(SessionTemplate { ip: "127.0.0.1".to_string(), port: 1, account: "acc".into(), password: String::new() });
    let e = s.start(None).unwrap_err();
    assert!(e.starts_with("acc1: 没有可用密码"), "got {e}");
    assert!(s.start_failed());
    assert!(s.is_settled());
    assert!(!s.never_started());
    assert_eq!(s.generation(), 0);
}

#[test]
fn start_without_a_template_reports_it() {
    let (mut s, _rx) = BotSession::new("acc1", vec![]);
    let e = s.start(Some("pw")).unwrap_err();
    assert_eq!(e, "acc1: 档案未能加载 (没有配置模板)");
    assert!(s.start_failed());
}

#[test]
fn stop_sends_quit_to_a_live_task() {
    let (mut s, _rx) = BotSession::new("acc1", vec![]);
    s.set_template(tpl());
    let (_pw, mut rx) = s.start(None).unwrap();
    assert_eq!(s.stop(), Ok(false));
    assert_eq!(rx.try_recv().unwrap(), "quit");
    assert!(s.is_stopping());
    assert!(s.is_manually_stopped());
}

#[test]
fn stop_reports_a_stuck_task() {
    let (mut s, _rx) = BotSession::new("acc1", vec![]);
    s.set_template(tpl());
    let (_pw, rx) = s.start(None).unwrap();
    drop(rx);
    assert_eq!(s.stop(), Ok(true), "quit could not be queued");
}

#[test]
fn stop_on_a_never_started_session_is_an_error() {
    let (mut s, _rx) = BotSession::new("acc1", vec![]);
    assert_eq!(s.stop(), Err("acc1: 本来就没在运行".to_string()));
    assert!(s.never_started());
}

#[test]
fn a_due_restart_without_template_switches_restarting_off() {
    let mut s = ended("acc1", RunOutcome::ConnectionClosed, fast_policy());
    assert!(s.note_exit(now()));
    let step = s.restart_if_due(now() + 1, None);
    assert!(matches!(step, openstory_console::session::RestartStep::NoTemplate));
    assert!(!s.restart_enabled());
}

#[test]
fn finish_task_records_the_ending_first() {
    let (mut s, _rx) = BotSession::new("acc1", vec![]);
    s.note_spawned();
    assert!(s.is_running());
    s.finish_task(RunOutcome::ConnectionClosed, true);
    assert!(s.task_finished());
    assert_eq!(s.outcome(), Some(RunOutcome::ConnectionClosed));
}
