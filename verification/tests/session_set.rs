use openstory_console::credentials::{Credentials, Remember};
use openstory_console::session::{
    classify_join, write_back, BotSession, SessionSpec, SessionTemplate, SupervisorResult,
    STAGE_FINISHED, STAGE_RUNNING,
};
use openstory_console::sessions::{split_target, Builtin, SessionSet, Target};
use openstory_console::watcher::{RestartPolicy, RunOutcome};
use tokio::sync::mpsc;

const SEC: u64 = 1000;

fn t0() -> u64 {
    2_000_000
}

fn specs(names: &[&str]) -> Vec<SessionSpec> {
    names.iter().map(|n| SessionSpec::new(&format!("profiles/{n}.json"))).collect()
}

/// A set whose receivers the test holds (bots that are "running").
fn set(names: &[&str]) -> (SessionSet, Vec<mpsc::Receiver<String>>) {
    let mut s = SessionSet::from_specs(&specs(names));
    let rxs = (0..s.len()).filter_map(|i| s.take_receiver(i)).collect();
    (s, rxs)
}

fn fast_policy() -> RestartPolicy {
    RestartPolicy { enabled: true, max_attempts: 3, backoff_secs: vec![0] }
}

fn tpl(password: &str) -> SessionTemplate {
    SessionTemplate { ip: "127.0.0.1".to_string(), port: 1, account: "t".to_string(), password: password.to_string() }
}

/// A set whose sessions all just dropped (with a template, so they can restart).
fn ended_set(names: &[&str]) -> SessionSet {
    let mut s = SessionSet::from_specs_with_policy(&specs(names), fast_policy());
    for i in 0..s.len() {
        let sess = s.session_mut(i);
        sess.set_template(tpl("t"));
        sess.set_stage(STAGE_FINISHED);
        sess.set_outcome(Some(RunOutcome::ConnectionClosed));
    }
    s
}

/// A set that was never started (manual mode), every session with a template.
fn fresh_set(names: &[&str]) -> SessionSet {
    let mut s = SessionSet::from_specs_with_policy(&specs(names), fast_policy());
    for i in 0..s.len() {
        s.session_mut(i).set_template(tpl("t"));
    }
    s
}

fn set_template_password(s: &mut SessionSet, i: usize, pw: &str) {
    let sess = s.session_mut(i);
    let mut t = sess.template().unwrap();
    t.password = pw.to_string();
    sess.set_template(t);
}

fn launched(l: &[openstory_console::sessions::Launch]) -> Vec<usize> {
    l.iter().map(|x| x.index).collect()
}

// ── targets ─────────────────────────────────────────────────────

#[test]
fn parse_target_forms() {
    assert_eq!(Target::parse("@all"), Some(Target::All));
    assert_eq!(Target::parse("@ALL"), Some(Target::All));
    assert_eq!(Target::parse("@All"), Some(Target::All));
    assert_eq!(Target::parse("@serverA"), Some(Target::Prefix("serverA".into())));
    assert_eq!(Target::parse("hunt"), None);
    assert_eq!(Target::parse("@"), None);
}

#[test]
fn split_target_keeps_command_for_bare_lines() {
    let (t, c) = split_target("hunt on").unwrap();
    assert_eq!(t, Target::Selected);
    assert_eq!(c, "hunt on");
    let (t, c) = split_target("   hunt on   ").unwrap();
    assert_eq!(t, Target::Selected);
    assert_eq!(c, "hunt on");
}

#[test]
fn split_target_strips_the_target_token() {
    let (t, c) = split_target("@serverA hunt on").unwrap();
    assert_eq!(t, Target::Prefix("serverA".into()));
    assert_eq!(c, "hunt on");
    let (t, c) = split_target("@all   chat 你好").unwrap();
    assert_eq!(t, Target::All);
    assert_eq!(c, "chat 你好");
}

#[test]
fn split_target_rejects_bare_at() {
    let err = split_target("@ hunt on").unwrap_err();
    assert!(err.contains("无效"), "got {err}");
}

#[test]
fn split_target_only_looks_at_the_first_token() {
    let (t, c) = split_target("chat @someone 你好").unwrap();
    assert_eq!(t, Target::Selected);
    assert_eq!(c, "chat @someone 你好");
}

#[test]
fn split_target_empty_line() {
    let (t, c) = split_target("").unwrap();
    assert_eq!(t, Target::Selected);
    assert!(c.is_empty());
    let (t, c) = split_target("   ").unwrap();
    assert_eq!(t, Target::Selected);
    assert!(c.is_empty());
}

#[test]
fn target_describe_names_the_prefix() {
    assert_eq!(Target::Selected.describe(), "当前会话");
    assert_eq!(Target::All.describe(), "全部会话");
    assert_eq!(Target::Prefix("ab".into()).describe(), "档案名前缀 @ab");
}

// ── set and selection ───────────────────────────────────────────

#[test]
fn selection_starts_at_zero_and_moves_cyclically() {
    let (mut s, _r) = set(&["a", "b", "c"]);
    assert_eq!(s.selected_index(), 0);
    s.select_move(1);
    assert_eq!(s.selected_index(), 1);
    s.select_move(-1);
    assert_eq!(s.selected_index(), 0);
    s.select_move(-1);
    assert_eq!(s.selected_index(), 2);
    s.select_move(1);
    assert_eq!(s.selected_index(), 0);
}

#[test]
fn select_move_by_more_than_the_length_wraps() {
    let (mut s, _r) = set(&["a", "b", "c"]);
    s.select_move(7);
    assert_eq!(s.selected_index(), 1);
    s.select_move(-7);
    assert_eq!(s.selected_index(), 0, "moving back by the same amount returns");
}

#[test]
fn select_out_of_range_is_ignored() {
    let (mut s, _r) = set(&["a", "b"]);
    s.select(5);
    assert_eq!(s.selected_index(), 0);
    s.select(1);
    assert_eq!(s.selected_index(), 1);
}

#[test]
fn select_move_on_empty_set_is_a_noop() {
    let mut s = SessionSet::new();
    s.select_move(1);
    s.select_move(-1);
    assert_eq!(s.selected_index(), 0);
    assert!(s.selected().is_none());
    assert!(s.is_empty());
}

// ── resolving targets ───────────────────────────────────────────

#[test]
fn resolve_selected_all_and_prefix() {
    let (s, _r) = set(&["serverA_1", "serverA_2", "serverB_1"]);
    assert_eq!(s.resolve(&Target::Selected), vec![0]);
    assert_eq!(s.resolve(&Target::All), vec![0, 1, 2]);
    assert_eq!(s.resolve(&Target::Prefix("serverA".into())), vec![0, 1]);
    assert_eq!(s.resolve(&Target::Prefix("serverB".into())), vec![2]);
    assert_eq!(s.resolve(&Target::Prefix("serverA_1".into())), vec![0]);
}

#[test]
fn resolve_prefix_is_case_insensitive() {
    let (s, _r) = set(&["ServerA_1"]);
    assert_eq!(s.resolve(&Target::Prefix("serverA".into())), vec![0]);
    assert_eq!(s.resolve(&Target::Prefix("SERVERA".into())), vec![0]);
}

#[test]
fn resolve_unknown_prefix_is_empty_not_selected() {
    let (mut s, _r) = set(&["a", "b"]);
    s.select(1);
    assert!(s.resolve(&Target::Prefix("nope".into())).is_empty());
}

#[test]
fn resolve_on_empty_set_is_empty() {
    let s = SessionSet::new();
    assert!(s.resolve(&Target::Selected).is_empty());
    assert!(s.resolve(&Target::All).is_empty());
}

// ── dispatching ─────────────────────────────────────────────────

#[test]
fn dispatch_line_to_selected_only() {
    let (mut s, mut rxs) = set(&["a", "b"]);
    s.select(1);
    let (hit, ok, errs) = s.dispatch_line("hunt on").unwrap();
    assert_eq!((hit, ok), (1, 1));
    assert!(errs.is_empty());
    assert!(rxs[0].try_recv().is_err());
    assert_eq!(rxs[1].try_recv().unwrap(), "hunt on");
}

#[test]
fn dispatch_line_to_all_reaches_every_session() {
    let (s, mut rxs) = set(&["a", "b", "c"]);
    let (hit, ok, errs) = s.dispatch_line("@all hunt on").unwrap();
    assert_eq!((hit, ok), (3, 3));
    assert!(errs.is_empty());
    for rx in rxs.iter_mut() {
        assert_eq!(rx.try_recv().unwrap(), "hunt on");
    }
}

#[test]
fn dispatch_line_to_prefix_reaches_the_matching_group() {
    let (s, mut rxs) = set(&["serverA_1", "serverA_2", "serverB_1"]);
    let (hit, ok, _) = s.dispatch_line("@serverA reactor on").unwrap();
    assert_eq!((hit, ok), (2, 2));
    assert_eq!(rxs[0].try_recv().unwrap(), "reactor on");
    assert_eq!(rxs[1].try_recv().unwrap(), "reactor on");
    assert!(rxs[2].try_recv().is_err());
}

#[test]
fn dispatch_line_rejects_unmatched_prefix() {
    let (s, mut rxs) = set(&["a"]);
    let err = s.dispatch_line("@nope hunt on").unwrap_err();
    assert!(err.contains("没有匹配"), "got {err}");
    assert!(rxs[0].try_recv().is_err());
}

#[test]
fn dispatch_line_rejects_empty_command() {
    let (s, _r) = set(&["a"]);
    assert!(s.dispatch_line("@all").unwrap_err().contains("没有指令内容"));
    assert!(s.dispatch_line("   ").unwrap_err().contains("没有指令内容"));
}

#[test]
fn dispatch_line_rejects_empty_set() {
    let s = SessionSet::new();
    let err = s.dispatch_line("hunt on").unwrap_err();
    assert!(err.contains("没有会话"), "got {err}");
}

#[test]
fn dispatch_line_reports_per_session_failures() {
    let (s, rxs) = set(&["a", "b"]);
    drop(rxs);
    let (hit, ok, errs) = s.dispatch_line("@all hunt on").unwrap();
    assert_eq!((hit, ok), (2, 0));
    assert_eq!(errs.len(), 2);
    assert_eq!(errs[0].0, "a");
    assert_eq!(errs[1].0, "b");
}

#[test]
fn dispatch_line_partial_failure_is_visible() {
    let (s, mut rxs) = set(&["a", "b"]);
    let b_rx = rxs.pop().unwrap();
    drop(b_rx);
    let (hit, ok, errs) = s.dispatch_line("@all hunt on").unwrap();
    assert_eq!((hit, ok), (2, 1));
    assert_eq!(errs.len(), 1);
    assert_eq!(errs[0].0, "b");
    assert_eq!(rxs[0].try_recv().unwrap(), "hunt on");
}

#[test]
fn send_to_handles_bad_index() {
    let (s, _r) = set(&["a"]);
    let (ok, errs) = s.send_to(&[0, 9], "hunt on");
    assert_eq!(ok, 1);
    assert_eq!(errs.len(), 1);
    assert!(errs[0].1.contains("不存在"));
    assert_eq!(errs[0].0, "#9");
}

// ── metadata ────────────────────────────────────────────────────

#[test]
fn find_is_exact_and_find_prefix_is_not() {
    let (s, _r) = set(&["ab", "abc"]);
    assert_eq!(s.find("ab"), Some(0));
    assert_eq!(s.find("a"), None);
    assert_eq!(s.find_prefix("a"), vec![0, 1]);
}

#[test]
fn profile_names_and_running() {
    let (mut s, _r) = set(&["a", "b"]);
    assert_eq!(s.profile_names(), vec!["a", "b"]);
    assert!(s.running().is_empty());
    s.session_mut(0).set_stage(STAGE_RUNNING);
    assert_eq!(s.running(), vec![0]);
}

#[test]
fn config_paths_are_collected_in_order() {
    let (s, _r) = set(&["a", "b"]);
    let ps = s.config_paths();
    assert_eq!(ps.len(), 2);
    assert!(ps[0].ends_with("a.json"));
    assert!(ps[1].ends_with("b.json"));
}

#[test]
fn dispatch_by_target_struct() {
    let (s, mut rxs) = set(&["a", "b"]);
    let (hit, ok, _) = s.dispatch(&Target::Prefix("b".into()), "chat hi");
    assert_eq!((hit, ok), (1, 1));
    assert!(rxs[0].try_recv().is_err());
    assert_eq!(rxs[1].try_recv().unwrap(), "chat hi");
}

#[test]
fn dropped_total_adds_up_the_sessions() {
    let (mut s, _r) = set(&["a", "b"]);
    s.session_mut(0).set_dropped(3);
    s.session_mut(1).set_dropped(4);
    assert_eq!(s.dropped_total(), 7);
    s.session_mut(1).set_dropped(u64::MAX);
    assert_eq!(s.dropped_total(), u64::MAX, "the sum saturates");
}

// ── the supervisor's ending (classify_join / write_back) ─────────

#[test]
fn classify_join_passes_through_a_normal_outcome() {
    for o in [
        RunOutcome::Quit,
        RunOutcome::Failed,
        RunOutcome::ConnectFailed,
        RunOutcome::ConnectionClosed,
        RunOutcome::DurationElapsed,
    ] {
        let r = classify_join(Ok(o));
        assert_eq!(r.outcome, o);
        assert!(!r.panicked);
    }
}

#[test]
fn classify_join_flags_a_panic() {
    let rt = tokio::runtime::Builder::new_current_thread().enable_all().build().unwrap();
    let err = rt.block_on(async {
        let h = tokio::spawn(async { panic!("boom") });
        h.await.unwrap_err()
    });
    let r = classify_join(Err(err));
    assert!(r.panicked);
    assert_eq!(r.outcome, RunOutcome::Quit);
}

#[test]
fn classify_join_treats_abort_as_a_clean_stop() {
    let rt = tokio::runtime::Builder::new_current_thread().enable_all().build().unwrap();
    let err = rt.block_on(async {
        let h: tokio::task::JoinHandle<()> = tokio::spawn(async {
            tokio::time::sleep(std::time::Duration::from_secs(60)).await;
        });
        h.abort();
        h.await.unwrap_err()
    });
    let r = classify_join(Err(err));
    assert!(!r.panicked);
    assert_eq!(r.outcome, RunOutcome::Quit);
}

#[test]
fn write_back_sets_the_outcome_before_the_stage() {
    let (mut s, _rx) = BotSession::new("acc1", vec![]);
    s.set_stage(STAGE_RUNNING);
    write_back(
        &mut s,
        SupervisorResult { outcome: RunOutcome::ConnectionClosed, panicked: false },
    );
    assert_eq!(s.outcome(), Some(RunOutcome::ConnectionClosed));
    assert!(s.task_finished());
}

#[test]
fn write_back_survives_a_poisoned_outcome_lock() {
    // The session's outcome is a plain field written through `&mut`, so there
    // is no lock here that a panicking holder could poison; what is left to
    // check is that the ending of a panicked task is written back in full.
    let (mut s, _rx) = BotSession::new("acc1", vec![]);
    s.set_stage(STAGE_RUNNING);
    write_back(&mut s, SupervisorResult { outcome: RunOutcome::ConnectFailed, panicked: true });
    assert!(s.task_finished());
    assert_eq!(s.outcome(), Some(RunOutcome::ConnectFailed));
}

// ── restarts across the set (advance_watchers / note_exits) ─────

#[test]
fn note_exits_reports_only_newly_ended_sessions() {
    let mut s = ended_set(&["a", "b"]);
    let first = s.note_exits(t0());
    assert_eq!(first.len(), 2);
    assert_eq!(first[0].0, 0);
    assert_eq!(first[1].0, 1);
    assert!(first[0].1.contains("秒后自动拉起"), "got {}", first[0].1);
    assert_eq!(first[0].1, "掉线, 0 秒后自动拉起");
    assert!(s.note_exits(t0()).is_empty());
    assert_eq!(s.waiting_restart(), 2);
}

#[test]
fn one_ended_session_does_not_mark_others() {
    let mut s = ended_set(&["a", "b"]);
    s.session_mut(1).set_stage(STAGE_RUNNING);
    let out = s.note_exits(t0());
    assert_eq!(out.len(), 1);
    assert_eq!(out[0].0, 0);
    assert_eq!(s.waiting_restart(), 1);
}

#[test]
fn needing_attention_counts_given_up_and_failed_sessions() {
    let mut s = ended_set(&["a", "b", "c"]);
    assert_eq!(s.needing_attention(), 0);
    s.session_mut(1).set_outcome(Some(RunOutcome::Failed));
    assert_eq!(s.needing_attention(), 1);
    s.note_exits(t0());
    assert_eq!(s.needing_attention(), 1);
    assert_eq!(s.waiting_restart(), 2);
}

#[test]
fn live_count_counts_running_and_waiting_only() {
    let mut s = ended_set(&["a", "b"]);
    assert_eq!(s.live_count(), 0);
    assert!(s.all_stopped());
    s.note_exits(t0());
    assert_eq!(s.live_count(), 2);
    assert!(!s.all_stopped());
    {
        let a = s.session_mut(0);
        assert!(a.begin_respawn(None).is_some());
        a.set_stage(STAGE_RUNNING);
    }
    assert_eq!(s.live_count(), 2);
    {
        let a = s.session_mut(0);
        a.reset_watcher();
        a.set_outcome(Some(RunOutcome::Quit));
        a.set_stage(STAGE_FINISHED);
    }
    assert_eq!(s.live_count(), 1);
    assert!(!s.all_stopped());
}

#[test]
fn all_stopped_is_false_for_an_empty_set() {
    let s = SessionSet::new();
    assert!(!s.all_stopped());
    assert_eq!(s.live_count(), 0);
}

#[test]
fn advance_watchers_reports_a_session_without_a_template() {
    let mut s = SessionSet::from_specs_with_policy(&specs(&["ghost"]), fast_policy());
    s.session_mut(0).set_stage(STAGE_FINISHED);
    s.session_mut(0).set_outcome(Some(RunOutcome::ConnectionClosed));
    s.note_exits(t0());
    let (spawned, errs) = s.advance_watchers(t0() + SEC, None);
    assert!(spawned.is_empty());
    assert_eq!(errs.len(), 1);
    assert!(errs[0].contains("档案未能加载"), "got {}", errs[0]);
    assert!(!s.get(0).unwrap().restart_enabled());
}

#[test]
fn advance_watchers_waits_for_the_back_off() {
    let policy = RestartPolicy { enabled: true, max_attempts: 3, backoff_secs: vec![5] };
    let mut s = SessionSet::from_specs_with_policy(&specs(&["a"]), policy);
    s.session_mut(0).set_template(tpl("t"));
    s.session_mut(0).set_stage(STAGE_FINISHED);
    s.session_mut(0).set_outcome(Some(RunOutcome::ConnectionClosed));
    let notes = s.note_exits(t0());
    assert_eq!(notes[0].1, "掉线, 5 秒后自动拉起");
    let (spawned, errs) = s.advance_watchers(t0() + 4 * SEC, None);
    assert!(spawned.is_empty() && errs.is_empty());
    let (spawned, _) = s.advance_watchers(t0() + 5 * SEC, None);
    assert_eq!(launched(&spawned), vec![0]);
    assert_eq!(s.get(0).unwrap().generation(), 1);
}

#[test]
fn manual_restart_on_a_running_session_only_clears_the_counter() {
    let mut s = ended_set(&["a"]);
    s.session_mut(0).set_stage(STAGE_RUNNING);
    assert!(s.manual_restart(0, t0(), None).is_ok());
    let a = s.get(0).unwrap();
    assert!(a.is_running());
    assert!(!a.gave_up_restart());
    assert_eq!(a.generation(), 0);
}

#[test]
fn manual_restart_rejects_a_bad_index() {
    let mut s = ended_set(&["a"]);
    let err = s.manual_restart(9, t0(), None).err().unwrap();
    assert!(err.contains("不存在"), "got {err}");
}

#[test]
fn manual_restart_reports_a_missing_template() {
    let mut s = SessionSet::from_specs_with_policy(&specs(&["ghost"]), fast_policy());
    s.session_mut(0).set_stage(STAGE_FINISHED);
    let err = s.manual_restart(0, t0(), None).err().unwrap();
    assert!(err.contains("档案未能加载"), "got {err}");
}

// ── credential store and restarts ───────────────────────────────

#[test]
fn manual_restart_uses_the_credential_store_password() {
    let mut s = ended_set(&["acc0"]);
    set_template_password(&mut s, 0, "WRONG");
    let mut creds = Credentials::in_memory(Remember::No);
    creds.record("acc0", "t", "RIGHT");
    let l = s.manual_restart(0, t0(), Some(&creds)).unwrap().expect("a task to start");
    assert_eq!(l.index, 0);
    assert_eq!(l.password, "RIGHT");
    let sess = s.get(0).unwrap();
    assert_eq!(sess.generation(), 1);
    assert_eq!(sess.template().unwrap().password, "RIGHT");
}

#[test]
fn restart_keeps_the_template_password_when_the_store_has_none() {
    let mut s = ended_set(&["acc0"]);
    set_template_password(&mut s, 0, "FROM_PROFILE");
    let creds = Credentials::in_memory(Remember::No);
    assert!(s.manual_restart(0, t0(), Some(&creds)).is_ok());
    assert_eq!(s.get(0).unwrap().template().unwrap().password, "FROM_PROFILE");
}

#[test]
fn advance_watchers_uses_the_credential_store_password() {
    let mut s = ended_set(&["acc0"]);
    set_template_password(&mut s, 0, "");
    s.note_exits(t0());
    let mut creds = Credentials::in_memory(Remember::No);
    creds.record("acc0", "t", "STORED_PW");
    let (spawned, errs) = s.advance_watchers(t0() + SEC, Some(&creds));
    assert_eq!(launched(&spawned), vec![0], "{errs:?}");
    assert_eq!(spawned[0].password, "STORED_PW");
    assert_eq!(s.get(0).unwrap().template().unwrap().password, "STORED_PW");
}

#[test]
fn restart_without_credentials_still_spawns() {
    let mut s = ended_set(&["acc0"]);
    set_template_password(&mut s, 0, "");
    s.note_exits(t0());
    let (spawned, errs) = s.advance_watchers(t0() + SEC, None);
    assert_eq!(launched(&spawned), vec![0], "{errs:?}");
    assert!(s.get(0).unwrap().template().unwrap().password.is_empty());
}

// ── manual start and stop ───────────────────────────────────────

#[test]
fn a_fresh_set_starts_entirely_unstarted() {
    let s = fresh_set(&["a", "b"]);
    assert_eq!(s.live_count(), 0);
    assert!(s.all_stopped());
    assert!(s.has_never_started());
    assert_eq!(s.never_started_count(), 2);
    assert!(s.all_stopped_by_user());
}

#[test]
fn start_session_spawns_and_marks_it_started() {
    let mut s = fresh_set(&["a", "b"]);
    let r = s.start_session(0, None);
    assert!(r.is_ok());
    let l = r.ok().unwrap();
    assert_eq!(l.index, 0);
    assert_eq!(l.password, "t");
    assert_eq!(s.get(0).unwrap().generation(), 1);
    assert!(!s.get(0).unwrap().never_started());
    assert_eq!(s.never_started_count(), 1);
    assert_eq!(s.live_count(), 1);
}

#[test]
fn start_session_refuses_a_second_time() {
    let mut s = fresh_set(&["a"]);
    assert!(s.start_session(0, None).is_ok());
    let r = s.start_session(0, None);
    assert!(r.is_err());
    assert_eq!(s.get(0).unwrap().generation(), 1);
}

#[test]
fn start_session_without_a_password_reports_it_instead_of_failing_silently() {
    let mut s = fresh_set(&["a"]);
    set_template_password(&mut s, 0, "");
    let e = s.start_session(0, None).err().unwrap();
    assert!(e.contains("没有可用密码"), "{e}");
    let sess = s.get(0).unwrap();
    assert!(sess.start_failed());
    assert!(sess.is_manually_stopped());
    assert!(!s.has_never_started());
    assert_eq!(sess.generation(), 0);
}

#[test]
fn start_session_uses_a_stored_password() {
    let mut s = fresh_set(&["a"]);
    set_template_password(&mut s, 0, "");
    let mut creds = Credentials::in_memory(Remember::No);
    creds.record("a", "t", "STORED_PW");
    let r = s.start_session(0, Some(&creds));
    assert!(r.is_ok());
    assert_eq!(s.get(0).unwrap().template().unwrap().password, "STORED_PW");
}

#[test]
fn start_session_on_a_missing_index_is_an_error() {
    let mut s = fresh_set(&["a"]);
    assert_eq!(s.start_session(3, None).err().unwrap(), "会话不存在");
    assert_eq!(s.stop_session(3).err().unwrap(), "会话不存在");
}

#[test]
fn stop_session_then_start_again_works() {
    let mut s = fresh_set(&["a"]);
    let launch = s.start_session(0, None).ok().unwrap();
    let mut rx = launch.rx;
    assert_eq!(s.stop_session(0), Ok(false));
    assert_eq!(rx.try_recv().unwrap(), "quit", "stop asks the bot to quit");
    {
        let sess = s.get(0).unwrap();
        assert!(sess.is_manually_stopped());
        assert!(!sess.restart_enabled());
    }
    s.session_mut(0).set_stage(STAGE_FINISHED);
    let r = s.start_session(0, None);
    assert!(r.is_ok());
    assert_eq!(s.get(0).unwrap().generation(), 2);
    assert!(!s.get(0).unwrap().is_manually_stopped());
}

#[test]
fn stop_session_refuses_a_never_started_session() {
    let mut s = fresh_set(&["a"]);
    let e = s.stop_session(0).err().unwrap();
    assert!(e.contains("本来就没在运行"), "got {e}");
    assert!(s.get(0).unwrap().never_started());
    assert!(s.has_never_started());
}

#[test]
fn stop_session_accepts_a_finished_session_that_needs_attention() {
    let mut s = ended_set(&["a"]);
    s.session_mut(0).set_outcome(Some(RunOutcome::Failed));
    let t = t0();
    s.note_exits(t);
    assert!(s.get(0).unwrap().needs_attention());
    let r = s.stop_session(0);
    assert!(r.is_ok());
    let sess = s.get(0).unwrap();
    assert!(sess.is_manually_stopped());
    assert!(!sess.needs_attention());
    assert!(!sess.is_waiting_restart());
    let (spawned, errs) = s.advance_watchers(t + 120 * SEC, None);
    assert!(spawned.is_empty(), "{errs:?}");
}

#[test]
fn a_manually_stopped_session_is_never_respawned_by_the_watcher() {
    let mut s = fresh_set(&["a"]);
    assert!(s.start_session(0, None).is_ok());
    assert!(s.stop_session(0).is_ok());
    s.session_mut(0).set_stage(STAGE_FINISHED);
    s.session_mut(0).set_outcome(Some(RunOutcome::ConnectionClosed));
    let t = t0();
    assert!(s.note_exits(t).is_empty());
    let (spawned, errs) = s.advance_watchers(t + 60 * SEC, None);
    assert!(spawned.is_empty(), "{errs:?}");
    assert_eq!(s.get(0).unwrap().generation(), 1);
}

#[test]
fn dispatch_builtin_starts_and_stops_by_target() {
    let mut s = fresh_set(&["serverA_a", "serverA_b", "serverB_c"]);
    let r = s.dispatch_builtin(&Target::Prefix("serverA".into()), Builtin::Start, None);
    assert_eq!((r.hit, r.ok), (2, 2), "{:?}", r.errs);
    assert_eq!(launched(&r.launches), vec![0, 1]);
    assert_eq!(s.never_started_count(), 1);
    let r = s.dispatch_builtin(&Target::All, Builtin::Stop, None);
    assert_eq!(r.hit, 3);
    assert_eq!(r.ok, 2, "{:?}", r.errs);
    assert_eq!(r.errs.len(), 1);
    assert!(r.errs[0].0.contains("serverB_c"));
}

#[test]
fn dispatch_builtin_counts_a_profile_command_as_one_action() {
    // a command on the set counts as one action, carried out by the caller
    let mut s = fresh_set(&["a"]);
    let r = s.dispatch_builtin(&Target::All, Builtin::ListProfiles, None);
    assert_eq!((r.hit, r.ok, r.errs.len(), r.launches.len()), (1, 0, 0, 0));
    assert!(s.get(0).unwrap().never_started());
}

#[test]
fn builtin_for_target_only_recognises_start_and_stop() {
    assert_eq!(SessionSet::builtin_for_target("start"), Some(Builtin::Start));
    assert_eq!(SessionSet::builtin_for_target("stop"), Some(Builtin::Stop));
    assert_eq!(SessionSet::builtin_for_target("  start  "), Some(Builtin::Start));
    assert_eq!(SessionSet::builtin_for_target("starts"), None);
    assert_eq!(SessionSet::builtin_for_target("hunt on"), None);
    assert_eq!(SessionSet::builtin_for_target("start extra"), None);
    assert_eq!(SessionSet::builtin_for_target(""), None);
}

#[test]
fn builtin_parses_the_profiles_command_family() {
    assert_eq!(SessionSet::builtin_for_target("profiles"), Some(Builtin::ListProfiles));
    assert_eq!(SessionSet::builtin_for_target("profiles list"), Some(Builtin::ListProfiles));
    assert_eq!(SessionSet::builtin_for_target("accounts ls"), Some(Builtin::ListProfiles));
    assert_eq!(
        SessionSet::builtin_for_target("profiles add profiles/x.json"),
        Some(Builtin::AddProfile("profiles/x.json".to_string()))
    );
    assert_eq!(
        SessionSet::builtin_for_target("profiles add \"profiles/a b.json\""),
        Some(Builtin::AddProfile("profiles/a b.json".to_string()))
    );
    assert_eq!(
        SessionSet::builtin_for_target("profiles remove x"),
        Some(Builtin::RemoveProfile("x".to_string()))
    );
    assert_eq!(SessionSet::builtin_for_target("profiles rm x"), Some(Builtin::RemoveProfile("x".to_string())));
    assert_eq!(SessionSet::builtin_for_target("profiles add"), Some(Builtin::AddProfile(String::new())));
    assert_eq!(SessionSet::builtin_for_target("profiles remove"), Some(Builtin::RemoveProfile(String::new())));
    assert_eq!(SessionSet::builtin_for_target("profiles frobnicate"), None);
    assert!(Builtin::Start.is_per_session() && Builtin::Stop.is_per_session());
    assert!(!Builtin::ListProfiles.is_per_session());
    assert!(!Builtin::AddProfile(String::new()).is_per_session());
}

// ── adding and removing accounts at run time ────────────────────

#[test]
fn add_profile_hangs_it_up_unstarted() {
    let mut s = fresh_set(&["a"]);
    assert_eq!(s.len(), 1);
    let idx = s
        .add_profile(
            "tmp/newacc.json",
            SessionTemplate { ip: "127.0.0.1".to_string(), port: 1, account: "999".to_string(), password: String::new() },
        )
        .expect("added");
    assert_eq!(idx, 1);
    assert_eq!(s.len(), 2);
    let added = s.get(1).unwrap();
    assert_eq!(added.profile, "newacc");
    assert!(added.never_started());
    assert!(added.template().is_some());
    assert_eq!(added.template().unwrap().account, "999");
    assert_eq!(s.never_started_count(), 2);
    assert_eq!(s.receivers_held(), 2);
}

#[test]
fn add_profile_rejects_the_same_file_twice() {
    let mut s = fresh_set(&["a"]);
    assert!(s.add_profile("tmp/dup.json", tpl("")).is_ok());
    let e = s.add_profile("tmp/dup.json", tpl("")).unwrap_err();
    assert!(e.contains("已经挂上了"), "got {e}");
    assert_eq!(s.len(), 2);
}

#[test]
fn add_profile_rejects_a_second_session_of_the_same_name() {
    let mut s = fresh_set(&["a"]);
    let e = s.check_new_profile("other/a.json").unwrap_err();
    assert_eq!(e, "a: 已有同名档案在列表里");
    assert_eq!(s.check_new_profile("other/b.json"), Ok("b".to_string()));
    assert!(s.add_profile("other/a.json", tpl("")).is_err());
    assert_eq!(s.len(), 1);
}

#[test]
fn remove_profile_refuses_a_running_session() {
    let mut s = fresh_set(&["a", "b"]);
    s.session_mut(0).set_stage(STAGE_RUNNING);
    let e = s.remove_profile("a").unwrap_err();
    assert!(e.contains("先 stop"), "{e}");
    assert_eq!(s.len(), 2);
    assert!(s.stop_session(0).is_ok());
    s.session_mut(0).set_stage(STAGE_FINISHED);
    let (idx, name) = s.remove_profile("a").expect("settled now");
    assert_eq!((idx, name.as_str()), (0, "a"));
    assert_eq!(s.len(), 1);
    assert_eq!(s.get(0).unwrap().profile, "b");
}

#[test]
fn remove_profile_keeps_the_receivers_aligned() {
    let mut s = fresh_set(&["a", "b", "c"]);
    assert_eq!(s.receivers_held(), 3);
    s.remove_profile("b").unwrap();
    assert_eq!(s.len(), 2);
    assert_eq!(s.receivers_held(), 2);
    s.get(0).unwrap().send("for-a").unwrap();
    let mut rxs = s.pull_receivers();
    assert_eq!(rxs[0].try_recv().unwrap(), "for-a");
    assert!(rxs[1].try_recv().is_err());
    assert_eq!(s.get(1).unwrap().profile, "c");
}

#[test]
fn remove_profile_clamps_the_selection() {
    let mut s = fresh_set(&["a", "b"]);
    s.select(1);
    s.remove_profile("b").unwrap();
    assert_eq!(s.len(), 1);
    assert_eq!(s.selected_index(), 0);
}

#[test]
fn remove_profile_reports_an_unknown_name() {
    let mut s = fresh_set(&["a"]);
    let e = s.remove_profile("nope").unwrap_err();
    assert!(e.contains("没有这个档案"), "got {e}");
    assert_eq!(s.len(), 1);
}

#[test]
fn status_lines_cover_every_state() {
    let mut s = fresh_set(&["fresh", "stopped", "dead"]);
    {
        let st = s.session_mut(1);
        st.set_stage(STAGE_RUNNING);
        st.mark_stopped_by_user();
    }
    s.session_mut(2).set_stage(STAGE_FINISHED);
    let lines = s.status_lines();
    assert_eq!(lines.len(), 3);
    assert!(lines[0].contains("未启动"), "{}", lines[0]);
    assert!(lines[1].contains("已停止"), "{}", lines[1]);
    assert!(lines[2].contains("已结束"), "{}", lines[2]);
    assert_eq!(lines[0], "  fresh — 未启动");
    assert!(!lines.iter().any(|l| l.contains('?')), "{lines:?}");
}

#[test]
fn an_ending_from_before_a_restart_is_dropped() {
    let (mut s, _r) = set(&["a"]);
    s.session_mut(0).set_stage(STAGE_RUNNING);
    let g = s.get(0).unwrap().generation();
    let quit = SupervisorResult { outcome: RunOutcome::Quit, panicked: false };
    assert!(!s.record_ending(0, g + 1, quit));
    assert!(s.get(0).unwrap().is_running());
    assert!(!s.record_ending(5, g, quit));
    assert!(s.record_ending(0, g, quit));
    assert!(s.get(0).unwrap().is_finished());
    assert_eq!(s.get(0).unwrap().outcome(), Some(RunOutcome::Quit));
}

#[test]
fn a_template_without_password_takes_the_stored_one() {
    let mut s = SessionSet::from_specs(&specs(&["a", "b"]));
    let mut c = Credentials::in_memory(Remember::Yes);
    c.record("a", "t", "stored");
    s.adopt_template(0, tpl(""), &mut c);
    assert_eq!(s.get(0).unwrap().template().unwrap().password, "stored");
    // Nothing stored for b: the template stays without a password.
    s.adopt_template(1, tpl(""), &mut c);
    assert_eq!(s.get(1).unwrap().template().unwrap().password, "");
    assert_eq!(c.profiles(), vec!["a"]);
}

#[test]
fn a_template_password_is_remembered_only_when_remembering() {
    let mut s = SessionSet::from_specs(&specs(&["a"]));
    let mut c = Credentials::in_memory(Remember::Yes);
    s.adopt_template(0, tpl("given"), &mut c);
    assert_eq!(s.get(0).unwrap().template().unwrap().password, "given");
    assert_eq!(c.password_for("a"), Some("given"));
    let mut s = SessionSet::from_specs(&specs(&["a"]));
    let mut c = Credentials::in_memory(Remember::No);
    s.adopt_template(0, tpl("given"), &mut c);
    assert_eq!(s.get(0).unwrap().template().unwrap().password, "given");
    assert!(c.is_empty());
}

#[test]
fn missing_passwords_lists_only_the_sessions_that_start_now() {
    let mut s = SessionSet::from_specs(&specs(&["a", "b", "c", "d"]));
    s.session_mut(0).set_template(tpl(""));
    s.session_mut(1).set_template(tpl("pw"));
    s.session_mut(2).set_template(tpl(""));
    // d has no template at all.
    assert_eq!(s.missing_passwords(true, &[]), vec!["a".to_string(), "c".to_string()]);
    assert_eq!(s.missing_passwords(true, &["c".to_string()]), vec!["c".to_string()]);
    assert!(s.missing_passwords(false, &[]).is_empty());
}

#[test]
fn a_given_password_fills_the_template_and_the_store() {
    let mut s = SessionSet::from_specs(&specs(&["a", "b"]));
    s.session_mut(0).set_template(tpl(""));
    let mut c = Credentials::in_memory(Remember::No);
    assert_eq!(s.give_password("a", "", &mut c), None);
    assert_eq!(s.give_password("zz", "pw", &mut c), None);
    // b has no template: nothing to fill.
    assert_eq!(s.give_password("b", "pw", &mut c), None);
    assert!(c.is_empty());
    assert_eq!(s.give_password("a", "pw", &mut c), Some(0));
    assert_eq!(s.get(0).unwrap().template().unwrap().password, "pw");
    assert_eq!(c.password_for("a"), Some("pw"));
}
