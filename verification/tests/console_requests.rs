use openstory_console::console::{App, Category, Effect, Filter, Request};
use openstory_console::credentials::{Credentials, Remember};
use openstory_console::keys::{KeyCode, KeyInput};
use openstory_console::session::{SessionSpec, SessionTemplate, STAGE_FINISHED, STAGE_WIZARD};
use openstory_console::sessions::{Builtin, SessionSet, Target};
use openstory_console::watcher::{RestartPolicy, RunOutcome};

const T0: u64 = 5_000_000;

fn specs(names: &[&str]) -> Vec<SessionSpec> {
    names.iter().map(|n| SessionSpec::new(&format!("profiles/{n}.json"))).collect()
}

fn tpl(password: &str) -> SessionTemplate {
    SessionTemplate { ip: "127.0.0.1".to_string(), port: 1, account: "t".to_string(), password: password.to_string() }
}

fn policy(backoff: u64) -> RestartPolicy {
    RestartPolicy { enabled: true, max_attempts: 3, backoff_secs: vec![backoff] }
}

/// A console over sessions that were never started, each with a template
/// holding `password`.
fn console(names: &[&str], password: &str) -> App {
    let mut set = SessionSet::from_specs_with_policy(&specs(names), policy(5));
    for i in 0..set.len() {
        set.session_mut(i).set_template(tpl(password));
    }
    let mut app = App::new(false, "127.0.0.1".into(), 8484, String::new(), String::new(), String::new());
    let fx = app.attach_sessions(set, true, 0);
    assert_eq!(fx.len(), 1);
    app
}

fn store() -> Credentials {
    Credentials::in_memory(Remember::No)
}

/// A readable form of an effect.
fn show(e: &Effect) -> String {
    match e {
        Effect::Send(s) => format!("send {s}"),
        Effect::Log(k, s) => format!("log {k:?} {s}"),
        Effect::Note(i, k, s) => format!("note {i} {k:?} {s}"),
        Effect::ClearLog => "clear".to_string(),
        Effect::Complete(_) => "complete".to_string(),
        Effect::Submitted(_) => "submitted".to_string(),
        Effect::Sync => "sync".to_string(),
        Effect::Request(r) => format!("request {r:?}"),
        Effect::Launch(l) => format!("launch {}", l.index),
        Effect::Abort(i) => format!("abort {i}"),
        Effect::LoginApplied => "login applied".to_string(),
        Effect::CountError(e) => format!("error {e}"),
        Effect::CountSpawn => "spawn".to_string(),
        Effect::LoadProfile(p) => format!("load {p}"),
        Effect::Removed(i, _) => format!("removed {i}"),
        Effect::KeepAlive(a, b) => format!("live {a} -> {b}"),
        Effect::AllDone => "all done".to_string(),
    }
}

fn shown(fx: &[Effect]) -> Vec<String> {
    fx.iter().map(show).collect()
}

fn type_line(app: &mut App, line: &str) -> Vec<Effect> {
    app.input = line.to_string();
    app.cursor = 0;
    app.submit()
}

#[test]
fn f4_without_a_password_opens_the_login_form() {
    let mut app = console(&["a", "b"], "");
    let mut creds = store();
    let fx = app.run_request(Request::Toggle, T0, &mut creds);
    assert!(fx.is_empty());
    assert_eq!(app.stage, STAGE_WIZARD);
    assert!(app.wizard.is_some());
    assert_eq!(app.wizard_target.as_deref(), Some("a"));
}

#[test]
fn f4_starts_then_stops_the_selected_session() {
    let mut app = console(&["a"], "pw");
    let mut creds = store();
    let fx = app.run_request(Request::Toggle, T0, &mut creds);
    assert_eq!(shown(&fx), vec!["launch 0", "sync", "log Info [system] 已启动"]);
    assert!(app.sessions.as_ref().unwrap().get(0).unwrap().is_running());
    let fx = app.run_request(Request::Toggle, T0, &mut creds);
    let s = shown(&fx);
    assert!(s.contains(&"note 0 Info 已停止 (手动) —— 自动拉起已关闭; 按 F4 可重新启动".to_string()), "{s:?}");
    assert_eq!(s.last().unwrap(), "log Info [system] 已停止");
    assert!(app.sessions.as_ref().unwrap().get(0).unwrap().is_manually_stopped());
}

#[test]
fn bare_start_asks_for_the_same_as_f4() {
    let mut app = console(&["a"], "pw");
    let typed = shown(&type_line(&mut app, "start"));
    let key = shown(&app.on_key(KeyInput::new(KeyCode::F(4)), T0));
    assert_eq!(typed, vec!["request Toggle"]);
    assert_eq!(key, typed);
}

#[test]
fn batch_stop_reports_how_many_it_reached() {
    let mut app = console(&["a", "b"], "pw");
    let mut creds = store();
    let fx = type_line(&mut app, "@all start");
    assert_eq!(shown(&fx), vec!["request Batch(All, Start)"]);
    let fx = app.run_batch(Target::All, Builtin::Start, Some(&creds));
    assert_eq!(
        shown(&fx),
        vec!["launch 0", "launch 1", "log Info [system] 全部会话 启动 → 命中 2, 成功 2"]
    );
    let fx = app.run_request(Request::Batch(Target::All, Builtin::Stop), T0, &mut creds);
    let s = shown(&fx);
    assert_eq!(s.last().unwrap(), "log Info [system] 全部会话 停止 → 命中 2, 成功 2");
    assert!(s.contains(&"note 1 Info 已停止 (手动) —— 自动拉起已关闭; 按 F4 可重新启动".to_string()));
}

#[test]
fn batch_reports_each_failure() {
    let mut app = console(&["a", "b"], "");
    let creds = store();
    let fx = app.run_batch(Target::All, Builtin::Start, Some(&creds));
    let s = shown(&fx);
    assert_eq!(s.len(), 1);
    assert!(s[0].starts_with("log Info [system] 全部会话 启动 → 命中 2, 成功 0\n  a: "), "{s:?}");
    assert!(s[0].contains("\n  b: "), "{s:?}");
}

#[test]
fn profiles_list_marks_the_selected_session() {
    let mut app = console(&["a", "b"], "pw");
    let mut creds = store();
    let fx = type_line(&mut app, "profiles list");
    assert_eq!(shown(&fx), vec!["request OnSelected(ListProfiles)"]);
    let fx = app.run_request(Request::OnSelected(Builtin::ListProfiles), T0, &mut creds);
    assert_eq!(
        shown(&fx),
        vec!["log Info [system] 已挂 2 个账号 (▶ = 当前选中):\n▶  a — 未启动\n   b — 未启动"]
    );
}

#[test]
fn profiles_remove_takes_the_session_off() {
    let mut app = console(&["a", "b"], "pw");
    let mut creds = store();
    let fx = app.run_request(Request::OnSelected(Builtin::RemoveProfile("b".into())), T0, &mut creds);
    assert!(shown(&fx).contains(&"removed 1".to_string()), "{:?}", shown(&fx));
    assert_eq!(app.sessions.as_ref().unwrap().len(), 1);
    let fx = app.run_request(Request::OnSelected(Builtin::RemoveProfile("zz".into())), T0, &mut creds);
    let s = shown(&fx);
    assert!(s.iter().all(|l| !l.starts_with("removed")), "{s:?}");
    assert_eq!(app.sessions.as_ref().unwrap().len(), 1);
}

#[test]
fn profiles_add_asks_for_the_file() {
    let mut app = console(&["a"], "pw");
    let fx = app.add_profile("profiles/c.json");
    assert_eq!(shown(&fx), vec!["load profiles/c.json"]);
    let fx = app.add_profile("");
    assert_eq!(shown(&fx), vec!["log Failure [system] 用法: profiles add <档案路径>"]);
}

#[test]
fn f3_on_a_running_session_only_resets_the_back_off() {
    let mut app = console(&["a"], "pw");
    let mut creds = store();
    app.run_request(Request::Toggle, T0, &mut creds);
    let fx = app.run_request(Request::ManualRestart, T0, &mut creds);
    assert_eq!(shown(&fx), vec!["note 0 Info 已清除重连计数 (会话仍在运行)"]);
}

#[test]
fn restart_round_schedules_then_relaunches() {
    let mut app = console(&["a"], "pw");
    let mut creds = store();
    app.run_request(Request::Toggle, T0, &mut creds);
    // the first round sees the running session: one live session now
    let fx = app.drive_restarts(T0, Some(&creds));
    assert_eq!(shown(&fx), vec!["live 0 -> 1"]);
    // the connection dropped
    {
        let s = app.sessions.as_mut().unwrap().session_mut(0);
        s.set_stage(STAGE_FINISHED);
        s.set_outcome(Some(RunOutcome::ConnectionClosed));
    }
    let fx = app.drive_restarts(T0 + 1000, Some(&creds));
    assert_eq!(shown(&fx), vec!["note 0 Failure 掉线, 5 秒后自动拉起"]);
    // nothing more until the back-off has passed
    assert!(app.drive_restarts(T0 + 2000, Some(&creds)).is_empty());
    let fx = app.drive_restarts(T0 + 6000, Some(&creds));
    assert_eq!(shown(&fx), vec!["launch 0", "spawn", "note 0 Info 已自动重新拉起 (第 2 次)"]);
    assert!(app.dirty);
    // (the manual start was the first run)
    // a second round at the same moment changes nothing
    assert!(app.drive_restarts(T0 + 6000, Some(&creds)).is_empty());
}

#[test]
fn restart_round_ends_the_program_when_everything_stopped() {
    let mut app = console(&["a"], "pw");
    let mut creds = store();
    app.run_request(Request::Toggle, T0, &mut creds);
    app.drive_restarts(T0, Some(&creds));
    {
        let s = app.sessions.as_mut().unwrap().session_mut(0);
        s.set_stage(STAGE_FINISHED);
        s.set_outcome(Some(RunOutcome::Quit));
    }
    let fx = app.drive_restarts(T0 + 1000, Some(&creds));
    assert_eq!(shown(&fx), vec!["live 1 -> 0", "all done"]);
}

#[test]
fn restart_round_waits_for_sessions_never_started() {
    let mut app = console(&["a", "b"], "pw");
    let creds = store();
    // nothing runs, but b was never started: the program must not end
    let fx = app.drive_restarts(T0, Some(&creds));
    assert!(fx.is_empty(), "{:?}", shown(&fx));
}

#[test]
fn restart_round_needs_the_runtime() {
    let mut set = SessionSet::from_specs(&specs(&["a"]));
    set.session_mut(0).set_stage(STAGE_FINISHED);
    let mut app = App::new(false, "127.0.0.1".into(), 8484, String::new(), String::new(), String::new());
    app.attach_sessions(set, false, 0);
    assert!(app.drive_restarts(T0, None).is_empty());
}

#[test]
fn history_up_then_down_gives_the_draft_back() {
    let mut app = console(&["a"], "pw");
    type_line(&mut app, "hello");
    app.input = "dra".to_string();
    app.cursor = 3;
    app.on_key(KeyInput::new(KeyCode::Up), T0);
    assert_eq!(app.input, "hello");
    app.on_key(KeyInput::new(KeyCode::Down), T0);
    assert_eq!(app.input, "dra");
    assert_eq!(app.cursor, 3);
}

#[test]
fn repeated_lines_are_kept_once_in_the_history() {
    let mut app = console(&["a"], "pw");
    type_line(&mut app, "hello");
    type_line(&mut app, "hello");
    type_line(&mut app, "  hello  ");
    assert_eq!(app.history, vec!["hello".to_string()]);
}

#[test]
fn ctrl_c_twice_forces_the_exit() {
    let mut app = console(&["a"], "pw");
    let fx = app.on_key(KeyInput::with_ctrl(KeyCode::Char('c')), T0);
    let s = shown(&fx);
    assert!(s.contains(&"send quit".to_string()), "{s:?}");
    assert!(!app.force_quit);
    let fx = app.on_key(KeyInput::with_ctrl(KeyCode::Char('c')), T0 + 500);
    assert!(fx.is_empty());
    assert!(app.force_quit);
}

#[test]
fn typing_inserts_at_the_cursor() {
    let mut app = console(&["a"], "pw");
    for c in ['你', '好'] {
        app.on_key(KeyInput::new(KeyCode::Char(c)), T0);
    }
    app.on_key(KeyInput::new(KeyCode::Left), T0);
    app.on_key(KeyInput::new(KeyCode::Char('中')), T0);
    assert_eq!(app.input, "你中好");
    assert_eq!(app.cursor, 2);
    app.on_key(KeyInput::new(KeyCode::Backspace), T0);
    assert_eq!(app.input, "你好");
}

#[test]
fn applying_the_login_form_starts_the_session() {
    let mut app = console(&["a"], "");
    let mut creds = store();
    app.run_request(Request::Toggle, T0, &mut creds);
    assert_eq!(app.wizard_target.as_deref(), Some("a"));
    let r = openstory_console::wizard::WizardResult {
        ip: "10.0.0.1".into(),
        port: 8484,
        account: "acc".into(),
        password: "secret".into(),
        aes_key: String::new(),
    };
    let fx = app.run_request(Request::ApplyWizard(r), T0, &mut creds);
    let s = shown(&fx);
    assert_eq!(s[0], "note 0 Info 已从向导收下登录信息 (密码 6 位) —— 正在启动");
    assert_eq!(s[1], "login applied");
    assert_eq!(s[2], "launch 0");
    assert!(app.wizard.is_none());
    assert_eq!(creds.password_for("a"), Some("secret"));
    let t = app.sessions.as_ref().unwrap().get(0).unwrap().template().unwrap();
    assert_eq!(t.account, "acc");
    assert_eq!(t.ip, "10.0.0.1");
}

#[test]
fn add_profile_rejects_a_missing_file() {
    // a file that is not there would never start: it is not hung up
    let mut app = console(&["a"], "t");
    let fx = app.finish_add_profile(
        "profiles/definitely_not_here_12345.json",
        openstory_console::requests::ProfileFile::Missing,
    );
    let s = shown(&fx);
    assert_eq!(s.len(), 1);
    assert!(s[0].contains("文件不存在"), "got {s:?}");
    assert_eq!(app.sessions.as_ref().unwrap().len(), 1);
}

#[test]
fn add_profile_appends_an_unstarted_session() {
    let mut app = console(&["a"], "t");
    let fx = app.finish_add_profile(
        "profiles/b.json",
        openstory_console::requests::ProfileFile::Loaded(tpl("pw")),
    );
    assert_eq!(shown(&fx), vec!["log Info [system] 已挂上账号 (共 2 个) — 它是「未启动」的, 按 F4 启动"]);
    let set = app.sessions.as_ref().unwrap();
    assert_eq!(set.len(), 2);
    assert_eq!(set.get(1).unwrap().name(), "b");
    assert!(set.get(1).unwrap().never_started());
    assert!(app.show_sidebar);
    // the same file again is refused
    let fx = app.finish_add_profile(
        "profiles/b.json",
        openstory_console::requests::ProfileFile::Loaded(tpl("pw")),
    );
    assert_eq!(shown(&fx), vec!["log Failure [system] profiles/b.json: 已经挂上了"]);
}

#[test]
fn each_session_keeps_its_own_log_position_and_page() {
    let mut app = console(&["a", "b"], "pw");
    app.sync_from_selected();
    assert_eq!(app.synced, Some(0));
    app.scroll = 5;
    app.filter = Filter::Status;
    assert!(app.select_session_move(1));
    app.sync_from_selected();
    assert_eq!(app.synced, Some(1));
    assert_eq!(app.scroll, 0);
    assert_eq!(app.filter, Filter::All);
    let a = app.sessions.as_ref().unwrap().get(0).unwrap();
    assert_eq!((a.log_scroll(), a.log_filter()), (5, Filter::Status.code()));
    app.filter = Filter::Cat(Category::Chat);
    assert!(app.select_session_move(-1));
    app.sync_from_selected();
    assert_eq!((app.scroll, app.filter), (5, Filter::Status));
    let b = app.sessions.as_ref().unwrap().get(1).unwrap();
    assert_eq!(b.log_filter(), Filter::Cat(Category::Chat).code());
}

#[test]
fn the_login_form_opens_only_for_a_selected_session() {
    let mut lone = App::new(false, "127.0.0.1".into(), 8484, String::new(), String::new(), String::new());
    assert!(!lone.open_wizard_for_selected());
    assert!(lone.wizard.is_none());
    let mut app = console(&["a", "b"], "pw");
    assert!(app.open_wizard_for_selected());
    assert_eq!(app.stage, STAGE_WIZARD);
    assert_eq!(app.wizard_target.as_deref(), Some("a"));
    assert_eq!(app.wizard.as_ref().unwrap().value(openstory_console::wizard::Field::Password), "pw");
}

#[test]
fn removing_a_session_keeps_track_of_the_one_shown() {
    let mut app = console(&["a", "b", "c"], "pw");
    assert!(app.select_session_move(1));
    app.sync_from_selected();
    assert_eq!(app.synced, Some(1));
    // Removing an earlier session moves the shown one down a place.
    let fx = app.remove_profile("a");
    assert!(matches!(fx[0], Effect::Removed(0, false)));
    assert_eq!(app.synced, Some(0));
    // Removing the shown session leaves none shown.
    let fx = app.remove_profile("b");
    assert!(matches!(fx[0], Effect::Removed(0, true)));
    assert_eq!(app.synced, None);
    assert_eq!(app.sessions.as_ref().unwrap().len(), 1);
}
