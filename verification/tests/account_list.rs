use openstory_console::console::{App, Phase};
use openstory_console::session::{SessionSpec, STAGE_RUNNING};
use openstory_console::sessions::SessionSet;
use openstory_console::side::{account_detail, account_dot, accounts_title, dot_symbol, hint_line, row_state, Dot, RowState};

fn idle() -> RowState {
    RowState {
        running: false,
        finished: false,
        failed: false,
        waiting_restart: false,
        restart_ms: None,
        gave_up: false,
        needs_attention: false,
        never_started: false,
        manually_stopped: false,
        start_failed: false,
        generation: 0,
        dropped: 0,
    }
}

#[test]
fn attention_wins_over_every_other_mark() {
    let r = RowState { needs_attention: true, waiting_restart: true, running: true, ..idle() };
    assert_eq!(account_dot(&r), Dot::Attention);
    assert_eq!(dot_symbol(Dot::Attention), "✕");
    let r = RowState { start_failed: true, never_started: true, ..idle() };
    assert_eq!(account_dot(&r), Dot::Attention);
    let r = RowState { waiting_restart: true, finished: true, ..idle() };
    assert_eq!(account_dot(&r), Dot::Waiting);
    assert_eq!(account_dot(&RowState { running: true, ..idle() }), Dot::Running);
    assert_eq!(account_dot(&RowState { manually_stopped: true, finished: true, ..idle() }), Dot::Idle);
    assert_eq!(account_dot(&RowState { finished: true, ..idle() }), Dot::Ended);
    assert_eq!(account_dot(&idle()), Dot::Unsure);
}

#[test]
fn reconnect_countdown_in_whole_seconds() {
    let r = RowState { waiting_restart: true, restart_ms: Some(5_900), ..idle() };
    assert_eq!(account_detail(&r, Phase::InGame, "x", 1, 22), "  5s 后重连");
    let r = RowState { waiting_restart: true, restart_ms: Some(999), ..idle() };
    assert_eq!(account_detail(&r, Phase::InGame, "x", 1, 22), "  正在重连…");
}

#[test]
fn detail_says_why_a_session_does_not_run() {
    assert_eq!(account_detail(&RowState { gave_up: true, ..idle() }, Phase::InGame, "", 0, 22), "  已放弃重连 — 需人工");
    assert_eq!(account_detail(&RowState { start_failed: true, ..idle() }, Phase::InGame, "", 0, 22), "  启动失败 — 需人工");
    assert_eq!(account_detail(&RowState { failed: true, ..idle() }, Phase::InGame, "", 0, 22), "  登录失败 — 需人工");
    assert_eq!(account_detail(&RowState { needs_attention: true, ..idle() }, Phase::InGame, "", 0, 22), "  已停止 — 需人工");
    assert_eq!(account_detail(&RowState { manually_stopped: true, ..idle() }, Phase::InGame, "", 0, 22), "  已停止 (手动)");
    assert_eq!(account_detail(&RowState { never_started: true, ..idle() }, Phase::InGame, "", 0, 22), "  未启动 — F4 启动");
    assert_eq!(account_detail(&idle(), Phase::InGame, "", 0, 22), "  未启动");
}

#[test]
fn in_game_shows_the_character_cut_to_fit() {
    let r = RowState { running: true, ..idle() };
    assert_eq!(account_detail(&r, Phase::InGame, "小明", 12345, 22), "  小明 12345");
    // 22 columns: 18 left after the margins, 6 for " 12345": 12 for the name
    assert_eq!(account_detail(&r, Phase::InGame, "一二三四五六七", 12345, 22), "  一二三四五六 12345");
    // no name yet: the phase, not a lonely id
    assert_eq!(account_detail(&r, Phase::InGame, "", 0, 22), "  游戏中");
    assert_eq!(account_detail(&r, Phase::CharSelect, "小明", 1, 22), "  选角色");
}

#[test]
fn title_counts_reconnecting_before_unstarted() {
    let rows = [RowState { waiting_restart: true, ..idle() }, RowState { never_started: true, ..idle() }, idle()];
    assert_eq!(accounts_title(0, &rows), " 账号 1/3 · 1 个重连中 ");
    let rows = [RowState { never_started: true, ..idle() }, RowState { manually_stopped: true, ..idle() }];
    assert_eq!(accounts_title(1, &rows), " 账号 2/2 · 2 个未启动 ");
    assert_eq!(accounts_title(0, &[]), " 账号 1/1 ");
}

#[test]
fn rows_read_the_sessions() {
    let specs = vec![SessionSpec::new("profiles/a.json"), SessionSpec::new("profiles/b.json")];
    let mut set = SessionSet::from_specs(&specs);
    set.session_mut(1).set_stage(STAGE_RUNNING);
    let a = row_state(set.get(0).unwrap(), 0);
    assert!(a.never_started);
    assert_eq!(account_dot(&a), Dot::Idle);
    assert_eq!(account_detail(&a, Phase::Disconnected, "", 0, 22), "  未启动 — F4 启动");
    let b = row_state(set.get(1).unwrap(), 0);
    assert!(b.running);
    assert_eq!(account_dot(&b), Dot::Running);
    assert_eq!(account_detail(&b, Phase::LoggingIn, "", 0, 22), "  登录中");
}

#[test]
fn key_help_follows_the_console_state() {
    let mut app = App::new(true, "127.0.0.1".into(), 8484, String::new(), String::new(), String::new());
    assert_eq!(hint_line(&app), " Tab/↑↓ 切换字段 · 输入内容 · Enter 连接 · Esc 退出");
    app.on_stage(STAGE_RUNNING);
    assert!(hint_line(&app).starts_with(" ↑↓候选 · Tab/Shift+Tab补全"));
    let specs = vec![SessionSpec::new("profiles/a.json"), SessionSpec::new("profiles/b.json")];
    app.attach_sessions(SessionSet::from_specs(&specs), true, 0);
    app.select_session_move(1);
    assert!(hint_line(&app).starts_with(" 账号 2/2 · Alt+↑↓切换"), "{}", hint_line(&app));
}
