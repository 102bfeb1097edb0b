//! The account list beside the log: what each row says about its session
//! (a status mark and a line of detail) and what the list's title counts.

use vstd::prelude::*;

use crate::board::{truncate_width, truncated};
use crate::console::{phase_short, signed_decimal, signed_string, Phase};
use crate::session::BotSession;
use crate::text::{copy_str, decimal, decimal_string};
use crate::watcher::RunOutcome;

verus! {

/// What the account list needs to know of a session (the bot's own view
/// aside).
#[derive(Clone, Copy, PartialEq, Eq, Debug, Structural)]
pub struct RowState {
    pub running: bool,
    pub finished: bool,
    /// The last run ended with a failed login.
    pub failed: bool,
    pub waiting_restart: bool,
    /// Milliseconds until the scheduled restart.
    pub restart_ms: Option<u64>,
    pub gave_up: bool,
    pub needs_attention: bool,
    pub never_started: bool,
    pub manually_stopped: bool,
    pub start_failed: bool,
    pub generation: u32,
    /// Events its queue dropped.
    pub dropped: u64,
}

/// The status mark of a row.
#[derive(Clone, Copy, PartialEq, Eq, Debug, Structural)]
pub enum Dot {
    /// Needs a person (`✕`).
    Attention,
    /// Waiting to reconnect (`↻`).
    Waiting,
    /// Running (`●`).
    Running,
    /// Not running, waiting to be started (`◌`).
    Idle,
    /// Ended (`○`).
    Ended,
    /// None of these (`◌`, highlighted).
    Unsure,
}

/// The mark: needing a person wins over everything (a session that gave
/// up is still "ended", but what matters is that nobody looks after it),
/// then reconnecting, running, waiting to be started, ended.
pub open spec fn spec_dot(r: RowState) -> Dot {
    if r.needs_attention || r.start_failed {
        Dot::Attention
    } else if r.waiting_restart {
        Dot::Waiting
    } else if r.running {
        Dot::Running
    } else if r.never_started || r.manually_stopped {
        Dot::Idle
    } else if r.finished {
        Dot::Ended
    } else {
        Dot::Unsure
    }
}

/// The row's state of session `s` at `now` (milliseconds).
pub fn row_state(s: &BotSession, now: u64) -> (r: RowState)
    ensures
        r.running == s.spec_running(),
        r.finished == s.spec_finished(),
        r.failed == (s.spec_outcome() == Some(RunOutcome::Failed)),
        r.waiting_restart == s.spec_waiting(),
        r.restart_ms == s.spec_watcher().spec_remaining(now),
        r.gave_up == s.spec_watcher().spec_given_up(),
        r.needs_attention == s.spec_needs_attention(),
        r.never_started == s.spec_never_started(),
        r.manually_stopped == s.spec_manually_stopped(),
        r.start_failed == s.spec_start_failed(),
        r.generation == s.spec_generation(),
        r.dropped == s.spec_dropped(),
{
    RowState {
        running: s.is_running(),
        finished: s.is_finished(),
        failed: match s.outcome() {
            Some(RunOutcome::Failed) => true,
            _ => false,
        },
        waiting_restart: s.is_waiting_restart(),
        restart_ms: s.restart_remaining(now),
        gave_up: s.gave_up_restart(),
        needs_attention: s.needs_attention(),
        never_started: s.never_started(),
        manually_stopped: s.is_manually_stopped(),
        start_failed: s.start_failed(),
        generation: s.generation(),
        dropped: s.dropped(),
    }
}

/// The row's mark (see [`spec_dot`]).
pub fn account_dot(r: &RowState) -> (d: Dot)
    ensures
        d == spec_dot(*r),
{
    if r.needs_attention || r.start_failed {
        Dot::Attention
    } else if r.waiting_restart {
        Dot::Waiting
    } else if r.running {
        Dot::Running
    } else if r.never_started || r.manually_stopped {
        Dot::Idle
    } else if r.finished {
        Dot::Ended
    } else {
        Dot::Unsure
    }
}

pub open spec fn dot_text(d: Dot) -> Seq<char> {
    match d {
        Dot::Attention => "✕"@,
        Dot::Waiting => "↻"@,
        Dot::Running => "●"@,
        Dot::Idle => "◌"@,
        Dot::Ended => "○"@,
        Dot::Unsure => "◌"@,
    }
}

/// The symbol of a mark.
pub fn dot_symbol(d: Dot) -> (s: &'static str)
    ensures
        s@ == dot_text(d),
{
    match d {
        Dot::Attention => "✕",
        Dot::Waiting => "↻",
        Dot::Running => "●",
        Dot::Idle => "◌",
        Dot::Ended => "○",
        Dot::Unsure => "◌",
    }
}

/// The row's second line, for a list `width` columns wide: the countdown
/// to a reconnect, else why a person is needed, else why it does not run,
/// else where the bot is (in the game: the character's name, cut to fit,
/// and its id).
pub open spec fn spec_detail(r: RowState, phase: Phase, name: Seq<char>, cid: int, width: nat) -> Seq<char> {
    if r.waiting_restart {
        let secs: nat = match r.restart_ms {
            Some(ms) => (ms / 1000) as nat,
            None => 0,
        };
        if secs == 0 {
            "  正在重连…"@
        } else {
            "  "@ + decimal(secs) + "s 后重连"@
        }
    } else if r.gave_up {
        "  已放弃重连 — 需人工"@
    } else if r.start_failed {
        "  启动失败 — 需人工"@
    } else if r.failed {
        "  登录失败 — 需人工"@
    } else if r.needs_attention {
        "  已停止 — 需人工"@
    } else if r.manually_stopped {
        "  已停止 (手动)"@
    } else if r.never_started {
        "  未启动 — F4 启动"@
    } else if !r.running && !r.finished {
        "  未启动"@
    } else if phase == Phase::InGame {
        let id = signed_decimal(cid);
        let avail: int = if width >= 4 { width - 4 } else { 0 };
        let name_w: int = if avail >= id.len() + 1 { avail - (id.len() + 1) } else { 0 };
        let shown = truncated(name, name_w as nat);
        if shown.len() == 0 {
            "  "@ + phase_short(Phase::InGame)
        } else {
            "  "@ + shown + " "@ + id
        }
    } else {
        "  "@ + phase_short(phase)
    }
}

/// The row's second line (see [`spec_detail`]).
pub fn account_detail(r: &RowState, phase: Phase, name: &str, cid: i32, width: usize) -> (s: String)
    ensures
        s@ == spec_detail(*r, phase, name@, cid as int, width as nat),
{
    if r.waiting_restart {
        let secs: u64 = match r.restart_ms {
            Some(ms) => ms / 1000,
            None => 0,
        };
        if secs == 0 {
            return copy_str("  正在重连…");
        }
        let mut s = copy_str("  ");
        s.append(decimal_string(secs).as_str());
        s.append("s 后重连");
        return s;
    }
    if r.gave_up {
        return copy_str("  已放弃重连 — 需人工");
    }
    if r.start_failed {
        return copy_str("  启动失败 — 需人工");
    }
    if r.failed {
        return copy_str("  登录失败 — 需人工");
    }
    if r.needs_attention {
        return copy_str("  已停止 — 需人工");
    }
    if r.manually_stopped {
        return copy_str("  已停止 (手动)");
    }
    if r.never_started {
        return copy_str("  未启动 — F4 启动");
    }
    if !r.running && !r.finished {
        return copy_str("  未启动");
    }
    let mut s = copy_str("  ");
    match phase {
        Phase::InGame => {
            let id = signed_string(cid as i64);
            let idn = id.as_str().unicode_len();
            let avail: usize = if width >= 4 {
                width - 4
            } else {
                0
            };
            let name_w: usize = if idn < avail {
                avail - (idn + 1)
            } else {
                0
            };
            let shown = truncate_width(name, name_w);
            if shown.as_str().unicode_len() == 0 {
                s.append(Phase::InGame.short_name());
            } else {
                s.append(shown.as_str());
                s.append(" ");
                s.append(id.as_str());
            }
        },
        other => {
            s.append(other.short_name());
        },
    }
    s
}

/// The list's title: the selected position, then how many sessions are
/// reconnecting, or else how many wait to be started (when any).
pub open spec fn spec_title(selected: usize, total: usize, waiting: nat, idle: nat) -> Seq<char> {
    let n: nat = if total >= 1 { total as nat } else { 1 };
    let head = " 账号 "@ + decimal((selected + 1) as nat) + "/"@ + decimal(n);
    if waiting > 0 {
        head + " · "@ + decimal(waiting) + " 个重连中 "@
    } else if idle > 0 {
        head + " · "@ + decimal(idle) + " 个未启动 "@
    } else {
        head + " "@
    }
}

pub open spec fn count_waiting(rs: Seq<RowState>) -> nat
    decreases rs.len(),
{
    if rs.len() == 0 {
        0
    } else {
        count_waiting(rs.drop_last()) + if rs.last().waiting_restart { 1nat } else { 0nat }
    }
}

pub open spec fn count_idle(rs: Seq<RowState>) -> nat
    decreases rs.len(),
{
    if rs.len() == 0 {
        0
    } else {
        count_idle(rs.drop_last()) + if rs.last().never_started || rs.last().manually_stopped {
            1nat
        } else {
            0nat
        }
    }
}

/// The list's title for these rows (see [`spec_title`]).
pub fn accounts_title(selected: usize, rows: &[RowState]) -> (s: String)
    requires
        selected < usize::MAX,
    ensures
        s@ == spec_title(selected, rows@.len() as usize, count_waiting(rows@), count_idle(rows@)),
{
    let n = rows.len();
    let mut waiting: usize = 0;
    let mut idle: usize = 0;
    for i in 0..n
        invariant
            n == rows@.len(),
            waiting == count_waiting(rows@.take(i as int)),
            idle == count_idle(rows@.take(i as int)),
            waiting <= i,
            idle <= i,
    {
        proof {
            assert(rows@.take(i + 1).drop_last() =~= rows@.take(i as int));
        }
        if rows[i].waiting_restart {
            waiting += 1;
        }
        if rows[i].never_started || rows[i].manually_stopped {
            idle += 1;
        }
    }
    proof {
        assert(rows@.take(n as int) =~= rows@);
    }
    let total = if n >= 1 {
        n
    } else {
        1
    };
    let mut s = copy_str(" 账号 ");
    s.append(decimal_string((selected + 1) as u64).as_str());
    s.append("/");
    s.append(decimal_string(total as u64).as_str());
    if waiting > 0 {
        s.append(" · ");
        s.append(decimal_string(waiting as u64).as_str());
        s.append(" 个重连中 ");
    } else if idle > 0 {
        s.append(" · ");
        s.append(decimal_string(idle as u64).as_str());
        s.append(" 个未启动 ");
    } else {
        s.append(" ");
    }
    s
}

/// The key help under the input line: the login form's, the chooser's,
/// the finished session's, the multi-account one (with the selected
/// position when there are sessions), or the single-session one.
pub open spec fn spec_hint(a: crate::console::App) -> Seq<char> {
    if a.stage == crate::session::STAGE_WIZARD {
        " Tab/↑↓ 切换字段 · 输入内容 · Enter 连接 · Esc 退出"@
    } else if a.picker != crate::console::Picker::Closed {
        " ↑↓ 选择 · Enter 确认 · Ctrl+C 退出"@
    } else if a.stage == crate::session::STAGE_FINISHED {
        " 会话已结束 — PgUp/PgDn 回顾日志 · Ctrl+C 退出"@
    } else if a.show_sidebar {
        match a.sessions {
            Some(s) if s.spec_sessions().len() > 0 => " 账号 "@ + decimal((s.spec_selected() + 1) as nat) + "/"@
                + decimal(s.spec_sessions().len())
                + " · Alt+↑↓切换 · F4启停 · F3重启 · @all/@<档案> 批量 · F2看板 · ↑↓候选 · Tab补全 · Esc关提示 · PgUp/PgDn滚动 · F1帮助 · Ctrl+C退出"@,
            _ => " ↑↓候选 · Tab补全 · Esc关提示 · PgUp/PgDn滚动 · F1帮助 · Ctrl+C退出"@,
        }
    } else {
        " ↑↓候选 · Tab/Shift+Tab补全(空输入切过滤) · Esc关提示 · PgUp/PgDn滚动 · F1帮助 · Enter发送 · Ctrl+C退出"@
    }
}

/// The key help for the console's state (see [`spec_hint`]).
pub fn hint_line(a: &crate::console::App) -> (s: String)
    ensures
        s@ == spec_hint(*a),
{
    if a.stage == crate::session::STAGE_WIZARD {
        return copy_str(" Tab/↑↓ 切换字段 · 输入内容 · Enter 连接 · Esc 退出");
    }
    if a.picker != crate::console::Picker::Closed {
        return copy_str(" ↑↓ 选择 · Enter 确认 · Ctrl+C 退出");
    }
    if a.stage == crate::session::STAGE_FINISHED {
        return copy_str(" 会话已结束 — PgUp/PgDn 回顾日志 · Ctrl+C 退出");
    }
    if a.show_sidebar {
        return match a.session_position() {
            Some((i, n)) => {
                let mut s = copy_str(" 账号 ");
                let d1 = decimal_string(i as u64 + 1);
                let d2 = decimal_string(n as u64);
                let tail = " · Alt+↑↓切换 · F4启停 · F3重启 · @all/@<档案> 批量 · F2看板 · ↑↓候选 · Tab补全 · Esc关提示 · PgUp/PgDn滚动 · F1帮助 · Ctrl+C退出";
                s.append(d1.as_str());
                s.append("/");
                s.append(d2.as_str());
                s.append(tail);
                proof {
                    let sv = a.sessions->0;
                    assert(d1@ == decimal((sv.spec_selected() + 1) as nat));
                    assert(d2@ == decimal(sv.spec_sessions().len()));
                    assert(s@ =~= " 账号 "@ + d1@ + "/"@ + d2@ + tail@);
                }
                s
            },
            None => copy_str(" ↑↓候选 · Tab补全 · Esc关提示 · PgUp/PgDn滚动 · F1帮助 · Ctrl+C退出"),
        };
    }
    copy_str(" ↑↓候选 · Tab/Shift+Tab补全(空输入切过滤) · Esc关提示 · PgUp/PgDn滚动 · F1帮助 · Enter发送 · Ctrl+C退出")
}

} // verus!
