//! The session operations the console's keys and command lines ask for
//! (start, stop, restart, add and remove accounts), and the restart round
//! the console runs every frame.

use vstd::prelude::*;

use crate::console::{App, Effect, EffectView, LogKind, fx_views};
use crate::credentials::Credentials;
use crate::session::{SessionModel, SessionTemplate};
use crate::sessions::{Builtin, BuiltinModel, SessionSet, Target, builtin_step, stored_pw};
use crate::text::{copy_str, decimal, decimal_string};


verus! {

/// Session `i` became `m` (its command channel aside); the other sessions,
/// the selection and the receivers are as they were.
pub open spec fn changed_at(s: SessionSet, t: SessionSet, i: int, m: SessionModel) -> bool {
    &&& t.spec_selected() == s.spec_selected()
    &&& t.spec_rx_len() == s.spec_rx_len()
    &&& t.spec_sessions().len() == s.spec_sessions().len()
    &&& forall|j: int|
        0 <= j < s.spec_sessions().len() && j != i ==> #[trigger] t.spec_sessions()[j] == s.spec_sessions()[j]
    &&& t.spec_sessions()[i]@.with_sender(s.spec_sessions()[i]@.sender) == m
}

/// There is a selected session.
pub open spec fn has_selected(a: App) -> bool {
    a.sessions matches Some(s) && s.spec_sessions().len() > 0
}

/// The selected session's model.
pub open spec fn selected_model(a: App) -> SessionModel {
    let s = a.sessions->0;
    s.spec_sessions()[s.spec_selected() as int]@
}

pub open spec fn stop_note() -> Seq<char> {
    "已停止 (手动) —— 自动拉起已关闭; 按 F4 可重新启动"@
}

pub open spec fn stuck_note() -> Seq<char> {
    "quit 指令送不进去 (bot 可能卡住) —— 已强制取消该会话的任务"@
}

/// What stopping session `i` reports: the task aborted when it did not take
/// `quit`, notes in its log, then the view refreshed and the console's line.
pub open spec fn stop_fx(i: usize, stuck: bool) -> Seq<EffectView> {
    (if stuck {
        seq![EffectView::Abort(i)]
    } else {
        Seq::empty()
    }) + seq![EffectView::Note(i, LogKind::Info, stop_note())] + (if stuck {
        seq![EffectView::Note(i, LogKind::Failure, stuck_note())]
    } else {
        Seq::empty()
    }) + seq![EffectView::Sync, EffectView::Log(LogKind::Info, "[system] 已停止"@)]
}

/// `start` or `stop` on the selected session: refused without the runtime
/// or without sessions; otherwise the session steps as
/// [`builtin_step`] says and the outcome is reported (a start launches a
/// task).
#[verifier::opaque]
pub open spec fn onsel_next(
    a: App,
    b: App,
    which: BuiltinModel,
    creds: Option<&Credentials>,
    fx: Seq<EffectView>,
) -> bool {
    if !a.has_runtime {
        b == a && fx == seq![
            EffectView::Log(
                LogKind::Info,
                "[system] "@ + crate::sessions::builtin_text(which) + " 需要控制台接管运行时 (单会话模式用向导重连)"@,
            ),
        ]
    } else if !has_selected(a) {
        b == a && fx == seq![EffectView::Log(LogKind::Info, "[system] 没有会话"@)]
    } else {
        let s = a.sessions->0;
        let i = s.spec_selected();
        let m = selected_model(a);
        let (m2, r) = builtin_step(m, which, creds);
        &&& b == App { sessions: b.sessions, dirty: true, ..a }
        &&& b.sessions matches Some(t) && changed_at(s, t, i as int, m2)
        &&& match r {
            Ok(Some(p)) => fx == seq![
                EffectView::Launch(i, p),
                EffectView::Sync,
                EffectView::Log(LogKind::Info, "[system] 已启动"@),
            ],
            Ok(None) => exists|stuck: bool| (stuck ==> m.task_present) && fx == stop_fx(i, stuck),
            Err(e) => fx == seq![EffectView::Sync, EffectView::Log(LogKind::Failure, "[system] "@ + e)],
        }
    }
}

impl App {
    /// `start` / `stop` on the selected session (see [`onsel_next`]).
    pub fn start_or_stop(&mut self, which: Builtin, creds: Option<&Credentials>) -> (fx: Vec<Effect>)
        requires
            which is Start || which is Stop,
            old(self).wf(),
        ensures
            final(self).wf(),
            onsel_next(*old(self), *final(self), which@, creds, fx_views(fx@)),
    {
        if !self.has_runtime {
            proof {
                reveal(onsel_next);
            }
            let mut m = copy_str("[system] ");
            m.append(which.describe());
            m.append(" 需要控制台接管运行时 (单会话模式用向导重连)");
            return crate::console::one_effect(Effect::Log(LogKind::Info, m));
        }
        let n = match &self.sessions {
            Some(set) => set.len(),
            None => 0,
        };
        if n == 0 {
            proof {
                reveal(onsel_next);
            }
            return crate::console::one_effect(Effect::Log(LogKind::Info, copy_str("[system] 没有会话")));
        }
        self.run_on_selected(which, creds)
    }

    fn run_on_selected(&mut self, which: Builtin, creds: Option<&Credentials>) -> (fx: Vec<Effect>)
        requires
            which is Start || which is Stop,
            old(self).wf(),
            old(self).has_runtime,
            has_selected(*old(self)),
        ensures
            final(self).wf(),
            onsel_next(*old(self), *final(self), which@, creds, fx_views(fx@)),
    {
        proof {
            reveal(onsel_next);
        }
        let mut set = self.sessions.take().unwrap();
        let fx = run_on(&mut set, which, creds);
        self.put_back(set);
        fx
    }

    /// Puts the sessions back (after working on them) and redraws.
    fn put_back(&mut self, set: SessionSet)
        requires
            old(self).wf(),
        ensures
            final(self).wf(),
            *final(self) == (App { sessions: Some(set), dirty: true, ..*old(self) }),
    {
        self.sessions = Some(set);
        self.dirty = true;
    }
}

/// Runs `start` / `stop` on the selected session of `set`.
fn run_on(set: &mut SessionSet, which: Builtin, creds: Option<&Credentials>) -> (fx: Vec<Effect>)
    requires
        which is Start || which is Stop,
        old(set).spec_sessions().len() > 0,
    ensures
        ({
            let s = *old(set);
            let i = s.spec_selected();
            let m = s.spec_sessions()[i as int]@;
            let (m2, r) = builtin_step(m, which@, creds);
            &&& changed_at(s, *final(set), i as int, m2)
            &&& match r {
                Ok(Some(p)) => fx_views(fx@) == seq![
                    EffectView::Launch(i, p),
                    EffectView::Sync,
                    EffectView::Log(LogKind::Info, "[system] 已启动"@),
                ],
                Ok(None) => exists|stuck: bool| (stuck ==> m.task_present) && fx_views(fx@) == stop_fx(i, stuck),
                Err(e) => fx_views(fx@) == seq![EffectView::Sync, EffectView::Log(LogKind::Failure, "[system] "@ + e)],
            }
        }),
{
    let i = set.selected_index();
    let mut fx: Vec<Effect> = Vec::new();
    match which {
        Builtin::Start => match set.start_session(i, creds) {
            Ok(l) => {
                let ghost p = l.password@;
                fx.push(Effect::Launch(l));
                fx.push(Effect::Sync);
                fx.push(Effect::Log(LogKind::Info, copy_str("[system] 已启动")));
                proof {
                    assert(fx_views(fx@) =~= seq![
                        EffectView::Launch(i, p),
                        EffectView::Sync,
                        EffectView::Log(LogKind::Info, "[system] 已启动"@),
                    ]);
                }
            },
            Err(e) => {
                let mut m = copy_str("[system] ");
                m.append(e.as_str());
                fx.push(Effect::Sync);
                fx.push(Effect::Log(LogKind::Failure, m));
                proof {
                    assert(fx_views(fx@) =~= seq![
                        EffectView::Sync,
                        EffectView::Log(LogKind::Failure, "[system] "@ + e@),
                    ]);
                }
            },
        },
        _ => match set.stop_session(i) {
            Ok(stuck) => {
                fx = stop_effects(i, stuck);
            },
            Err(e) => {
                let mut m = copy_str("[system] ");
                m.append(e.as_str());
                fx.push(Effect::Sync);
                fx.push(Effect::Log(LogKind::Failure, m));
                proof {
                    assert(fx_views(fx@) =~= seq![
                        EffectView::Sync,
                        EffectView::Log(LogKind::Failure, "[system] "@ + e@),
                    ]);
                }
            },
        },
    }
    fx
}

/// The effects of stopping session `i` (see [`stop_fx`]).
fn stop_effects(i: usize, stuck: bool) -> (fx: Vec<Effect>)
    ensures
        fx_views(fx@) == stop_fx(i, stuck),
{
    let mut fx: Vec<Effect> = Vec::new();
    if stuck {
        fx.push(Effect::Abort(i));
    }
    fx.push(Effect::Note(i, LogKind::Info, copy_str("已停止 (手动) —— 自动拉起已关闭; 按 F4 可重新启动")));
    if stuck {
        fx.push(Effect::Note(i, LogKind::Failure, copy_str("quit 指令送不进去 (bot 可能卡住) —— 已强制取消该会话的任务")));
    }
    fx.push(Effect::Sync);
    fx.push(Effect::Log(LogKind::Info, copy_str("[system] 已停止")));
    proof {
        assert(fx_views(fx@) =~= stop_fx(i, stuck));
    }
    fx
}


// ------------------------------------------------------------------ accounts

/// The text of `profiles list`: each session's status line, the selected
/// one marked.
pub open spec fn list_lines(ss: Seq<crate::session::BotSession>, sel: usize, k: nat) -> Seq<char>
    decreases k,
{
    if k == 0 {
        Seq::empty()
    } else {
        list_lines(ss, sel, (k - 1) as nat) + "\n"@ + (if k - 1 == sel { "▶"@ } else { " "@ })
            + crate::sessions::status_line(ss[k - 1])
    }
}

pub open spec fn list_text(a: App) -> Seq<char> {
    match a.sessions {
        Some(s) => if s.spec_sessions().len() > 0 {
            "[system] 已挂 "@ + decimal(s.spec_sessions().len()) + " 个账号 (▶ = 当前选中):"@ + list_lines(
                s.spec_sessions(),
                s.spec_selected(),
                s.spec_sessions().len(),
            )
        } else {
            "[system] 还没有挂上任何账号 (profiles add <路径>)"@
        },
        None => "[system] 还没有挂上任何账号 (profiles add <路径>)"@,
    }
}

/// What the front end found at a profile path being added.
pub enum ProfileFile {
    /// No such file.
    Missing,
    /// The file is there but its configuration could not be read (why).
    Unreadable(String),
    /// The configuration a restart of the new session will use.
    Loaded(SessionTemplate),
}

/// `profiles add <path>`: refused without sessions or without a path;
/// otherwise the file is to be checked and read (then
/// [`App::finish_add_profile`]).
pub open spec fn add_cmd_fx(a: App, path: Seq<char>) -> Seq<EffectView> {
    if a.sessions is None {
        seq![EffectView::Log(LogKind::Info, "[system] 单会话模式不支持运行时加账号 (用 --profiles 或选择屏勾选多个)"@)]
    } else if path.len() == 0 {
        seq![EffectView::Log(LogKind::Failure, "[system] 用法: profiles add <档案路径>"@)]
    } else {
        seq![EffectView::LoadProfile(path)]
    }
}

/// `profiles remove <name>` refused before the set is asked.
pub open spec fn remove_refusal(a: App, name: Seq<char>) -> Option<EffectView> {
    if a.sessions is None {
        Some(EffectView::Log(LogKind::Info, "[system] 单会话模式没有可摘的账号"@))
    } else if name.len() == 0 {
        Some(EffectView::Log(LogKind::Failure, "[system] 用法: profiles remove <档案名> (名单见 profiles list)"@))
    } else {
        None
    }
}

impl App {
    /// `profiles list`: one line per session, the selected one marked.
    pub fn list_profiles(&mut self) -> (fx: Vec<Effect>)
        requires
            old(self).wf(),
        ensures
            final(self).wf(),
            *final(self) == (App { dirty: true, ..*old(self) }),
            fx_views(fx@) == seq![EffectView::Log(LogKind::Info, list_text(*old(self)))],
    {
        let text = match &self.sessions {
            Some(set) => {
                if set.len() > 0 {
                    list_of(set)
                } else {
                    copy_str("[system] 还没有挂上任何账号 (profiles add <路径>)")
                }
            },
            None => copy_str("[system] 还没有挂上任何账号 (profiles add <路径>)"),
        };
        self.dirty = true;
        crate::console::one_effect(Effect::Log(LogKind::Info, text))
    }

    /// `profiles add <path>` (see [`add_cmd_fx`]).
    pub fn add_profile(&self, path: &str) -> (fx: Vec<Effect>)
        ensures
            fx_views(fx@) == add_cmd_fx(*self, path@),
    {
        if self.sessions.is_none() {
            crate::console::one_effect(
                Effect::Log(LogKind::Info, copy_str("[system] 单会话模式不支持运行时加账号 (用 --profiles 或选择屏勾选多个)")),
            )
        } else if path.unicode_len() == 0 {
            crate::console::one_effect(Effect::Log(LogKind::Failure, copy_str("[system] 用法: profiles add <档案路径>")))
        } else {
            crate::console::one_effect(Effect::LoadProfile(copy_str(path)))
        }
    }

    /// Adds the session of a profile file once the front end looked at it:
    /// a missing file, a path already in the set, a second session of the
    /// same name and an unreadable file are reported in that order;
    /// otherwise the session is appended unstarted (see
    /// [`SessionSet::add_profile`]) and the side bar shows from two.
    pub fn finish_add_profile(&mut self, path: &str, file: ProfileFile) -> (fx: Vec<Effect>)
        requires
            old(self).wf(),
        ensures
            final(self).wf(),
            old(self).sessions is None ==> *final(self) == *old(self) && fx@.len() == 0,
            old(self).sessions matches Some(s) ==> match file {
                ProfileFile::Missing => *final(self) == *old(self) && fx_views(fx@) == seq![
                    EffectView::Log(LogKind::Failure, "[system] "@ + path@ + ": 文件不存在"@),
                ],
                ProfileFile::Unreadable(e) => *final(self) == *old(self) && fx_views(fx@) == seq![
                    EffectView::Log(
                        LogKind::Failure,
                        "[system] "@ + match crate::sessions::add_error(s.spec_sessions(), path@) {
                            Some(x) => x,
                            None => crate::session::spec_profile_name(path@) + ": 配置读不出来 ("@ + e@ + ")"@,
                        },
                    ),
                ],
                ProfileFile::Loaded(t) => match crate::sessions::add_error(s.spec_sessions(), path@) {
                    Some(x) => *final(self) == *old(self) && fx_views(fx@) == seq![
                        EffectView::Log(LogKind::Failure, "[system] "@ + x),
                    ],
                    None => {
                        let n = s.spec_sessions().len();
                        &&& *final(self) == (App {
                            sessions: final(self).sessions,
                            show_sidebar: n + 1 > 1,
                            dirty: true,
                            ..*old(self)
                        })
                        &&& final(self).sessions matches Some(t2) && t2.spec_sessions().len() == n + 1
                            && t2.spec_sessions().take(n as int) == s.spec_sessions() && t2.spec_selected()
                            == s.spec_selected() && t2.spec_rx_len() == s.spec_rx_len() + 1
                            && t2.spec_sessions()[n as int].spec_profile() == crate::session::spec_profile_name(path@)
                            && t2.spec_sessions()[n as int].spec_never_started()
                            && t2.spec_sessions()[n as int]@.template == Some((t.account@, t.password@, t.ip@, t.port))
                        &&& fx_views(fx@) == seq![
                            EffectView::Log(
                                LogKind::Info,
                                "[system] 已挂上账号 (共 "@ + decimal(n + 1) + " 个) — 它是「未启动」的, 按 F4 启动"@,
                            ),
                        ]
                    },
                },
            },
    {
        if self.sessions.is_none() {
            return crate::console::no_effects();
        }
        match file {
            ProfileFile::Missing => {
                let mut m = copy_str("[system] ");
                m.append(path);
                m.append(": 文件不存在");
                crate::console::one_effect(Effect::Log(LogKind::Failure, m))
            },
            ProfileFile::Unreadable(e) => {
                let set = self.sessions.as_ref().unwrap();
                let reason: String = match set.check_new_profile(path) {
                    Err(x) => x,
                    Ok(name) => {
                        let mut r = name;
                        r.append(": 配置读不出来 (");
                        r.append(e.as_str());
                        r.append(")");
                        r
                    },
                };
                let mut m = copy_str("[system] ");
                m.append(reason.as_str());
                let ghost mv = m@;
                let fx = crate::console::one_effect(Effect::Log(LogKind::Failure, m));
                proof {
                    assert(mv =~= "[system] "@ + match crate::sessions::add_error(set.spec_sessions(), path@) {
                        Some(x) => x,
                        None => crate::session::spec_profile_name(path@) + ": 配置读不出来 ("@ + e@ + ")"@,
                    });
                }
                fx
            },
            ProfileFile::Loaded(t) => self.add_loaded(path, t),
        }
    }

    fn add_loaded(&mut self, path: &str, t: SessionTemplate) -> (fx: Vec<Effect>)
        requires
            old(self).wf(),
            old(self).sessions is Some,
        ensures
            final(self).wf(),
            ({
                let s = old(self).sessions->0;
                match crate::sessions::add_error(s.spec_sessions(), path@) {
                    Some(x) => *final(self) == *old(self) && fx_views(fx@) == seq![
                        EffectView::Log(LogKind::Failure, "[system] "@ + x),
                    ],
                    None => {
                        let n = s.spec_sessions().len();
                        &&& *final(self) == (App {
                            sessions: final(self).sessions,
                            show_sidebar: n + 1 > 1,
                            dirty: true,
                            ..*old(self)
                        })
                        &&& final(self).sessions matches Some(t2) && t2.spec_sessions().len() == n + 1
                            && t2.spec_sessions().take(n as int) == s.spec_sessions() && t2.spec_selected()
                            == s.spec_selected() && t2.spec_rx_len() == s.spec_rx_len() + 1
                            && t2.spec_sessions()[n as int].spec_profile() == crate::session::spec_profile_name(path@)
                            && t2.spec_sessions()[n as int].spec_never_started()
                            && t2.spec_sessions()[n as int]@.template == Some((t.account@, t.password@, t.ip@, t.port))
                        &&& fx_views(fx@) == seq![
                            EffectView::Log(
                                LogKind::Info,
                                "[system] 已挂上账号 (共 "@ + decimal(n + 1) + " 个) — 它是「未启动」的, 按 F4 启动"@,
                            ),
                        ]
                    },
                }
            }),
    {
        let err = match self.sessions.as_ref().unwrap().check_new_profile(path) {
            Err(x) => Some(x),
            Ok(_) => None,
        };
        match err {
            Some(x) => {
                let mut m = copy_str("[system] ");
                m.append(x.as_str());
                crate::console::one_effect(Effect::Log(LogKind::Failure, m))
            },
            None => {
                let mut set = self.sessions.take().unwrap();
                let _ = set.add_profile(path, t);
                let n = set.len();
                self.put_back_shown(set);
                let mut m = copy_str("[system] 已挂上账号 (共 ");
                m.append(decimal_string(n as u64).as_str());
                m.append(" 个) — 它是「未启动」的, 按 F4 启动");
                crate::console::one_effect(Effect::Log(LogKind::Info, m))
            },
        }
    }

    /// Puts the sessions back after their number changed: the side bar
    /// shows with several.
    fn put_back_shown(&mut self, set: SessionSet)
        requires
            old(self).wf(),
        ensures
            final(self).wf(),
            *final(self) == (App {
                sessions: Some(set),
                show_sidebar: set.spec_sessions().len() > 1,
                dirty: true,
                ..*old(self)
            }),
    {
        self.show_sidebar = set.len() > 1;
        self.sessions = Some(set);
        self.dirty = true;
    }
}

/// The `profiles list` text of a non-empty set (see [`list_text`]).
fn list_of(set: &SessionSet) -> (s: String)
    requires
        set.spec_sessions().len() > 0,
    ensures
        s@ == "[system] 已挂 "@ + decimal(set.spec_sessions().len()) + " 个账号 (▶ = 当前选中):"@ + list_lines(
            set.spec_sessions(),
            set.spec_selected(),
            set.spec_sessions().len(),
        ),
{
    let sel = set.selected_index();
    let lines = set.status_lines();
    let mut s = copy_str("[system] 已挂 ");
    s.append(decimal_string(set.len() as u64).as_str());
    s.append(" 个账号 (▶ = 当前选中):");
    let ghost head = s@;
    let n = lines.len();
    for k in 0..n
        invariant
            n == lines@.len() == set.spec_sessions().len(),
            sel == set.spec_selected(),
            forall|j: int| 0 <= j < n ==> #[trigger] lines@[j]@ == crate::sessions::status_line(set.spec_sessions()[j]),
            s@ == head + list_lines(set.spec_sessions(), sel, k as nat),
    {
        s.append("\n");
        s.append(if k == sel {
            "▶"
        } else {
            " "
        });
        s.append(lines[k].as_str());
    }
    s
}


/// Session `idx` is the first named `name`.
pub open spec fn first_named(ss: Seq<crate::session::BotSession>, name: Seq<char>, idx: int) -> bool {
    &&& 0 <= idx < ss.len()
    &&& ss[idx].spec_profile() == name
    &&& forall|j: int| 0 <= j < idx ==> #[trigger] ss[j].spec_profile() != name
}

/// What [`SessionSet::remove_profile`] may do: take off the first session
/// of that name when it is settled (the selection kept in range), or
/// refuse.
#[verifier::opaque]
pub open spec fn removal(s: SessionSet, t: SessionSet, name: Seq<char>, r: Result<(usize, Seq<char>), Seq<char>>) -> bool {
    let ss = s.spec_sessions();
    let n = ss.len();
    match r {
        Ok((idx, p)) => {
            &&& first_named(ss, name, idx as int)
            &&& ss[idx as int].spec_settled()
            &&& p == name
            &&& t.spec_sessions() == ss.remove(idx as int)
            &&& t.spec_rx_len() == if idx < s.spec_rx_len() {
                (s.spec_rx_len() - 1) as nat
            } else {
                s.spec_rx_len()
            }
            &&& t.spec_selected() == if s.spec_selected() >= n - 1 {
                if n - 1 == 0 {
                    0
                } else {
                    (n - 2) as usize
                }
            } else {
                s.spec_selected()
            }
        },
        Err(e) => {
            &&& t.spec_sessions() == ss
            &&& t.spec_rx_len() == s.spec_rx_len()
            &&& t.spec_selected() == s.spec_selected()
            &&& ((forall|j: int| 0 <= j < n ==> #[trigger] ss[j].spec_profile() != name) && e == name
                + ": 没有这个档案"@) || (exists|idx: int|
                first_named(ss, name, idx) && !ss[idx].spec_settled() && e == name
                    + ": 还在运行 —— 先 stop 它再摘 (否则它会变成看不见的孤儿进程)"@)
        },
    }
}

/// The console's line for a removed session.
pub open spec fn removed_text(p: Seq<char>, idx: usize, total: nat, sel: usize) -> Seq<char> {
    "[system] 已摘掉 "@ + p + " (原第 "@ + decimal((idx + 1) as nat) + " 个, 剩 "@ + decimal(total) + " 个, 当前选第 "@
        + decimal((sel + 1) as nat) + " 个)"@
}

/// The session shown after session `idx` left the set: none when it was
/// the one shown, else the same session at its new place.
pub open spec fn synced_after_removal(synced: Option<usize>, idx: usize) -> Option<usize> {
    match synced {
        Some(k) => if k == idx {
            None
        } else if k > idx {
            Some((k - 1) as usize)
        } else {
            Some(k)
        },
        None => None,
    }
}

fn synced_after(synced: Option<usize>, idx: usize) -> (r: Option<usize>)
    ensures
        r == synced_after_removal(synced, idx),
{
    match synced {
        Some(k) => if k == idx {
            None
        } else if k > idx {
            Some(k - 1)
        } else {
            Some(k)
        },
        None => None,
    }
}

/// The console after the set answered a removal with `r`.
#[verifier::opaque]
pub open spec fn remove_outcome(a: App, b: App, name: Seq<char>, fx: Seq<EffectView>, r: Result<(usize, Seq<char>), Seq<char>>) -> bool {
    let s = a.sessions->0;
    &&& b.sessions matches Some(t) && removal(s, t, name, r)
    &&& match r {
        Ok((idx, p)) => {
            let t = b.sessions->0;
            &&& b == App {
                sessions: b.sessions,
                show_sidebar: t.spec_sessions().len() > 1,
                dirty: true,
                synced: synced_after_removal(a.synced, idx),
                ..a
            }
            &&& fx == seq![
                EffectView::Removed(idx, a.synced == Some(idx)),
                EffectView::Log(LogKind::Info, removed_text(p, idx, t.spec_sessions().len(), t.spec_selected())),
                EffectView::Sync,
            ]
        },
        Err(e) => b == App { sessions: b.sessions, ..a } && fx == seq![EffectView::Log(LogKind::Failure, "[system] "@ + e)],
    }
}

impl App {
    /// `profiles remove <name>`: refused without sessions or without a
    /// name; otherwise the set removes the session (see [`removal`]) and
    /// the result is reported.
    pub fn remove_profile(&mut self, name: &str) -> (fx: Vec<Effect>)
        requires
            old(self).wf(),
        ensures
            final(self).wf(),
            match remove_refusal(*old(self), name@) {
                Some(e) => *final(self) == *old(self) && fx_views(fx@) == seq![e],
                None => exists|r: Result<(usize, Seq<char>), Seq<char>>|
                    remove_outcome(*old(self), *final(self), name@, fx_views(fx@), r),
            },
    {
        if self.sessions.is_none() {
            return crate::console::one_effect(Effect::Log(LogKind::Info, copy_str("[system] 单会话模式没有可摘的账号")));
        }
        if name.unicode_len() == 0 {
            return crate::console::one_effect(
                Effect::Log(LogKind::Failure, copy_str("[system] 用法: profiles remove <档案名> (名单见 profiles list)")),
            );
        }
        self.remove_named(name)
    }

    fn remove_named(&mut self, name: &str) -> (fx: Vec<Effect>)
        requires
            old(self).wf(),
            old(self).sessions is Some,
        ensures
            final(self).wf(),
            exists|r: Result<(usize, Seq<char>), Seq<char>>|
                remove_outcome(*old(self), *final(self), name@, fx_views(fx@), r),
    {
        let ghost a = *self;
        let mut set = self.sessions.take().unwrap();
        let n0 = set.len();
        let r = set.remove_profile(name);
        match r {
            Ok((idx, p)) => {
                proof {
                    assert(removal(a.sessions->0, set, name@, Ok((idx, p@)))) by {
                        reveal(removal);
                    }
                }
                let fx = self.removed_ok(set, idx, p, name, n0, Ghost(a));
                proof {
                    assert(remove_outcome(a, *self, name@, fx_views(fx@), Ok((idx, p@))));
                }
                fx
            },
            Err(e) => {
                proof {
                    reveal(removal);
                    let ss = a.sessions->0.spec_sessions();
                    if !((forall|j: int| 0 <= j < ss.len() ==> #[trigger] ss[j].spec_profile() != name@) && e@ == name@
                        + ": 没有这个档案"@) {
                        let w = choose|idx: int|
                            0 <= idx < ss.len() && (#[trigger] ss[idx]).spec_profile() == name@ && (forall|j: int|
                                0 <= j < idx ==> #[trigger] ss[j].spec_profile() != name@) && !ss[idx].spec_settled()
                                && e@ == name@ + ": 还在运行 —— 先 stop 它再摘 (否则它会变成看不见的孤儿进程)"@;
                        assert(first_named(ss, name@, w));
                    }
                }
                let fx = self.removed_err(set, e, name, Ghost(a));
                proof {
                    assert(remove_outcome(a, *self, name@, fx_views(fx@), Err(e@)));
                }
                fx
            },
        }
    }

    fn removed_ok(&mut self, set: SessionSet, idx: usize, p: String, name: &str, n0: usize, a: Ghost<App>) -> (fx: Vec<Effect>)
        requires
            a@.wf(),
            a@.sessions matches Some(s0) && s0.spec_sessions().len() == n0 && removal(s0, set, name@, Ok((idx, p@))),
            *old(self) == (App { sessions: None, ..a@ }),
        ensures
            final(self).wf(),
            remove_outcome(a@, *final(self), name@, fx_views(fx@), Ok((idx, p@))),
    {
        proof {
            reveal(remove_outcome);
            reveal(removal);
        }
        let total = set.len();
        let sel = set.selected_index();
        let shown = self.synced == Some(idx);
        let ns = synced_after(self.synced, idx);
        self.synced = ns;
        self.put_back_shown(set);
        let mut m = copy_str("[system] 已摘掉 ");
        m.append(p.as_str());
        m.append(" (原第 ");
        m.append(decimal_string((idx + 1) as u64).as_str());
        m.append(" 个, 剩 ");
        m.append(decimal_string(total as u64).as_str());
        m.append(" 个, 当前选第 ");
        m.append(decimal_string((sel as u64) + 1).as_str());
        m.append(" 个)");
        let mut fx: Vec<Effect> = Vec::new();
        fx.push(Effect::Removed(idx, shown));
        let ghost mv = m@;
        fx.push(Effect::Log(LogKind::Info, m));
        fx.push(Effect::Sync);
        proof {
            assert(fx_views(fx@) =~= seq![
                EffectView::Removed(idx, shown),
                EffectView::Log(LogKind::Info, mv),
                EffectView::Sync,
            ]);
        }
        fx
    }

    fn removed_err(&mut self, set: SessionSet, e: String, name: &str, a: Ghost<App>) -> (fx: Vec<Effect>)
        requires
            a@.wf(),
            a@.sessions matches Some(s0) && removal(s0, set, name@, Err(e@)),
            *old(self) == (App { sessions: None, ..a@ }),
        ensures
            final(self).wf(),
            remove_outcome(a@, *final(self), name@, fx_views(fx@), Err(e@)),
    {
        proof {
            reveal(remove_outcome);
        }
        self.sessions = Some(set);
        let mut m = copy_str("[system] ");
        m.append(e.as_str());
        crate::console::one_effect(Effect::Log(LogKind::Failure, m))
    }
}


// ------------------------------------------------------------------ selected session

/// The login form built with these values (see [`Wizard::new`]).
pub open spec fn wizard_made(
    w: crate::wizard::Wizard,
    ip: Seq<char>,
    port: u16,
    account: Seq<char>,
    password: Seq<char>,
) -> bool {
    &&& w@.ip == ip
    &&& w@.port == decimal(port as nat)
    &&& w@.account == account
    &&& w@.password == password
    &&& w@.aes_key.len() == 0
    &&& w@.result is None
    &&& w@.error is None
    &&& w@.focus == if account.len() == 0 && password.len() == 0 {
        crate::wizard::Field::Account
    } else if password.len() == 0 {
        crate::wizard::Field::Password
    } else {
        crate::wizard::Field::Ip
    }
}

/// The login form opened for the selected session: filled from its
/// configuration (or, without one, from the start-up values without a
/// password), the console at the form stage.
pub open spec fn wizard_for(a: App, b: App, m: SessionModel) -> bool {
    &&& b == App {
        wizard: b.wizard,
        wizard_target: b.wizard_target,
        stage: crate::session::STAGE_WIZARD,
        dirty: true,
        ..a
    }
    &&& b.wizard_target matches Some(p) && p@ == m.profile
    &&& b.wizard matches Some(w) && match m.template {
        Some(t) => wizard_made(w, t.2, t.3, t.0, t.1),
        None => wizard_made(w, a.login_initial.0@, a.login_initial.1, a.login_initial.2@, Seq::empty()),
    }
}

/// F4 / bare `start`: a running (or restart-waiting) session is stopped;
/// one without a usable password gets the login form; otherwise it is
/// started.
#[verifier::opaque]
pub open spec fn toggle_next(a: App, b: App, creds: Option<&Credentials>, fx: Seq<EffectView>) -> bool {
    if !has_selected(a) {
        b == a && fx == Seq::<EffectView>::empty()
    } else {
        let m = selected_model(a);
        if m.running() || m.waiting() {
            onsel_next(a, b, BuiltinModel::Stop, creds, fx)
        } else if !(m.tpl_password().len() > 0 || (a.has_runtime && stored_pw(creds, m.profile) is Some)) {
            wizard_for(a, b, m) && fx == Seq::<EffectView>::empty()
        } else {
            onsel_next(a, b, BuiltinModel::Start, creds, fx)
        }
    }
}

/// One key starts and stops: when F4 started the selected session (its
/// first effect is the task to launch), the next F4 stops that session.
pub proof fn law_f4_twice_stops_what_it_started(
    a: App,
    b: App,
    c: App,
    creds: Option<&Credentials>,
    fx1: Seq<EffectView>,
    fx2: Seq<EffectView>,
)
    requires
        toggle_next(a, b, creds, fx1),
        fx1.len() > 0 && fx1[0] is Launch,
        toggle_next(b, c, creds, fx2),
    ensures
        onsel_next(b, c, BuiltinModel::Stop, creds, fx2),
{
    reveal(toggle_next);
    reveal(onsel_next);
    let m = selected_model(a);
    let (m2, r) = builtin_step(m, BuiltinModel::Start, creds);
    if r matches Ok(Some(p)) {
        assert(m2.running());
        let t = b.sessions->0;
        let i = a.sessions->0.spec_selected();
        assert(t.spec_sessions()[i as int]@.with_sender(a.sessions->0.spec_sessions()[i as int]@.sender) == m2);
        assert(selected_model(b).running());
    }
}

impl App {
    /// F4 / bare `start` (see [`toggle_next`]).
    pub fn toggle_selected_session(&mut self, creds: Option<&Credentials>) -> (fx: Vec<Effect>)
        requires
            old(self).wf(),
        ensures
            final(self).wf(),
            toggle_next(*old(self), *final(self), creds, fx_views(fx@)),
    {
        proof {
            reveal(toggle_next);
        }
        let n = match &self.sessions {
            Some(set) => set.len(),
            None => 0,
        };
        if n == 0 {
            return crate::console::no_effects();
        }
        let set = self.sessions.as_ref().unwrap();
        let s = set.selected().unwrap();
        if s.is_running() || s.is_waiting_restart() {
            return self.start_or_stop(Builtin::Stop, creds);
        }
        let tpl_pw = match s.template() {
            Some(t) => t.password.as_str().unicode_len() > 0,
            None => false,
        };
        let stored = self.has_runtime && match creds {
            Some(c) => c.password_for(s.name()).is_some(),
            None => false,
        };
        if !(tpl_pw || stored) {
            self.open_wizard_for_selected();
            return crate::console::no_effects();
        }
        self.start_or_stop(Builtin::Start, creds)
    }

    /// Opens the login form for the selected session (see [`wizard_for`]);
    /// without sessions, or with none selected, nothing happens (`false`).
    pub fn open_wizard_for_selected(&mut self) -> (opened: bool)
        requires
            old(self).wf(),
        ensures
            final(self).wf(),
            opened == has_selected(*old(self)),
            opened ==> wizard_for(*old(self), *final(self), selected_model(*old(self))),
            !opened ==> *final(self) == *old(self),
    {
        match &self.sessions {
            None => {
                return false;
            },
            Some(set) => {
                if set.len() == 0 {
                    return false;
                }
            },
        }
        let set = self.sessions.as_ref().unwrap();
        let s = set.selected().unwrap();
        let profile = copy_str(s.name());
        let w = match s.template() {
            Some(c) => crate::wizard::Wizard::new(c.ip, c.port, c.account, c.password, String::new()),
            None => crate::wizard::Wizard::new(
                copy_str(self.login_initial.0.as_str()),
                self.login_initial.1,
                copy_str(self.login_initial.2.as_str()),
                String::new(),
                String::new(),
            ),
        };
        self.show_wizard(w, profile);
        true
    }

    fn show_wizard(&mut self, w: crate::wizard::Wizard, target: String)
        ensures
            *final(self) == (App {
                wizard: Some(w),
                wizard_target: Some(target),
                stage: crate::session::STAGE_WIZARD,
                dirty: true,
                ..*old(self)
            }),
    {
        self.wizard = Some(w);
        self.wizard_target = Some(target);
        self.stage = crate::session::STAGE_WIZARD;
        self.dirty = true;
    }
}

/// F3: with the runtime, the selected session's back-off is reset (when it
/// still runs, that is all); a finished one is respawned now.
#[verifier::opaque]
pub open spec fn manual_next(a: App, b: App, creds: Option<&Credentials>, fx: Seq<EffectView>) -> bool {
    if !a.has_runtime || !has_selected(a) {
        b == a && fx == Seq::<EffectView>::empty()
    } else {
        let s = a.sessions->0;
        let i = s.spec_selected();
        let m = selected_model(a);
        &&& b == App { sessions: b.sessions, dirty: true, ..a }
        &&& if m.running() {
            &&& b.sessions matches Some(t) && changed_at(s, t, i as int, m.with_watcher(m.watcher.after_reset()))
            &&& fx == seq![EffectView::Note(i, LogKind::Info, "已清除重连计数 (会话仍在运行)"@)]
        } else {
            let (m2, r) = crate::session::manual_restart_step(m, stored_pw(creds, m.profile));
            &&& b.sessions matches Some(t) && changed_at(s, t, i as int, m2)
            &&& fx == match r {
                Ok(Some(p)) => seq![EffectView::Launch(i, p), EffectView::Note(i, LogKind::Info, "手动重新拉起"@)],
                Ok(None) => seq![EffectView::Note(i, LogKind::Info, "手动重新拉起"@)],
                Err(e) => seq![
                    EffectView::CountError(e),
                    EffectView::Note(i, LogKind::Failure, "手动拉起失败: "@ + e),
                ],
            }
        }
    }
}

impl App {
    /// F3 on the selected session (see [`manual_next`]).
    pub fn manual_restart_selected(&mut self, now: u64, creds: Option<&Credentials>) -> (fx: Vec<Effect>)
        requires
            old(self).wf(),
        ensures
            final(self).wf(),
            manual_next(*old(self), *final(self), creds, fx_views(fx@)),
    {
        proof {
            reveal(manual_next);
        }
        if !self.has_runtime {
            return crate::console::no_effects();
        }
        let n = match &self.sessions {
            Some(set) => set.len(),
            None => 0,
        };
        if n == 0 {
            return crate::console::no_effects();
        }
        let mut set = self.sessions.take().unwrap();
        let fx = restart_selected(&mut set, now, creds);
        self.put_back(set);
        fx
    }
}

/// F3 on the selected session of `set` (see [`manual_next`]).
fn restart_selected(set: &mut SessionSet, now: u64, creds: Option<&Credentials>) -> (fx: Vec<Effect>)
    requires
        old(set).spec_sessions().len() > 0,
    ensures
        ({
            let s = *old(set);
            let i = s.spec_selected();
            let m = s.spec_sessions()[i as int]@;
            if m.running() {
                &&& changed_at(s, *final(set), i as int, m.with_watcher(m.watcher.after_reset()))
                &&& fx_views(fx@) == seq![EffectView::Note(i, LogKind::Info, "已清除重连计数 (会话仍在运行)"@)]
            } else {
                let (m2, r) = crate::session::manual_restart_step(m, stored_pw(creds, m.profile));
                &&& changed_at(s, *final(set), i as int, m2)
                &&& fx_views(fx@) == match r {
                    Ok(Some(p)) => seq![EffectView::Launch(i, p), EffectView::Note(i, LogKind::Info, "手动重新拉起"@)],
                    Ok(None) => seq![EffectView::Note(i, LogKind::Info, "手动重新拉起"@)],
                    Err(e) => seq![
                        EffectView::CountError(e),
                        EffectView::Note(i, LogKind::Failure, "手动拉起失败: "@ + e),
                    ],
                }
            }
        }),
{
    let i = set.selected_index();
    let running = set.get(i).unwrap().is_running();
    if running {
        set.session_mut(i).reset_watcher();
        return crate::console::one_effect(Effect::Note(i, LogKind::Info, copy_str("已清除重连计数 (会话仍在运行)")));
    }
    let mut fx: Vec<Effect> = Vec::new();
    match set.manual_restart(i, now, creds) {
        Ok(Some(l)) => {
            let ghost p = l.password@;
            fx.push(Effect::Launch(l));
            fx.push(Effect::Note(i, LogKind::Info, copy_str("手动重新拉起")));
            proof {
                assert(fx_views(fx@) =~= seq![EffectView::Launch(i, p), EffectView::Note(i, LogKind::Info, "手动重新拉起"@)]);
            }
        },
        Ok(None) => {
            fx.push(Effect::Note(i, LogKind::Info, copy_str("手动重新拉起")));
            proof {
                assert(fx_views(fx@) =~= seq![EffectView::Note(i, LogKind::Info, "手动重新拉起"@)]);
            }
        },
        Err(e) => {
            let mut m = copy_str("手动拉起失败: ");
            m.append(e.as_str());
            let ghost ev = e@;
            fx.push(Effect::CountError(e));
            fx.push(Effect::Note(i, LogKind::Failure, m));
            proof {
                assert(fx_views(fx@) =~= seq![
                    EffectView::CountError(ev),
                    EffectView::Note(i, LogKind::Failure, "手动拉起失败: "@ + ev),
                ]);
            }
        },
    }
    fx
}


/// A console command on the selected session or on the set.
#[verifier::opaque]
pub open spec fn builtin_next(a: App, b: App, which: BuiltinModel, creds: Option<&Credentials>, fx: Seq<EffectView>) -> bool {
    match which {
        BuiltinModel::AddProfile(p) => b == a && fx == add_cmd_fx(a, p),
        BuiltinModel::RemoveProfile(n) => match remove_refusal(a, n) {
            Some(e) => b == a && fx == seq![e],
            None => exists|r: Result<(usize, Seq<char>), Seq<char>>| remove_outcome(a, b, n, fx, r),
        },
        BuiltinModel::ListProfiles => b == App { dirty: true, ..a } && fx == seq![
            EffectView::Log(LogKind::Info, list_text(a)),
        ],
        _ => onsel_next(a, b, which, creds, fx),
    }
}

impl App {
    /// A console command entered for the selected session (`start`,
    /// `stop`) or for the set (`profiles add|remove|list`); see
    /// [`builtin_next`].
    pub fn run_builtin_on_selected(&mut self, which: Builtin, creds: Option<&Credentials>) -> (fx: Vec<Effect>)
        requires
            old(self).wf(),
        ensures
            final(self).wf(),
            builtin_next(*old(self), *final(self), which@, creds, fx_views(fx@)),
    {
        proof {
            reveal(builtin_next);
        }
        match which {
            Builtin::AddProfile(p) => self.add_profile(p.as_str()),
            Builtin::RemoveProfile(n) => self.remove_profile(n.as_str()),
            Builtin::ListProfiles => self.list_profiles(),
            Builtin::Start => self.start_or_stop(Builtin::Start, creds),
            Builtin::Stop => self.start_or_stop(Builtin::Stop, creds),
        }
    }
}

/// The form's login was taken by session `i` (the first one of that
/// name), leaving the console in state `mid`, and then the session was
/// started as by `start`, which produced `rest`.
pub open spec fn apply_found(
    a: App,
    b: App,
    s: SessionSet,
    r: (Seq<char>, u16, Seq<char>, Seq<char>, Seq<char>),
    c1: Credentials,
    fx: Seq<EffectView>,
    i: int,
    mid: App,
    rest: Seq<EffectView>,
) -> bool {
    let p = a.wizard_target->0;
    &&& first_named(s.spec_sessions(), p@, i)
    &&& mid == App {
        sessions: mid.sessions,
        stage: crate::session::STAGE_RUNNING,
        wizard: None,
        wizard_target: None,
        dirty: true,
        ..a
    }
    &&& mid.sessions matches Some(t) && {
        let m = s.spec_sessions()[i]@;
        changed_at(s, t, i, if m.template is Some {
            crate::session::SessionModel { template: Some((r.2, r.3, r.0, r.1)), ..m }
        } else {
            m
        }) && t.spec_sessions()[i]@.sender == m.sender
    }
    &&& onsel_next(mid, b, BuiltinModel::Start, if a.has_runtime { Some(&c1) } else { None }, rest)
    &&& fx == seq![
        EffectView::Note(
            i as usize,
            LogKind::Info,
            "已从向导收下登录信息 (密码 "@ + decimal(r.3.len()) + " 位) —— 正在启动"@,
        ),
        EffectView::LoginApplied,
    ] + rest
}

/// The form's result handed over: the login is recorded in the credential
/// store (with the runtime); without sessions the result goes to the main
/// thread; a session no longer listed is reported; otherwise that
/// session's configuration takes the form's server, port, account and
/// password (when it has one), the console returns to running, and the
/// selected session is started as by `start`.
#[verifier::opaque]
pub open spec fn apply_next(
    a: App,
    b: App,
    r: (Seq<char>, u16, Seq<char>, Seq<char>, Seq<char>),
    c0: Credentials,
    c1: Credentials,
    fx: Seq<EffectView>,
) -> bool {
    match a.wizard_target {
        None => b == a && c1 == c0 && fx == seq![EffectView::Submitted(r)],
        Some(p) => {
            &&& c1.spec_map() == if a.has_runtime {
                crate::credentials::spec_record(c0.spec_map(), p@, r.2, r.3)
            } else {
                c0.spec_map()
            }
            &&& match a.sessions {
                None => b == a && fx == seq![EffectView::Submitted(r)],
                Some(s) => if forall|j: int| 0 <= j < s.spec_sessions().len() ==> #[trigger] s.spec_sessions()[j].spec_profile() != p@ {
                    b == a && fx == seq![EffectView::Log(LogKind::Failure, "[system] "@ + p@ + ": 会话已经不在列表里了"@)]
                } else {
                    exists|i: int, mid: App, rest: Seq<EffectView>| #[trigger] apply_found(a, b, s, r, c1, fx, i, mid, rest)
                },
            }
        },
    }
}

impl App {
    /// The login form opened for a session was submitted (see
    /// [`apply_next`]); `creds` is the credential store.
    pub fn apply_wizard_to_session(&mut self, r: crate::wizard::WizardResult, creds: &mut Credentials) -> (fx: Vec<Effect>)
        requires
            old(self).wf(),
        ensures
            final(self).wf(),
            apply_next(*old(self), *final(self), crate::console::result_view(r), *old(creds), *final(creds), fx_views(fx@)),
    {
        proof {
            reveal(apply_next);
        }
        let ghost rv = crate::console::result_view(r);
        let profile = match &self.wizard_target {
            None => {
                return crate::console::one_effect(Effect::Submitted(r));
            },
            Some(p) => copy_str(p.as_str()),
        };
        if self.has_runtime {
            creds.record(profile.as_str(), r.account.as_str(), r.password.as_str());
        }
        if self.sessions.is_none() {
            return crate::console::one_effect(Effect::Submitted(r));
        }
        let found = self.sessions.as_ref().unwrap().index_of(profile.as_str());
        let i = match found {
            None => {
                let mut m = copy_str("[system] ");
                m.append(profile.as_str());
                m.append(": 会话已经不在列表里了");
                return crate::console::one_effect(Effect::Log(LogKind::Failure, m));
            },
            Some(i) => i,
        };
        let ghost a = *old(self);
        let npw = r.password.as_str().unicode_len();
        self.take_login(i, &r);
        let ghost mid = *self;
        let mut note = copy_str("已从向导收下登录信息 (密码 ");
        note.append(decimal_string(npw as u64).as_str());
        note.append(" 位) —— 正在启动");
        let mut fx: Vec<Effect> = Vec::new();
        fx.push(Effect::Note(i, LogKind::Info, note));
        fx.push(Effect::LoginApplied);
        let ghost head = fx_views(fx@);
        let rest = if self.has_runtime {
            self.start_or_stop(Builtin::Start, Some(&*creds))
        } else {
            self.start_or_stop(Builtin::Start, None)
        };
        let ghost rv2 = fx_views(rest@);
        let mut rest = rest;
        fx.append(&mut rest);
        proof {
            assert(fx_views(fx@) =~= head + rv2);
            assert(head =~= seq![
                EffectView::Note(
                    i,
                    LogKind::Info,
                    "已从向导收下登录信息 (密码 "@ + decimal(rv.3.len()) + " 位) —— 正在启动"@,
                ),
                EffectView::LoginApplied,
            ]);
            assert(first_named(a.sessions->0.spec_sessions(), profile@, i as int));
            assert(apply_found(a, *self, a.sessions->0, rv, *creds, fx_views(fx@), i as int, mid, rv2));
        }
        fx
    }

    /// Session `i` takes the form's login into its configuration (when it
    /// has one); the form closes and the console runs.
    fn take_login(&mut self, i: usize, r: &crate::wizard::WizardResult)
        requires
            old(self).wf(),
            old(self).sessions matches Some(s) && i < s.spec_sessions().len(),
        ensures
            final(self).wf(),
            *final(self) == (App {
                sessions: final(self).sessions,
                stage: crate::session::STAGE_RUNNING,
                wizard: None,
                wizard_target: None,
                dirty: true,
                ..*old(self)
            }),
            final(self).sessions matches Some(t) && {
                let s = old(self).sessions->0;
                let m = s.spec_sessions()[i as int]@;
                changed_at(s, t, i as int, if m.template is Some {
                    crate::session::SessionModel { template: Some((r.account@, r.password@, r.ip@, r.port)), ..m }
                } else {
                    m
                }) && t.spec_sessions()[i as int]@.sender == m.sender
            },
    {
        let mut set = self.sessions.take().unwrap();
        let has = set.get(i).unwrap().template().is_some();
        if has {
            set.session_mut(i).set_template(
                SessionTemplate {
                    ip: copy_str(r.ip.as_str()),
                    port: r.port,
                    account: copy_str(r.account.as_str()),
                    password: copy_str(r.password.as_str()),
                },
            );
        }
        self.sessions = Some(set);
        self.stage = crate::session::STAGE_RUNNING;
        self.wizard = None;
        self.wizard_target = None;
        self.dirty = true;
    }
}


// ------------------------------------------------------------------ batches

/// The tasks to start, one effect each.
pub open spec fn launch_fx(ls: Seq<(usize, Seq<char>)>) -> Seq<EffectView> {
    ls.map_values(|x: (usize, Seq<char>)| EffectView::Launch(x.0, x.1))
}

/// The notes of the sessions a batch `stop` stopped, then, for each whose
/// task did not take `quit`, the abort and its note.
pub open spec fn batch_stop_fx(stopped: Seq<usize>, stuck: Seq<usize>) -> Seq<EffectView> {
    stopped.map_values(|i: usize| EffectView::Note(i, LogKind::Info, stop_note())) + stuck_fx(stuck)
}

pub open spec fn stuck_fx(stuck: Seq<usize>) -> Seq<EffectView>
    decreases stuck.len(),
{
    if stuck.len() == 0 {
        Seq::empty()
    } else {
        stuck_fx(stuck.drop_last()) + seq![
            EffectView::Abort(stuck.last()),
            EffectView::Note(stuck.last(), LogKind::Failure, stuck_note()),
        ]
    }
}

/// The console line of a batch command: target, command, how many were
/// reached and how many it worked on, then one line per failure.
pub open spec fn batch_text(
    t: crate::sessions::TargetModel,
    which: BuiltinModel,
    hit: nat,
    ok: nat,
    errs: Seq<(Seq<char>, Seq<char>)>,
) -> Seq<char> {
    "[system] "@ + crate::sessions::target_text(t) + " "@ + crate::sessions::builtin_text(which) + " → 命中 "@
        + decimal(hit) + ", 成功 "@ + decimal(ok) + crate::console::err_lines(errs)
}

/// `@target start|stop` (`which` is one of the two): each session the
/// target reaches steps as
/// [`crate::sessions::batch`] says; the tasks it launched start, the
/// sessions it stopped get their notes (and their tasks are aborted when
/// they did not take `quit`), and the console reports the count. Without
/// sessions only the count (nothing reached) is reported.
pub open spec fn batch_next(
    a: App,
    b: App,
    t: crate::sessions::TargetModel,
    which: BuiltinModel,
    creds: Option<&Credentials>,
    fx: Seq<EffectView>,
) -> bool {
    match a.sessions {
        None => b == a && fx == seq![EffectView::Log(LogKind::Info, batch_text(t, which, 0, 0, Seq::empty()))],
        Some(s) => {
            let idxs = crate::sessions::spec_resolve(s.spec_sessions(), s.spec_selected(), t);
            let out = crate::sessions::batch(crate::sessions::models_of(s.spec_sessions()), idxs, which, creds);
            &&& b == App { sessions: b.sessions, ..a }
            &&& b.sessions matches Some(u) && {
                &&& u.spec_selected() == s.spec_selected()
                &&& u.spec_rx_len() == s.spec_rx_len()
                &&& u.spec_sessions().len() == s.spec_sessions().len()
                &&& forall|j: int|
                    0 <= j < s.spec_sessions().len() ==> (#[trigger] u.spec_sessions()[j])@.with_sender(
                        s.spec_sessions()[j]@.sender,
                    ) == out.0[j]
                &&& exists|stuck: Seq<usize>| #![trigger batch_stop_fx(crate::sessions::batch_stopped(crate::sessions::models_of(s.spec_sessions()), idxs, which, creds), stuck)] {
                    let stopped = crate::sessions::batch_stopped(
                        crate::sessions::models_of(s.spec_sessions()),
                        idxs,
                        which,
                        creds,
                    );
                    &&& forall|k: int| 0 <= k < stuck.len() ==> stopped.contains(#[trigger] stuck[k])
                    &&& forall|k: int|
                        0 <= k < stuck.len() ==> #[trigger] stuck[k] < s.spec_sessions().len()
                            && u.spec_sessions()[stuck[k] as int]@.task_present
                    &&& fx == launch_fx(out.3) + batch_stop_fx(stopped, stuck) + seq![
                        EffectView::Log(LogKind::Info, batch_text(t, which, idxs.len(), out.1, out.2)),
                    ]
                }
            }
        },
    }
}

/// One effect per task to start, in order.
fn launch_effects(launches: Vec<crate::sessions::Launch>) -> (fx: Vec<Effect>)
    ensures
        fx_views(fx@) == launch_fx(crate::sessions::launch_views(launches@)),
{
    let ghost all = crate::sessions::launch_views(launches@);
    let mut rest = launches;
    let mut fx: Vec<Effect> = Vec::new();
    let n = rest.len();
    for k in 0..n
        invariant
            n == all.len(),
            crate::sessions::launch_views(rest@) == all.skip(k as int),
            fx_views(fx@) == launch_fx(all.take(k as int)),
    {
        proof {
            assert(crate::sessions::launch_views(rest@).len() == n - k);
        }
        let ghost old_rest = rest@;
        let l = rest.remove(0);
        let ghost lv = (l.index, l.password@);
        proof {
            assert(crate::sessions::launch_views(old_rest)[0] == lv);
            assert(all.skip(k as int)[0] == lv);
            assert(rest@ =~= old_rest.subrange(1, old_rest.len() as int));
            assert forall|j: int| 0 <= j < rest@.len() implies #[trigger] crate::sessions::launch_views(rest@)[j]
                == all.skip(k + 1)[j] by {
                assert(crate::sessions::launch_views(old_rest)[j + 1] == all.skip(k as int)[j + 1]);
            }
            assert(crate::sessions::launch_views(rest@) =~= all.skip(k + 1));
        }
        let ghost before = fx_views(fx@);
        fx.push(Effect::Launch(l));
        proof {
            assert(all.take(k + 1) =~= all.take(k as int).push(lv));
            assert(fx_views(fx@) =~= before.push(EffectView::Launch(lv.0, lv.1)));
            assert(launch_fx(all.take(k + 1)) =~= launch_fx(all.take(k as int)).push(EffectView::Launch(lv.0, lv.1)));
        }
    }
    proof {
        assert(all.take(n as int) =~= all);
    }
    fx
}

/// The effects of a batch `stop`: see [`batch_stop_fx`].
fn batch_stop_effects(stopped: &Vec<usize>, stuck: &Vec<usize>) -> (fx: Vec<Effect>)
    ensures
        fx_views(fx@) == batch_stop_fx(stopped@, stuck@),
{
    let mut fx: Vec<Effect> = Vec::new();
    let n = stopped.len();
    for k in 0..n
        invariant
            n == stopped@.len(),
            fx_views(fx@) == stopped@.take(k as int).map_values(
                |i: usize| EffectView::Note(i, LogKind::Info, stop_note()),
            ),
    {
        let ghost before = fx_views(fx@);
        fx.push(Effect::Note(stopped[k], LogKind::Info, copy_str("已停止 (手动) —— 自动拉起已关闭; 按 F4 可重新启动")));
        proof {
            assert(stopped@.take(k + 1) =~= stopped@.take(k as int).push(stopped@[k as int]));
            assert(fx_views(fx@) =~= before.push(EffectView::Note(stopped@[k as int], LogKind::Info, stop_note())));
            assert(stopped@.take(k + 1).map_values(|i: usize| EffectView::Note(i, LogKind::Info, stop_note()))
                =~= before.push(EffectView::Note(stopped@[k as int], LogKind::Info, stop_note())));
        }
    }
    proof {
        assert(stopped@.take(n as int) =~= stopped@);
    }
    let ghost head = fx_views(fx@);
    let m = stuck.len();
    for k in 0..m
        invariant
            m == stuck@.len(),
            fx_views(fx@) == head + stuck_fx(stuck@.take(k as int)),
    {
        let ghost before = fx_views(fx@);
        fx.push(Effect::Abort(stuck[k]));
        fx.push(Effect::Note(stuck[k], LogKind::Failure, copy_str("quit 指令送不进去 (bot 可能卡住) —— 已强制取消该会话的任务")));
        proof {
            assert(stuck@.take(k + 1).drop_last() =~= stuck@.take(k as int));
            assert(fx_views(fx@) =~= before + seq![
                EffectView::Abort(stuck@[k as int]),
                EffectView::Note(stuck@[k as int], LogKind::Failure, stuck_note()),
            ]);
        }
    }
    proof {
        assert(stuck@.take(m as int) =~= stuck@);
    }
    fx
}

/// The console line of a batch command (see [`batch_text`]).
fn batch_text_of(t: &Target, Ghost(which): Ghost<BuiltinModel>, what: &str, hit: usize, ok: usize, errs: &Vec<(String, String)>) -> (s: String)
    requires
        what@ == crate::sessions::builtin_text(which),
    ensures
        s@ == batch_text(t@, which, hit as nat, ok as nat, crate::sessions::pair_views(errs@)),
{
    let mut s = copy_str("[system] ");
    s.append(t.describe().as_str());
    s.append(" ");
    s.append(what);
    s.append(" → 命中 ");
    s.append(decimal_string(hit as u64).as_str());
    s.append(", 成功 ");
    s.append(decimal_string(ok as u64).as_str());
    s.append(crate::console::err_lines_of(errs).as_str());
    s
}

impl App {
    /// `@target start|stop` (see [`batch_next`]).
    pub fn run_batch(&mut self, target: Target, which: Builtin, creds: Option<&Credentials>) -> (fx: Vec<Effect>)
        requires
            which is Start || which is Stop,
            old(self).wf(),
        ensures
            final(self).wf(),
            batch_next(*old(self), *final(self), target@, which@, creds, fx_views(fx@)),
    {
        if self.sessions.is_none() {
            let e: Vec<(String, String)> = Vec::new();
            proof {
                assert(crate::sessions::pair_views(e@) =~= Seq::empty());
            }
            let what = which.describe();
            return crate::console::one_effect(Effect::Log(LogKind::Info, batch_text_of(&target, Ghost(which@), what, 0, 0, &e)));
        }
        let ghost which_v = which@;
        let mut set = self.sessions.take().unwrap();
        let what = which.describe();
        let r = set.dispatch_builtin(&target, which, creds);
        let line = batch_text_of(&target, Ghost(which_v), what, r.hit, r.ok, &r.errs);
        let ghost stopped = r.stopped@;
        let ghost stuck = r.stuck@;
        let crate::sessions::BatchReport { hit, ok, errs, launches, stuck: stuck_v, stopped: stopped_v } = r;
        let mut fx = launch_effects(launches);
        let mut tail = batch_stop_effects(&stopped_v, &stuck_v);
        let ghost f1 = fx_views(fx@);
        let ghost f2 = fx_views(tail@);
        fx.append(&mut tail);
        let ghost lv = line@;
        fx.push(Effect::Log(LogKind::Info, line));
        self.sessions = Some(set);
        proof {
            assert(fx_views(fx@) =~= f1 + f2 + seq![EffectView::Log(LogKind::Info, lv)]);
            assert(batch_stop_fx(stopped, stuck) == f2);
        }
        fx
    }
}


/// What running a request of the key handling comes to (see
/// [`crate::console::Request`]); the credential store changes only when
/// the login form's result is applied.
pub open spec fn request_next(
    a: App,
    b: App,
    req: crate::console::RequestView,
    now: u64,
    c0: Credentials,
    c1: Credentials,
    fx: Seq<EffectView>,
) -> bool {
    match req {
        crate::console::RequestView::ApplyWizard(r) => apply_next(a, b, r, c0, c1, fx),
        crate::console::RequestView::ManualRestart => c1 == c0 && manual_next(a, b, Some(&c0), fx),
        crate::console::RequestView::Toggle => c1 == c0 && toggle_next(a, b, Some(&c0), fx),
        crate::console::RequestView::OnSelected(w) => c1 == c0 && builtin_next(a, b, w, Some(&c0), fx),
        crate::console::RequestView::Batch(t, w) => c1 == c0 && if w is Start || w is Stop {
            batch_next(a, b, t, w, Some(&c0), fx)
        } else {
            b == a && fx == Seq::<EffectView>::empty()
        },
    }
}

impl App {
    /// Runs a request that the key handling handed out, with the
    /// credential store (see [`request_next`]); `now` is the clock in
    /// milliseconds.
    pub fn run_request(&mut self, req: crate::console::Request, now: u64, creds: &mut Credentials) -> (fx: Vec<Effect>)
        requires
            old(self).wf(),
        ensures
            final(self).wf(),
            request_next(*old(self), *final(self), req@, now, *old(creds), *final(creds), fx_views(fx@)),
    {
        match req {
            crate::console::Request::ApplyWizard(r) => self.apply_wizard_to_session(r, creds),
            crate::console::Request::ManualRestart => self.manual_restart_selected(now, Some(&*creds)),
            crate::console::Request::Toggle => self.toggle_selected_session(Some(&*creds)),
            crate::console::Request::OnSelected(w) => self.run_builtin_on_selected(w, Some(&*creds)),
            crate::console::Request::Batch(t, w) => {
                let per_session = match w {
                    Builtin::Start | Builtin::Stop => true,
                    _ => false,
                };
                if per_session {
                    self.run_batch(t, w, Some(&*creds))
                } else {
                    crate::console::no_effects()
                }
            },
        }
    }
}

// ------------------------------------------------------------------ restarts

/// The sessions as they are once every ending has been registered.
pub open spec fn exited(ms: Seq<SessionModel>, now: u64) -> Seq<SessionModel> {
    ms.map_values(|m: SessionModel| crate::session::exit_step(m, now).0)
}

/// The generation of session `i` (0 for an index that names none).
pub open spec fn generation_at(ss: Seq<crate::session::BotSession>, i: usize) -> u32 {
    if i < ss.len() {
        ss[i as int]@.generation
    } else {
        0
    }
}

pub open spec fn respawn_note(g: u32) -> Seq<char> {
    "已自动重新拉起 (第 "@ + decimal(g as nat) + " 次)"@
}

/// For each relaunched session: its task, the count, and its note.
pub open spec fn spawn_fx(ls: Seq<(usize, Seq<char>)>, ss: Seq<crate::session::BotSession>) -> Seq<EffectView>
    decreases ls.len(),
{
    if ls.len() == 0 {
        Seq::empty()
    } else {
        let l = ls.last();
        spawn_fx(ls.drop_last(), ss) + seq![
            EffectView::Launch(l.0, l.1),
            EffectView::CountSpawn,
            EffectView::Note(l.0, LogKind::Info, respawn_note(generation_at(ss, l.0))),
        ]
    }
}

/// The sessions left with nothing that moves by itself, none of them never
/// started.
pub open spec fn all_done(ss: Seq<crate::session::BotSession>) -> bool {
    &&& ss.len() > 0
    &&& crate::sessions::count_live(ss) == 0
    &&& !exists|j: int| 0 <= j < ss.len() && (#[trigger] ss[j]).spec_never_started()
}

/// Whether a round of restarts relaunches a session or fails to.
pub open spec fn round_moved(s: SessionSet, now: u64, creds: Option<&Credentials>) -> bool {
    let ms1 = exited(crate::sessions::models_of(s.spec_sessions()), now);
    crate::sessions::due_launches(ms1, now, creds).len() > 0 || crate::sessions::due_failures(ms1, now, creds).len() > 0
}

/// A round of restarts on the set `s`, leaving `t`: every session that
/// just ended is registered (a scheduled restart is noted in its log), the
/// due restarts run (each relaunch starts a task, is counted and noted;
/// each that could not be made is counted as an error), a change from
/// `last_live` in the number of live sessions is reported, and when no
/// session will move by itself any more (and none was never started) the
/// program may end.
#[verifier::opaque]
pub open spec fn round_next(
    s: SessionSet,
    t: SessionSet,
    last_live: usize,
    now: u64,
    creds: Option<&Credentials>,
    fx: Seq<EffectView>,
) -> bool {
    let ms = crate::sessions::models_of(s.spec_sessions());
    let ms1 = exited(ms, now);
    let ls = crate::sessions::due_launches(ms1, now, creds);
    let errs = crate::sessions::due_failures(ms1, now, creds);
    let live = crate::sessions::count_live(t.spec_sessions());
    &&& t.spec_selected() == s.spec_selected()
    &&& t.spec_rx_len() == s.spec_rx_len()
    &&& t.spec_sessions().len() == s.spec_sessions().len()
    &&& forall|j: int|
        0 <= j < ms.len() ==> (#[trigger] t.spec_sessions()[j])@.with_sender(ms1[j].sender)
            == crate::session::restart_step(ms1[j], now, stored_pw(creds, ms1[j].profile)).0
    &&& fx == crate::sessions::exit_reports(ms, now).map_values(
        |x: (usize, Seq<char>)| EffectView::Note(x.0, LogKind::Failure, x.1),
    ) + spawn_fx(ls, t.spec_sessions()) + errs.map_values(|e: Seq<char>| EffectView::CountError(e)) + (
    if live != last_live {
        seq![EffectView::KeepAlive(last_live, live as usize)]
    } else {
        Seq::empty()
    }) + (if all_done(t.spec_sessions()) {
        seq![EffectView::AllDone]
    } else {
        Seq::empty()
    })
}

/// The one case in which a round of restarts does not settle at once: a
/// finished session without a template whose restart fell due (restarting
/// is switched off, and the next round records that as its ending).
pub open spec fn restart_without_template(m: SessionModel, now: u64, creds: Option<&Credentials>) -> bool {
    &&& m.finished()
    &&& m.template is None
    &&& crate::session::restart_step(crate::session::exit_step(m, now).0, now, stored_pw(creds, m.profile)).1
}

proof fn lemma_quiet_round(ms: Seq<SessionModel>, now: u64, creds: Option<&Credentials>)
    requires
        forall|j: int|
            0 <= j < ms.len() ==> !crate::session::exit_step(#[trigger] ms[j], now).1
                && crate::session::restart_step(ms[j], now, stored_pw(creds, ms[j].profile)) == (
                ms[j],
                false,
                None::<Seq<char>>,
            ),
    ensures
        crate::sessions::exit_reports(ms, now) == Seq::<(usize, Seq<char>)>::empty(),
        crate::sessions::due_launches(ms, now, creds) == Seq::<(usize, Seq<char>)>::empty(),
        crate::sessions::due_failures(ms, now, creds) == Seq::<Seq<char>>::empty(),
    decreases ms.len(),
{
    if ms.len() > 0 {
        let d = ms.drop_last();
        assert forall|j: int| 0 <= j < d.len() implies !crate::session::exit_step(#[trigger] d[j], now).1
            && crate::session::restart_step(d[j], now, stored_pw(creds, d[j].profile)) == (
            d[j],
            false,
            None::<Seq<char>>,
        ) by {
            assert(d[j] == ms[j]);
        }
        lemma_quiet_round(d, now, creds);
        assert(!crate::session::exit_step(ms[ms.len() - 1], now).1);
    }
}

proof fn lemma_live_bounded(a: Seq<crate::session::BotSession>)
    ensures
        crate::sessions::count_live(a) <= a.len(),
    decreases a.len(),
{
    if a.len() > 0 {
        lemma_live_bounded(a.drop_last());
    }
}

proof fn lemma_same_live(a: Seq<crate::session::BotSession>, b: Seq<crate::session::BotSession>)
    requires
        a.len() == b.len(),
        forall|j: int| 0 <= j < a.len() ==> (#[trigger] a[j]).spec_settled() == b[j].spec_settled(),
    ensures
        crate::sessions::count_live(a) == crate::sessions::count_live(b),
    decreases a.len(),
{
    if a.len() > 0 {
        lemma_same_live(a.drop_last(), b.drop_last());
        assert(a.last().spec_settled() == b.last().spec_settled());
    }
}

/// A round of restarts settles at once for the whole set: a second round
/// at the same moment (with what the first left as the number of live
/// sessions) changes no session and reports nothing new (only that the
/// program may end, when it already could), unless a finished session
/// without a template had its restart fall due (see
/// [`restart_without_template`]).
pub proof fn law_restart_round_settles_for_the_set(
    s: SessionSet,
    t: SessionSet,
    u: SessionSet,
    last_live: usize,
    now: u64,
    creds: Option<&Credentials>,
    fx1: Seq<EffectView>,
    fx2: Seq<EffectView>,
)
    requires
        s.spec_sessions().len() <= usize::MAX,
        round_next(s, t, last_live, now, creds, fx1),
        round_next(t, u, crate::sessions::count_live(t.spec_sessions()) as usize, now, creds, fx2),
        forall|j: int|
            0 <= j < s.spec_sessions().len() ==> !restart_without_template(
                (#[trigger] s.spec_sessions()[j])@,
                now,
                creds,
            ),
    ensures
        u.spec_sessions().len() == t.spec_sessions().len(),
        forall|j: int|
            0 <= j < t.spec_sessions().len() ==> (#[trigger] u.spec_sessions()[j])@.with_sender(
                t.spec_sessions()[j]@.sender,
            ) == t.spec_sessions()[j]@,
        fx2 == (if all_done(t.spec_sessions()) {
            seq![EffectView::AllDone]
        } else {
            Seq::<EffectView>::empty()
        }),
{
    reveal(round_next);
    let ms = crate::sessions::models_of(s.spec_sessions());
    let ms1 = exited(ms, now);
    let mt = crate::sessions::models_of(t.spec_sessions());
    let n = ms.len();
    assert forall|j: int| 0 <= j < n implies crate::session::exit_step(#[trigger] mt[j], now) == (mt[j], false)
        && crate::session::restart_step(mt[j], now, stored_pw(creds, mt[j].profile)) == (
        mt[j],
        false,
        None::<Seq<char>>,
    ) by {
        let m = ms[j];
        let p = stored_pw(creds, m.profile);
        let r = crate::session::restart_step(ms1[j], now, p).0;
        crate::session::law_restart_round_settles(m, now, p);
        crate::session::lemma_round_steps_sender(m, now, p, m.sender);
        crate::session::lemma_round_steps_sender(ms1[j], now, p, ms1[j].sender);
        let x = t.spec_sessions()[j]@.sender;
        assert(t.spec_sessions()[j]@.with_sender(ms1[j].sender) == r);
        assert(mt[j] == r.with_sender(x));
        crate::session::lemma_round_steps_sender(r, now, p, x);
        assert(r.with_sender(r.sender) == r);
    }
    lemma_quiet_round(mt, now, creds);
    let mt1 = exited(mt, now);
    assert forall|j: int| 0 <= j < n implies #[trigger] mt1[j] == mt[j] by {
        assert(crate::session::exit_step(mt[j], now) == (mt[j], false));
    }
    assert(mt1 =~= mt);
    lemma_live_bounded(t.spec_sessions());
    assert forall|j: int| 0 <= j < n implies (#[trigger] u.spec_sessions()[j])@.with_sender(
        t.spec_sessions()[j]@.sender,
    ) == t.spec_sessions()[j]@ by {
        assert(mt1[j] == mt[j]);
        assert(mt[j] == t.spec_sessions()[j]@);
    }
    assert forall|j: int| 0 <= j < n implies (#[trigger] u.spec_sessions()[j]).spec_settled()
        == t.spec_sessions()[j].spec_settled() && u.spec_sessions()[j].spec_never_started()
        == t.spec_sessions()[j].spec_never_started() by {
        assert(u.spec_sessions()[j]@.with_sender(t.spec_sessions()[j]@.sender) == t.spec_sessions()[j]@);
    }
    lemma_same_live(u.spec_sessions(), t.spec_sessions());
    assert(all_done(u.spec_sessions()) == all_done(t.spec_sessions())) by {
        if exists|j: int| 0 <= j < n && (#[trigger] t.spec_sessions()[j]).spec_never_started() {
            let j = choose|j: int| 0 <= j < n && (#[trigger] t.spec_sessions()[j]).spec_never_started();
            assert(u.spec_sessions()[j].spec_never_started());
        }
        if exists|j: int| 0 <= j < n && (#[trigger] u.spec_sessions()[j]).spec_never_started() {
            let j = choose|j: int| 0 <= j < n && (#[trigger] u.spec_sessions()[j]).spec_never_started();
            assert(t.spec_sessions()[j].spec_never_started());
        }
    }
    assert(crate::sessions::exit_reports(mt, now).map_values(
        |x: (usize, Seq<char>)| EffectView::Note(x.0, LogKind::Failure, x.1),
    ) =~= Seq::<EffectView>::empty());
    assert(Seq::<Seq<char>>::empty().map_values(|e: Seq<char>| EffectView::CountError(e)) =~= Seq::<
        EffectView,
    >::empty());
    assert(fx2 =~= (if all_done(t.spec_sessions()) {
        seq![EffectView::AllDone]
    } else {
        Seq::<EffectView>::empty()
    }));
}

/// One round of automatic restarts, with the runtime and sessions (else
/// nothing happens): see [`round_next`]. The console remembers the new
/// number of live sessions and redraws when a session was relaunched or
/// failed to be.
pub open spec fn restarts_next(a: App, b: App, now: u64, creds: Option<&Credentials>, fx: Seq<EffectView>) -> bool {
    if !a.has_runtime || a.sessions is None {
        b == a && fx == Seq::<EffectView>::empty()
    } else {
        &&& b.sessions matches Some(t) && round_next(a.sessions->0, t, a.last_live, now, creds, fx)
        &&& b == App {
            sessions: b.sessions,
            last_live: crate::sessions::count_live(b.sessions->0.spec_sessions()) as usize,
            dirty: a.dirty || round_moved(a.sessions->0, now, creds),
            ..a
        }
    }
}

/// The reports of registered endings, by their views.
pub open spec fn exit_views(v: Seq<(usize, String)>) -> Seq<(usize, Seq<char>)> {
    v.map_values(|x: (usize, String)| (x.0, x.1@))
}

/// The notes of the sessions whose restart was scheduled.
fn exit_effects(exits: Vec<(usize, String)>) -> (fx: Vec<Effect>)
    ensures
        fx_views(fx@) == exit_views(exits@).map_values(
            |x: (usize, Seq<char>)| EffectView::Note(x.0, LogKind::Failure, x.1),
        ),
{
    let ghost all = exit_views(exits@);
    let mut rest = exits;
    let mut fx: Vec<Effect> = Vec::new();
    let n = rest.len();
    for k in 0..n
        invariant
            n == all.len(),
            exit_views(rest@) == all.skip(k as int),
            fx_views(fx@) == all.take(k as int).map_values(
                |x: (usize, Seq<char>)| EffectView::Note(x.0, LogKind::Failure, x.1),
            ),
    {
        proof {
            assert(exit_views(rest@).len() == n - k);
        }
        let ghost old_rest = rest@;
        let (i, line) = rest.remove(0);
        let ghost lv = (i, line@);
        proof {
            assert(exit_views(old_rest)[0] == lv);
            assert(all.skip(k as int)[0] == lv);
            assert(rest@ =~= old_rest.subrange(1, old_rest.len() as int));
            assert forall|j: int| 0 <= j < rest@.len() implies #[trigger] exit_views(rest@)[j] == all.skip(k + 1)[j] by {
                assert(exit_views(old_rest)[j + 1] == all.skip(k as int)[j + 1]);
            }
            assert(exit_views(rest@) =~= all.skip(k + 1));
        }
        let ghost before = fx_views(fx@);
        fx.push(Effect::Note(i, LogKind::Failure, line));
        proof {
            assert(all.take(k + 1) =~= all.take(k as int).push(lv));
            assert(fx_views(fx@) =~= before.push(EffectView::Note(lv.0, LogKind::Failure, lv.1)));
            assert(all.take(k + 1).map_values(|x: (usize, Seq<char>)| EffectView::Note(x.0, LogKind::Failure, x.1))
                =~= before.push(EffectView::Note(lv.0, LogKind::Failure, lv.1)));
        }
    }
    proof {
        assert(all.take(n as int) =~= all);
    }
    fx
}

/// The effects of the relaunches (see [`spawn_fx`]); `set` is the set
/// after the round.
fn spawn_effects(set: &SessionSet, launches: Vec<crate::sessions::Launch>) -> (fx: Vec<Effect>)
    ensures
        fx_views(fx@) == spawn_fx(crate::sessions::launch_views(launches@), set.spec_sessions()),
{
    let ghost all = crate::sessions::launch_views(launches@);
    let mut rest = launches;
    let mut fx: Vec<Effect> = Vec::new();
    let n = rest.len();
    for k in 0..n
        invariant
            n == all.len(),
            crate::sessions::launch_views(rest@) == all.skip(k as int),
            fx_views(fx@) == spawn_fx(all.take(k as int), set.spec_sessions()),
    {
        proof {
            assert(crate::sessions::launch_views(rest@).len() == n - k);
        }
        let ghost old_rest = rest@;
        let l = rest.remove(0);
        let ghost lv = (l.index, l.password@);
        proof {
            assert(crate::sessions::launch_views(old_rest)[0] == lv);
            assert(all.skip(k as int)[0] == lv);
            assert(rest@ =~= old_rest.subrange(1, old_rest.len() as int));
            assert forall|j: int| 0 <= j < rest@.len() implies #[trigger] crate::sessions::launch_views(rest@)[j]
                == all.skip(k + 1)[j] by {
                assert(crate::sessions::launch_views(old_rest)[j + 1] == all.skip(k as int)[j + 1]);
            }
            assert(crate::sessions::launch_views(rest@) =~= all.skip(k + 1));
        }
        let i = l.index;
        let g: u32 = match set.get(i) {
            Some(s) => s.generation(),
            None => 0,
        };
        let mut note = copy_str("已自动重新拉起 (第 ");
        note.append(decimal_string(g as u64).as_str());
        note.append(" 次)");
        let ghost before = fx_views(fx@);
        fx.push(Effect::Launch(l));
        fx.push(Effect::CountSpawn);
        fx.push(Effect::Note(i, LogKind::Info, note));
        proof {
            assert(g == generation_at(set.spec_sessions(), i));
            assert(all.take(k + 1).drop_last() =~= all.take(k as int));
            assert(all.take(k + 1).last() == lv);
            assert(fx_views(fx@) =~= before + seq![
                EffectView::Launch(lv.0, lv.1),
                EffectView::CountSpawn,
                EffectView::Note(i, LogKind::Info, respawn_note(g)),
            ]);
        }
    }
    proof {
        assert(all.take(n as int) =~= all);
    }
    fx
}

/// One error count per restart that could not be made.
fn error_effects(errs: Vec<String>) -> (fx: Vec<Effect>)
    ensures
        fx_views(fx@) == crate::text::views_of(errs@).map_values(|e: Seq<char>| EffectView::CountError(e)),
{
    let ghost all = crate::text::views_of(errs@);
    let mut rest = errs;
    let mut fx: Vec<Effect> = Vec::new();
    let n = rest.len();
    for k in 0..n
        invariant
            n == all.len(),
            crate::text::views_of(rest@) == all.skip(k as int),
            fx_views(fx@) == all.take(k as int).map_values(|e: Seq<char>| EffectView::CountError(e)),
    {
        proof {
            assert(crate::text::views_of(rest@).len() == n - k);
        }
        let ghost old_rest = rest@;
        let e = rest.remove(0);
        let ghost ev = e@;
        proof {
            assert(crate::text::views_of(old_rest)[0] == ev);
            assert(all.skip(k as int)[0] == ev);
            assert(rest@ =~= old_rest.subrange(1, old_rest.len() as int));
            assert forall|j: int| 0 <= j < rest@.len() implies #[trigger] crate::text::views_of(rest@)[j]
                == all.skip(k + 1)[j] by {
                assert(crate::text::views_of(old_rest)[j + 1] == all.skip(k as int)[j + 1]);
            }
            assert(crate::text::views_of(rest@) =~= all.skip(k + 1));
        }
        let ghost before = fx_views(fx@);
        fx.push(Effect::CountError(e));
        proof {
            assert(all.take(k + 1) =~= all.take(k as int).push(ev));
            assert(fx_views(fx@) =~= before.push(EffectView::CountError(ev)));
            assert(all.take(k + 1).map_values(|e: Seq<char>| EffectView::CountError(e)) =~= before.push(
                EffectView::CountError(ev),
            ));
        }
    }
    proof {
        assert(all.take(n as int) =~= all);
    }
    fx
}

/// A round of restarts on `set` (see [`round_next`]); returns the effects,
/// the number of live sessions after it, and whether it relaunched a
/// session or failed to.
fn restart_round(set: &mut SessionSet, last_live: usize, now: u64, creds: Option<&Credentials>) -> (r: (
    Vec<Effect>,
    usize,
    bool,
))
    ensures
        round_next(*old(set), *final(set), last_live, now, creds, fx_views(r.0@)),
        r.1 == crate::sessions::count_live(final(set).spec_sessions()),
        r.2 == round_moved(*old(set), now, creds),
{
    proof {
        reveal(round_next);
    }
    let ghost s0 = *set;
    let ghost ms = crate::sessions::models_of(s0.spec_sessions());
    let exits = set.note_exits(now);
    let ghost ms1 = exited(ms, now);
    proof {
        assert(crate::sessions::models_of(set.spec_sessions()) =~= ms1);
        assert(exit_views(exits@) =~= crate::sessions::exit_reports(ms, now));
    }
    let ghost s1 = *set;
    let (launches, errs) = set.advance_watchers(now, creds);
    proof {
        assert forall|j: int| 0 <= j < ms.len() implies (#[trigger] set.spec_sessions()[j])@.with_sender(ms1[j].sender)
            == crate::session::restart_step(ms1[j], now, stored_pw(creds, ms1[j].profile)).0 by {
            assert(s1.spec_sessions()[j]@ == crate::sessions::models_of(s1.spec_sessions())[j]);
        }
    }
    let moved = launches.len() > 0 || errs.len() > 0;
    let live = set.live_count();
    let done = set.all_stopped() && !set.has_never_started();
    let mut fx = exit_effects(exits);
    let ghost f1 = fx_views(fx@);
    let mut f = spawn_effects(set, launches);
    let ghost f2 = fx_views(f@);
    fx.append(&mut f);
    let mut f = error_effects(errs);
    let ghost f3 = fx_views(f@);
    fx.append(&mut f);
    let ghost f4 = fx_views(fx@);
    if live != last_live {
        fx.push(Effect::KeepAlive(last_live, live));
    }
    if done {
        fx.push(Effect::AllDone);
    }
    proof {
        assert(f4 =~= f1 + f2 + f3);
        assert(done == all_done(set.spec_sessions()));
        assert(fx_views(fx@) =~= f1 + f2 + f3 + (if live != last_live {
            seq![EffectView::KeepAlive(last_live, live)]
        } else {
            Seq::empty()
        }) + (if done {
            seq![EffectView::AllDone]
        } else {
            Seq::empty()
        }));
    }
    (fx, live, moved)
}

impl App {
    /// One round of automatic restarts, run every frame (see
    /// [`restarts_next`]); `now` is the clock in milliseconds and `creds`
    /// the credential store.
    pub fn drive_restarts(&mut self, now: u64, creds: Option<&Credentials>) -> (fx: Vec<Effect>)
        requires
            old(self).wf(),
        ensures
            final(self).wf(),
            restarts_next(*old(self), *final(self), now, creds, fx_views(fx@)),
    {
        if !self.has_runtime || self.sessions.is_none() {
            return crate::console::no_effects();
        }
        let mut set = self.sessions.take().unwrap();
        let (fx, live, moved) = restart_round(&mut set, self.last_live, now, creds);
        self.sessions = Some(set);
        self.last_live = live;
        if moved {
            self.dirty = true;
        }
        fx
    }
}

} // verus!
