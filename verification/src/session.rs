//! One bot session: a profile, its lifecycle and its command channel.
//!
//! The bot itself runs in a task owned by the front end; what the session
//! keeps here is the state every decision reads: the stage (form / running /
//! finished), how the last run ended, whether a task exists, the restart
//! state machine and the user's start/stop intent. The front end reports the
//! task's progress through [`BotSession::note_spawned`] and
//! [`BotSession::finish_task`]; everything else is decided here.

use vstd::prelude::*;

use crate::credentials::opt_str_view;
use crate::text::{copy_str, views_of};
use crate::watcher::{
    law_manual_stop_blocks_restarts, law_window_fires_once, lemma_exit_then_poll_settles, lemma_poll_quiet, law_poll_needs_a_window, law_scheduled_window_ignores_repeated_reports, lemma_watcher_transitions, PENDING_WINDOW_STALE_MS, spec_on_exit, spec_poll_ready, ExitKind, RestartPolicy, RestartState, RunOutcome, Watcher,
};

verus! {

/// Session stages.
pub const STAGE_WIZARD: u8 = 0;
pub const STAGE_RUNNING: u8 = 1;
pub const STAGE_FINISHED: u8 = 2;

/// Command channel capacity.
pub const CMD_CHANNEL_CAP: usize = 64;

/// Event queue bound per session.
pub const EVENT_QUEUE_CAP: usize = 1000;

/// `tokio::sync::mpsc::Sender`, carried opaquely.
#[verifier::external_type_specification]
#[verifier::external_body]
#[verifier::reject_recursive_types(T)]
pub struct ExCmdSender<T>(tokio::sync::mpsc::Sender<T>);

/// `tokio::sync::mpsc::Receiver`, carried opaquely.
#[verifier::external_type_specification]
#[verifier::external_body]
#[verifier::reject_recursive_types(T)]
pub struct ExCmdReceiver<T>(tokio::sync::mpsc::Receiver<T>);

/// Why a command could not be queued.
#[derive(Debug, Clone, Copy, PartialEq, Eq, Structural)]
pub enum SendFailure {
    /// The queue is full.
    Full,
    /// The receiving bot is gone.
    Closed,
}

/// What a due-restart poll came to.
pub enum RestartStep {
    /// Nothing was due.
    NotDue,
    /// The session was relaunched: the password to log in with and the
    /// receiving end of its new command channel.
    Launched(String, tokio::sync::mpsc::Receiver<String>),
    /// The window fired but there is no template; restarting was switched
    /// off.
    NoTemplate,
}

/// What the user reads when a command could not be queued.
pub open spec fn failure_text(f: SendFailure) -> Seq<char> {
    match f {
        SendFailure::Full => "指令队列已满 (会话卡住?)"@,
        SendFailure::Closed => "会话未运行或已结束"@,
    }
}

/// The message for a failed send.
pub fn failure_message(f: SendFailure) -> (s: String)
    ensures
        s@ == failure_text(f),
{
    match f {
        SendFailure::Full => copy_str("指令队列已满 (会话卡住?)"),
        SendFailure::Closed => copy_str("会话未运行或已结束"),
    }
}

/// A new bounded command channel (`tokio::sync::mpsc::channel`); the capacity
/// must be positive and within tokio's permit limit (it panics otherwise).
#[verifier::external_body]
pub(crate) fn new_cmd_channel(cap: usize) -> (tokio::sync::mpsc::Sender<String>, tokio::sync::mpsc::Receiver<String>)
    requires
        0 < cap <= usize::MAX / 8,
{
    tokio::sync::mpsc::channel::<String>(cap)
}

/// Queues a command without waiting (`Sender::try_send`). The answer depends
/// on the receiving side, so nothing is promised about which one comes.
#[verifier::external_body]
fn try_send_cmd(tx: &tokio::sync::mpsc::Sender<String>, cmd: String) -> Result<(), SendFailure> {
    match tx.try_send(cmd) {
        Ok(()) => Ok(()),
        Err(tokio::sync::mpsc::error::TrySendError::Full(_)) => Err(SendFailure::Full),
        Err(tokio::sync::mpsc::error::TrySendError::Closed(_)) => Err(SendFailure::Closed),
    }
}

/// Another handle on the same channel (`Sender::clone`).
#[verifier::external_body]
fn clone_sender(tx: &tokio::sync::mpsc::Sender<String>) -> tokio::sync::mpsc::Sender<String> {
    tx.clone()
}

/// What `std::path::Path::file_stem` gives for a path (as text), `None` when
/// the path has no file name.
pub uninterp spec fn path_file_stem(path: Seq<char>) -> Option<Seq<char>>;

/// `path` is `profiles/<stem>.json`, with a stem that is not empty and holds
/// no path separator (`/`, `\\`) and no drive colon.
pub open spec fn plain_profile_file(path: Seq<char>, stem: Seq<char>) -> bool {
    &&& stem.len() > 0
    &&& forall|i: int| 0 <= i < stem.len() ==> #[trigger] stem[i] != '/' && stem[i] != '\\' && stem[i] != ':'
    &&& path == "profiles/"@ + stem + ".json"@
}

/// `Path::new(path).file_stem()` as text. As its documentation says, the
/// stem of `profiles/<stem>.json` (a plain file name in a directory) is the
/// file name before its final `.`, that is `<stem>`; other paths are left to
/// [`path_file_stem`].
#[verifier::external_body]
fn file_stem_of(path: &str) -> (r: Option<String>)
    ensures
        match r {
            Some(s) => path_file_stem(path@) == Some(s@) && forall|stem: Seq<char>|
                #[trigger] plain_profile_file(path@, stem) ==> s@ == stem,
            None => path_file_stem(path@) is None && forall|stem: Seq<char>|
                !#[trigger] plain_profile_file(path@, stem),
        },
{
    std::path::Path::new(path).file_stem().and_then(|s| s.to_str()).map(|s| s.to_string())
}

/// The display / target name of a profile path: its file stem, `"unknown"`
/// when there is none.
pub open spec fn spec_profile_name(path: Seq<char>) -> Seq<char> {
    match path_file_stem(path) {
        Some(s) => s,
        None => "unknown"@,
    }
}

/// What a restart needs to know about the session's configuration.
#[derive(Debug, Clone)]
pub struct SessionTemplate {
    pub ip: String,
    pub port: u16,
    pub account: String,
    pub password: String,
}

/// The mathematical value of a [`BotSession`].
pub struct SessionModel {
    pub profile: Seq<char>,
    pub config_paths: Seq<Seq<char>>,
    /// The command channel the session sends into.
    pub sender: tokio::sync::mpsc::Sender<String>,
    pub scroll: usize,
    pub filter: u8,
    pub stage: u8,
    pub outcome: Option<RunOutcome>,
    pub panicked: bool,
    pub task_present: bool,
    pub dropped: u64,
    pub watcher: Watcher,
    /// `(account, password, ip, port)` of the restart template.
    pub template: Option<(Seq<char>, Seq<char>, Seq<char>, u16)>,
    pub generation: u32,
    pub manual_stopped: bool,
    pub start_failed: bool,
    pub stopping: bool,
}

impl SessionModel {
    pub open spec fn running(self) -> bool {
        self.stage == STAGE_RUNNING
    }

    pub open spec fn finished(self) -> bool {
        self.stage == STAGE_FINISHED
    }

    pub open spec fn waiting(self) -> bool {
        self.watcher.spec_is_waiting()
    }

    /// Stopped by the user: the session's own flag or the watcher's state.
    pub open spec fn manually_stopped(self) -> bool {
        self.manual_stopped || self.watcher.spec_manually_stopped()
    }

    /// Never started: still at the form stage, never respawned, not stopped
    /// by the user, no failed start, and the watcher untouched.
    pub open spec fn never_started(self) -> bool {
        &&& self.stage == STAGE_WIZARD
        &&& self.generation == 0
        &&& !self.manually_stopped()
        &&& !self.start_failed
        &&& self.watcher.spec_state() == RestartState::Idle
    }

    /// Needs a person: the watcher says so, or the last run failed to log in.
    pub open spec fn needs_attention(self) -> bool {
        self.watcher.spec_needs_attention() || self.outcome == Some(RunOutcome::Failed)
    }

    /// Will not move by itself any more: never started, failed to start, or
    /// finished and not waiting for a restart.
    pub open spec fn settled(self) -> bool {
        self.never_started() || self.start_failed || (self.finished() && !self.waiting())
    }

    /// A start may proceed: no task alive or on its way out, no restart
    /// queued.
    pub open spec fn can_start(self) -> bool {
        &&& !(self.generation > 0 && !self.finished())
        &&& !(self.running() && !self.manual_stopped)
        &&& !(self.stopping && !self.finished())
        &&& !self.waiting()
    }

    /// Nothing a stop could act on: never started and neither running nor
    /// waiting.
    pub open spec fn nothing_to_stop(self) -> bool {
        self.never_started() && !self.running() && !self.waiting()
    }

    /// The template's account (empty without a template).
    pub open spec fn tpl_account(self) -> Seq<char> {
        match self.template {
            Some(t) => t.0,
            None => Seq::empty(),
        }
    }

    /// The template's server address (empty without a template).
    pub open spec fn tpl_ip(self) -> Seq<char> {
        match self.template {
            Some(t) => t.2,
            None => Seq::empty(),
        }
    }

    /// The template's port (0 without a template).
    pub open spec fn tpl_port(self) -> u16 {
        match self.template {
            Some(t) => t.3,
            None => 0,
        }
    }

    /// The template's password (empty without a template).
    pub open spec fn tpl_password(self) -> Seq<char> {
        match self.template {
            Some(t) => t.1,
            None => Seq::empty(),
        }
    }

    pub open spec fn with_watcher(self, w: Watcher) -> SessionModel {
        SessionModel { watcher: w, ..self }
    }

    pub open spec fn with_sender(self, tx: tokio::sync::mpsc::Sender<String>) -> SessionModel {
        SessionModel { sender: tx, ..self }
    }

    /// Whether a usable password exists for a start: a non-empty template
    /// password or a non-empty stored one.
    pub open spec fn has_password(self, stored: Option<Seq<char>>) -> bool {
        (self.template matches Some(t) && t.1.len() > 0) || (stored matches Some(p) && p.len() > 0)
    }

    /// The password a respawn logs in with: a non-empty given one, else the
    /// template's.
    pub open spec fn respawn_password(self, pw: Option<Seq<char>>) -> Seq<char> {
        match pw {
            Some(p) => if p.len() > 0 {
                p
            } else {
                self.tpl_password()
            },
            None => self.tpl_password(),
        }
    }

    /// After a start was accepted: ending forgotten, manual stop and failed
    /// start lifted, back at the form stage.
    pub open spec fn prepared(self) -> SessionModel {
        SessionModel {
            outcome: None,
            manual_stopped: false,
            start_failed: false,
            stage: STAGE_WIZARD,
            watcher: if self.watcher.spec_manually_stopped() {
                self.watcher.resumed()
            } else {
                self.watcher
            },
            ..self
        }
    }

    /// A start that could not be made: stopped (counter kept) and marked as
    /// a failed start.
    pub open spec fn failed_start(self) -> SessionModel {
        SessionModel {
            manual_stopped: true,
            start_failed: true,
            watcher: self.watcher.stopped_keep_attempts(),
            ..self
        }
    }

    /// After [`BotSession::begin_respawn`] (a template exists): one more
    /// generation, the traces of the last run cleared, the password kept in
    /// the template, a fired window cleared.
    pub open spec fn respawned(self, pw: Option<Seq<char>>) -> SessionModel {
        SessionModel {
            template: Some((self.tpl_account(), self.respawn_password(pw), self.tpl_ip(), self.tpl_port())),
            generation: self.generation.saturating_add(1),
            panicked: false,
            task_present: false,
            outcome: None,
            stage: STAGE_WIZARD,
            watcher: self.watcher.fired_window_cleared(),
            ..self
        }
    }

    /// After a respawn whose task was started (sender aside).
    pub open spec fn relaunched(self, pw: Option<Seq<char>>) -> SessionModel {
        SessionModel { stage: STAGE_RUNNING, task_present: true, ..self.respawned(pw) }
    }

    /// After the user pressed stop: manual flag and the "on its way out"
    /// latch set, the ending forgotten, the watcher stopped manually.
    pub open spec fn stopped_by_user(self) -> SessionModel {
        SessionModel {
            manual_stopped: true,
            stopping: true,
            outcome: None,
            watcher: self.watcher.stopped_manually(),
            ..self
        }
    }
}

/// What [`BotSession::start`] does (sender aside): the new model and either
/// the password to log in with or the error.
pub open spec fn start_step(m: SessionModel, stored: Option<Seq<char>>) -> (
    SessionModel,
    Result<Seq<char>, Seq<char>>,
) {
    if !m.can_start() {
        (m, Err(m.profile + ": 已经在运行 (或在等重连)"@))
    } else {
        let p = m.prepared();
        if !p.has_password(stored) {
            (
                p.failed_start(),
                Err(
                    p.profile
                        + ": 没有可用密码 —— 选中它按 F4 补输, 或用 --password / 档案的 login.password / 凭据存储"@,
                ),
            )
        } else if p.template is None {
            (p.failed_start(), Err(p.profile + ": 档案未能加载 (没有配置模板)"@))
        } else {
            (
                SessionModel { stopping: false, ..p.relaunched(stored) },
                Ok(p.respawn_password(stored)),
            )
        }
    }
}

/// What registering an ending does: a finished task is reported to the
/// watcher (its ending, whether it panicked); `(model, scheduled)`.
pub open spec fn exit_step(m: SessionModel, now: u64) -> (SessionModel, bool) {
    if !m.finished() {
        (m, false)
    } else {
        let (w, r) = spec_on_exit(m.watcher, m.outcome, m.panicked, now);
        (m.with_watcher(w), r)
    }
}

/// What a due restart does (sender aside): `(model, fired, password)`;
/// `fired` with no password means there was no template and restarting was
/// switched off.
pub open spec fn restart_step(m: SessionModel, now: u64, stored: Option<Seq<char>>) -> (
    SessionModel,
    bool,
    Option<Seq<char>>,
) {
    let (w, fire) = spec_poll_ready(m.watcher, now);
    let m1 = m.with_watcher(w);
    if !fire {
        (m1, false, None)
    } else if m1.template is None {
        (m1.with_watcher(w.with_enabled(false)), true, None)
    } else {
        (m1.relaunched(stored), true, Some(m1.respawn_password(stored)))
    }
}

/// What [`BotSession::manual_restart`] does (sender aside): the back-off is
/// reset; a finished task is respawned (`Ok(Some(password))`), a task still
/// running is left alone (`Ok(None)`), no template is an error.
pub open spec fn manual_restart_step(m: SessionModel, stored: Option<Seq<char>>) -> (
    SessionModel,
    Result<Option<Seq<char>>, Seq<char>>,
) {
    let m1 = m.with_watcher(m.watcher.after_reset());
    if !m1.finished() {
        (m1, Ok(None))
    } else if m1.template is None {
        (m1, Err(m1.profile + ": 档案未能加载"@))
    } else {
        (m1.relaunched(stored), Ok(Some(m1.respawn_password(stored))))
    }
}

/// One bot session.
#[derive(Debug)]
pub struct BotSession {
    /// Profile name: display name and `@target` match key.
    pub profile: String,
    /// The profile path chain (the last one is written back).
    pub config_paths: Vec<String>,
    cmd_tx: tokio::sync::mpsc::Sender<String>,
    /// Log scroll offset (0 = stuck to the bottom).
    pub scroll: usize,
    /// Log filter tab of this session.
    pub filter: u8,
    stage: u8,
    outcome: Option<RunOutcome>,
    panicked: bool,
    task_present: bool,
    dropped_total: u64,
    watcher: Watcher,
    template: Option<SessionTemplate>,
    generation: u32,
    manual_stopped: bool,
    start_failed: bool,
    stopping: bool,
}

impl View for BotSession {
    type V = SessionModel;

    closed spec fn view(&self) -> SessionModel {
        SessionModel {
            profile: self.profile@,
            config_paths: views_of(self.config_paths@),
            sender: self.cmd_tx,
            scroll: self.scroll,
            filter: self.filter,
            stage: self.stage,
            outcome: self.outcome,
            panicked: self.panicked,
            task_present: self.task_present,
            dropped: self.dropped_total,
            watcher: self.watcher,
            template: match self.template {
                Some(t) => Some((t.account@, t.password@, t.ip@, t.port)),
                None => None,
            },
            generation: self.generation,
            manual_stopped: self.manual_stopped,
            start_failed: self.start_failed,
            stopping: self.stopping,
        }
    }
}

impl BotSession {
    pub open spec fn spec_stage(self) -> u8 {
        self@.stage
    }

    pub open spec fn spec_outcome(self) -> Option<RunOutcome> {
        self@.outcome
    }

    pub open spec fn spec_panicked(self) -> bool {
        self@.panicked
    }

    pub open spec fn spec_task_present(self) -> bool {
        self@.task_present
    }

    pub open spec fn spec_watcher(self) -> Watcher {
        self@.watcher
    }

    pub open spec fn spec_generation(self) -> u32 {
        self@.generation
    }

    pub open spec fn spec_manual_flag(self) -> bool {
        self@.manual_stopped
    }

    pub open spec fn spec_start_failed(self) -> bool {
        self@.start_failed
    }

    pub open spec fn spec_stopping(self) -> bool {
        self@.stopping
    }

    pub open spec fn spec_template_password(self) -> Option<Seq<char>> {
        match self@.template {
            Some(t) => Some(t.1),
            None => None,
        }
    }

    pub open spec fn spec_dropped(self) -> u64 {
        self@.dropped
    }

    pub open spec fn spec_running(self) -> bool {
        self@.running()
    }

    pub open spec fn spec_finished(self) -> bool {
        self@.finished()
    }

    pub open spec fn spec_waiting(self) -> bool {
        self@.waiting()
    }

    /// Stopped by the user: the session's own flag or the watcher's state.
    pub open spec fn spec_manually_stopped(self) -> bool {
        self@.manually_stopped()
    }

    /// Never started: still at the form stage, never respawned, not stopped
    /// by the user, no failed start, and the watcher untouched.
    pub open spec fn spec_never_started(self) -> bool {
        self@.never_started()
    }

    /// Needs a person: the watcher says so, or the last run failed to log in.
    pub open spec fn spec_needs_attention(self) -> bool {
        self@.needs_attention()
    }

    /// Will not move by itself any more: never started, failed to start, or
    /// finished and not waiting for a restart.
    pub open spec fn spec_settled(self) -> bool {
        self@.settled()
    }

    /// Whether a start may proceed (nothing alive, nothing on its way out,
    /// nothing queued for a restart).
    pub open spec fn spec_can_start(self) -> bool {
        self@.can_start()
    }

    /// The fields every constructor sets the same way.
    pub open spec fn fresh(self, policy: RestartPolicy) -> bool {
        &&& self.spec_stage() == STAGE_WIZARD
        &&& self.spec_outcome() is None
        &&& !self.spec_panicked()
        &&& !self.spec_task_present()
        &&& self.spec_dropped() == 0
        &&& self.spec_watcher().spec_state() == RestartState::Idle
        &&& self.spec_watcher().spec_attempts() == 0
        &&& self.spec_watcher().spec_policy() == policy
        &&& self.spec_watcher().spec_enabled_at_construction() == policy.enabled
        &&& self.spec_template_password() is None
        &&& self.spec_generation() == 0
        &&& !self.spec_manual_flag()
        &&& !self.spec_start_failed()
        &&& !self.spec_stopping()
        &&& self.spec_scroll() == 0
        &&& self.spec_filter() == 0
    }

    pub open spec fn spec_profile(self) -> Seq<char> {
        self@.profile
    }

    /// The profile path chain, as text.
    pub open spec fn spec_config_paths(self) -> Seq<Seq<char>> {
        self@.config_paths
    }

    pub open spec fn spec_scroll(self) -> usize {
        self@.scroll
    }

    pub open spec fn spec_filter(self) -> u8 {
        self@.filter
    }

    /// A session that sends its commands into `cmd_tx`; restarting disabled.
    pub fn from_channel(profile: &str, config_paths: Vec<String>, cmd_tx: tokio::sync::mpsc::Sender<
        String,
    >) -> (s: BotSession)
        ensures
            s.spec_profile() == profile@,
            s.spec_config_paths() == views_of(config_paths@),
            !s.spec_watcher().spec_policy().enabled,
            s.spec_stage() == STAGE_WIZARD,
            s.spec_outcome() is None,
            s.spec_never_started(),
            s@.template is None,
    {
        Self::from_channel_with_policy(profile, config_paths, cmd_tx, RestartPolicy::disabled())
    }

    /// As [`Self::from_channel`], with the given restart policy.
    pub fn from_channel_with_policy(
        profile: &str,
        config_paths: Vec<String>,
        cmd_tx: tokio::sync::mpsc::Sender<String>,
        policy: RestartPolicy,
    ) -> (s: BotSession)
        ensures
            s.spec_profile() == profile@,
            s.spec_config_paths() == views_of(config_paths@),
            s.fresh(policy),
            s.spec_never_started(),
    {
        BotSession {
            profile: copy_str(profile),
            config_paths,
            cmd_tx,
            scroll: 0,
            filter: 0,
            stage: STAGE_WIZARD,
            outcome: None,
            panicked: false,
            task_present: false,
            dropped_total: 0,
            watcher: Watcher::new(policy),
            template: None,
            generation: 0,
            manual_stopped: false,
            start_failed: false,
            stopping: false,
        }
    }

    /// A session with a channel of its own; returns the receiving end too.
    pub fn new(profile: &str, config_paths: Vec<String>) -> (r: (
        BotSession,
        tokio::sync::mpsc::Receiver<String>,
    ))
        ensures
            r.0.spec_profile() == profile@,
            r.0.spec_config_paths() == views_of(config_paths@),
            !r.0.spec_watcher().spec_policy().enabled,
            r.0.spec_never_started(),
            r.0@.template is None,
    {
        let (tx, rx) = new_cmd_channel(CMD_CHANNEL_CAP);
        (Self::from_channel(profile, config_paths, tx), rx)
    }

    /// As [`Self::new`], with the given restart policy.
    pub fn new_with_policy(profile: &str, config_paths: Vec<String>, policy: RestartPolicy) -> (r: (
        BotSession,
        tokio::sync::mpsc::Receiver<String>,
    ))
        ensures
            r.0.spec_profile() == profile@,
            r.0.spec_config_paths() == views_of(config_paths@),
            r.0.fresh(policy),
    {
        let (tx, rx) = new_cmd_channel(CMD_CHANNEL_CAP);
        (Self::from_channel_with_policy(profile, config_paths, tx, policy), rx)
    }

    // ---------------------------------------------------------------- restart

    /// Keeps the configuration a restart will use.
    pub fn set_template(&mut self, t: SessionTemplate)
        ensures
            final(self).spec_template_password() == Some(t.password@),
            final(self).unchanged_but_template(*old(self)),
            final(self)@ == (SessionModel {
                template: Some((t.account@, t.password@, t.ip@, t.port)),
                ..old(self)@
            }),
    {
        self.template = Some(t);
    }

    /// Everything but the template is as in `o`.
    pub closed spec fn unchanged_but_template(self, o: BotSession) -> bool {
        BotSession { template: o.template, ..self } == o
    }

    /// A copy of the restart template.
    pub fn template(&self) -> (t: Option<SessionTemplate>)
        ensures
            match t {
                Some(x) => self.spec_template_password() == Some(x.password@)
                    && self@.template == Some((x.account@, x.password@, x.ip@, x.port)),
                None => self.spec_template_password() is None && self@.template is None,
            },
    {
        match &self.template {
            Some(t) => Some(
                SessionTemplate {
                    ip: copy_str(t.ip.as_str()),
                    port: t.port,
                    account: copy_str(t.account.as_str()),
                    password: copy_str(t.password.as_str()),
                },
            ),
            None => None,
        }
    }

    /// How many times the session was respawned (0 = first run).
    pub fn generation(&self) -> (g: u32)
        ensures
            g == self.spec_generation(),
    {
        self.generation
    }

    /// The restart state machine.
    pub fn watcher(&self) -> (w: &Watcher)
        ensures
            *w == self.spec_watcher(),
    {
        &self.watcher
    }

    /// Time left before the pending restart.
    pub fn restart_remaining(&self, now: u64) -> (r: Option<u64>)
        ensures
            r == self.spec_watcher().spec_remaining(now),
    {
        self.watcher.remaining(now)
    }

    /// Deadline of the pending restart.
    pub fn restart_deadline(&self) -> (r: Option<u64>)
        ensures
            r == (match self.spec_watcher().spec_state() {
                RestartState::Waiting { until, .. } => Some(until),
                _ => None,
            }),
    {
        match self.watcher.state() {
            RestartState::Waiting { until, .. } => Some(*until),
            _ => None,
        }
    }

    /// The pending window already fired.
    pub fn restart_fired(&self) -> (r: bool)
        ensures
            r == self.spec_watcher().spec_is_fired(),
    {
        self.watcher.is_waiting_restart_fired()
    }

    pub fn is_waiting_restart(&self) -> (r: bool)
        ensures
            r == self.spec_waiting(),
    {
        self.watcher.is_waiting()
    }

    pub fn gave_up_restart(&self) -> (r: bool)
        ensures
            r == self.spec_watcher().spec_given_up(),
    {
        self.watcher.given_up()
    }

    pub fn is_manually_stopped(&self) -> (r: bool)
        ensures
            r == self.spec_manually_stopped(),
    {
        self.manual_stopped || self.watcher.is_manually_stopped()
    }

    pub fn never_started(&self) -> (r: bool)
        ensures
            r == self.spec_never_started(),
    {
        let idle = match self.watcher.state() {
            RestartState::Idle => true,
            _ => false,
        };
        self.stage == STAGE_WIZARD && self.generation == 0 && !self.is_manually_stopped()
            && !self.start_failed && idle
    }

    pub fn needs_attention(&self) -> (r: bool)
        ensures
            r == self.spec_needs_attention(),
    {
        self.watcher.needs_attention() || match self.outcome {
            Some(RunOutcome::Failed) => true,
            _ => false,
        }
    }

    pub fn restart_state(&self) -> (s: &RestartState)
        ensures
            *s == self.spec_watcher().spec_state(),
    {
        self.watcher.state()
    }

    /// Manual restart of the back-off (a manual stop is kept).
    pub fn reset_watcher(&mut self)
        ensures
            final(self)@ == old(self)@.with_watcher(old(self)@.watcher.after_reset()),
            old(self).spec_watcher().spec_manually_stopped() ==> final(self).spec_watcher()
                == old(self).spec_watcher(),
            !old(self).spec_watcher().spec_manually_stopped() ==> final(self).spec_watcher()
                == old(self).spec_watcher().cleared_to_idle(),
            final(self).same_but_watcher(*old(self)),
    {
        self.watcher.reset();
    }

    /// Everything but the watcher is as in `o`.
    pub closed spec fn same_but_watcher(self, o: BotSession) -> bool {
        BotSession { watcher: o.watcher, ..self } == o
    }

    pub fn set_restart_enabled(&mut self, enabled: bool)
        ensures
            final(self)@ == old(self)@.with_watcher(old(self)@.watcher.with_enabled(enabled)),
            final(self).spec_watcher().spec_policy().enabled == enabled,
            final(self).spec_watcher().spec_state() == old(self).spec_watcher().spec_state(),
            final(self).spec_watcher().spec_attempts() == old(self).spec_watcher().spec_attempts(),
            final(self).same_but_watcher(*old(self)),
    {
        self.watcher.set_enabled(enabled);
    }

    pub fn restart_enabled(&self) -> (r: bool)
        ensures
            r == self.spec_watcher().spec_policy().enabled,
    {
        self.watcher.policy().enabled
    }

    // ---------------------------------------------------------------- start / stop

    /// The user pressed start. Refused (`false`, nothing changes) while a
    /// task is alive or on its way out, or a restart is queued: a second
    /// task would log the same account in twice. Otherwise the previous
    /// ending is forgotten, a manual stop is lifted, and the stage is the
    /// form again.
    pub fn prepare_start(&mut self) -> (r: bool)
        ensures
            r ==> final(self)@ == old(self)@.prepared(),
            r == old(self).spec_can_start(),
            !r ==> *final(self) == *old(self),
            r ==> final(self).spec_outcome() is None,
            r ==> !final(self).spec_manual_flag(),
            r ==> !final(self).spec_start_failed(),
            r ==> final(self).spec_stage() == STAGE_WIZARD,
            r && old(self).spec_watcher().spec_manually_stopped() ==> final(self).spec_watcher().spec_state() == RestartState::Idle && final(self).spec_watcher().spec_attempts() == 0 && final(self).spec_watcher().spec_policy().enabled
                == old(self).spec_watcher().spec_enabled_at_construction(),
            r && !old(self).spec_watcher().spec_manually_stopped() ==> final(self).spec_watcher()
                == old(self).spec_watcher(),
            final(self).spec_generation() == old(self).spec_generation(),
            final(self).spec_stopping() == old(self).spec_stopping(),
            final(self).spec_task_present() == old(self).spec_task_present(),
    {
        let ever_ran = self.generation > 0;
        if ever_ran && !self.task_finished() {
            return false;
        }
        if self.is_running() && !self.manual_stopped {
            return false;
        }
        if self.stopping && !self.task_finished() {
            return false;
        }
        if self.is_waiting_restart() {
            return false;
        }
        self.outcome = None;
        self.resume_restart();
        self.manual_stopped = false;
        self.start_failed = false;
        self.stage = STAGE_WIZARD;
        true
    }

    /// A start was attempted and failed (no password / no template).
    pub fn mark_start_failed(&mut self)
        ensures
            final(self)@ == (SessionModel { start_failed: true, ..old(self)@ }),
            final(self).spec_start_failed(),
            *final(self) == old(self).with_start_failed(),
    {
        self.start_failed = true;
    }

    pub closed spec fn with_start_failed(self) -> BotSession {
        BotSession { start_failed: true, ..self }
    }

    /// Will this session never move by itself again?
    pub fn is_settled(&self) -> (r: bool)
        ensures
            r == self.spec_settled(),
    {
        if self.never_started() {
            return true;
        }
        if self.start_failed {
            return true;
        }
        self.task_finished() && !self.is_waiting_restart()
    }

    pub fn start_failed(&self) -> (r: bool)
        ensures
            r == self.spec_start_failed(),
    {
        self.start_failed
    }

    /// The user pressed stop: restarts off, state `Stopped(Manual)`, the
    /// stale ending forgotten, and the session marked as on its way out
    /// until a new task is spawned. Returns whether it was active.
    pub fn mark_stopped_by_user(&mut self) -> (was_active: bool)
        ensures
            final(self)@ == old(self)@.stopped_by_user(),
            was_active == (old(self).spec_running() || old(self).spec_waiting()),
            final(self).spec_manual_flag(),
            final(self).spec_stopping(),
            final(self).spec_outcome() is None,
            final(self).spec_watcher().spec_manually_stopped(),
            !final(self).spec_watcher().spec_policy().enabled,
            final(self).spec_watcher().spec_attempts() == 0,
            final(self).spec_stage() == old(self).spec_stage(),
            final(self).spec_generation() == old(self).spec_generation(),
            final(self).spec_task_present() == old(self).spec_task_present(),
            final(self).spec_start_failed() == old(self).spec_start_failed(),
    {
        let was_active = self.is_running() || self.is_waiting_restart();
        self.manual_stopped = true;
        self.stopping = true;
        self.outcome = None;
        self.watcher.stop_manual();
        was_active
    }

    /// A new task is up: the "on its way out" latch is cleared.
    pub fn note_respawned(&mut self)
        ensures
            final(self)@ == (SessionModel { stopping: false, ..old(self)@ }),
            !final(self).spec_stopping(),
            *final(self) == old(self).with_stopping(false),
    {
        self.stopping = false;
    }

    pub closed spec fn with_stopping(self, b: bool) -> BotSession {
        BotSession { stopping: b, ..self }
    }

    pub fn is_stopping(&self) -> (r: bool)
        ensures
            r == self.spec_stopping(),
    {
        self.stopping
    }

    /// Records a manual stop as the reason of an ending that already
    /// happened (the quit is reported, then the manual state put back).
    pub fn note_manual_stop(&mut self, now: u64)
        ensures
            final(self).spec_watcher().spec_manually_stopped(),
            !final(self).spec_watcher().spec_policy().enabled,
            final(self).spec_watcher().spec_attempts() == 0,
    {
        self.watcher.on_exit(Some(RunOutcome::Quit), false, now);
        self.watcher.stop_manual();
    }

    /// Manual stop that keeps the back-off counter (a restart that could not
    /// be made).
    pub fn stop_manual_keep_attempts(&mut self)
        ensures
            final(self)@ == (SessionModel { manual_stopped: true, watcher: old(self)@.watcher.stopped_keep_attempts(), ..old(self)@ }),
            final(self).spec_manual_flag(),
            final(self).spec_watcher().spec_manually_stopped(),
            !final(self).spec_watcher().spec_policy().enabled,
            final(self).spec_watcher().spec_attempts() == old(self).spec_watcher().spec_attempts(),
            final(self).spec_stage() == old(self).spec_stage(),
            final(self).spec_outcome() == old(self).spec_outcome(),
            final(self).spec_generation() == old(self).spec_generation(),
            final(self).spec_start_failed() == old(self).spec_start_failed(),
            final(self).spec_stopping() == old(self).spec_stopping(),
            final(self).spec_task_present() == old(self).spec_task_present(),
            final(self).spec_template_password() == old(self).spec_template_password(),
    {
        self.manual_stopped = true;
        self.watcher.stop_manual_keep_attempts();
    }

    /// Lifts a manual stop (see [`Watcher::resume`]); returns whether it was
    /// one.
    pub fn resume_restart(&mut self) -> (r: bool)
        ensures
            r ==> final(self)@ == (SessionModel { manual_stopped: false, watcher: old(self)@.watcher.resumed(), ..old(self)@ }),
            !r ==> final(self)@ == old(self)@,
            r == old(self).spec_watcher().spec_manually_stopped(),
            r ==> !final(self).spec_manual_flag(),
            !r ==> final(self).spec_manual_flag() == old(self).spec_manual_flag(),
            !r ==> final(self).spec_watcher() == old(self).spec_watcher(),
            r ==> final(self).spec_watcher().spec_state() == RestartState::Idle,
            r ==> final(self).spec_watcher().spec_attempts() == 0,
            r ==> final(self).spec_watcher().spec_policy().enabled == old(self).spec_watcher().spec_enabled_at_construction(),
            final(self).spec_stage() == old(self).spec_stage(),
            final(self).spec_outcome() == old(self).spec_outcome(),
            final(self).spec_generation() == old(self).spec_generation(),
            final(self).spec_start_failed() == old(self).spec_start_failed(),
            final(self).spec_stopping() == old(self).spec_stopping(),
            final(self).spec_task_present() == old(self).spec_task_present(),
    {
        let r = self.watcher.resume();
        if r {
            self.manual_stopped = false;
        }
        r
    }

    /// A bot task exists for this session.
    pub fn has_task(&self) -> (r: bool)
        ensures
            r == self.spec_task_present(),
    {
        self.task_present
    }

    /// The task was spawned: the stage becomes `RUNNING` and a task exists.
    pub fn note_spawned(&mut self)
        ensures
            final(self)@ == (SessionModel { stage: STAGE_RUNNING, task_present: true, ..old(self)@ }),
            final(self).spec_stage() == STAGE_RUNNING,
            final(self).spec_task_present(),
            final(self).spec_generation() == old(self).spec_generation(),
            final(self).spec_watcher() == old(self).spec_watcher(),
            final(self).spec_stopping() == old(self).spec_stopping(),
            final(self).spec_manual_flag() == old(self).spec_manual_flag(),
            final(self).spec_start_failed() == old(self).spec_start_failed(),
            final(self).spec_outcome() == old(self).spec_outcome(),
    {
        self.stage = STAGE_RUNNING;
        self.task_present = true;
    }

    /// The task ended: the ending is recorded first, then the stage becomes
    /// `FINISHED` (so whoever sees `FINISHED` also sees why).
    pub fn finish_task(&mut self, outcome: RunOutcome, panicked: bool)
        ensures
            final(self)@ == (SessionModel {
                outcome: Some(outcome),
                stage: STAGE_FINISHED,
                panicked: old(self)@.panicked || panicked,
                ..old(self)@
            }),
            final(self).spec_outcome() == Some(outcome),
            final(self).spec_stage() == STAGE_FINISHED,
            panicked ==> final(self).spec_panicked(),
            !panicked ==> final(self).spec_panicked() == old(self).spec_panicked(),
            final(self).spec_watcher() == old(self).spec_watcher(),
            final(self).spec_generation() == old(self).spec_generation(),
            final(self).spec_stopping() == old(self).spec_stopping(),
            final(self).spec_manual_flag() == old(self).spec_manual_flag(),
            final(self).spec_start_failed() == old(self).spec_start_failed(),
            final(self).spec_task_present() == old(self).spec_task_present(),
    {
        if panicked {
            self.panicked = true;
        }
        self.outcome = Some(outcome);
        self.stage = STAGE_FINISHED;
    }

    /// Records how the last run ended, as the task's supervisor reported it
    /// (the stage is left alone).
    pub fn set_outcome(&mut self, outcome: Option<RunOutcome>)
        ensures
            final(self)@ == (SessionModel { outcome, ..old(self)@ }),
    {
        self.outcome = outcome;
    }

    /// Records whether the last task panicked.
    pub fn set_panicked(&mut self, panicked: bool)
        ensures
            final(self)@ == (SessionModel { panicked, ..old(self)@ }),
    {
        self.panicked = panicked;
    }

    /// Sets the stage directly (a front end that mirrors a shared stage flag).
    pub fn set_stage(&mut self, stage: u8)
        ensures
            final(self).spec_stage() == stage,
            *final(self) == old(self).with_stage(stage),
            final(self)@ == (SessionModel { stage, ..old(self)@ }),
    {
        self.stage = stage;
    }

    pub closed spec fn with_stage(self, stage: u8) -> BotSession {
        BotSession { stage, ..self }
    }

    /// The task has finished (`stage == FINISHED`).
    pub fn task_finished(&self) -> (r: bool)
        ensures
            r == self.spec_finished(),
    {
        self.stage == STAGE_FINISHED
    }

    /// Registers a finished task with the watcher; returns whether a restart
    /// was scheduled. Nothing happens while the task is not finished, and
    /// the watcher's own guards make repeated calls harmless.
    pub fn note_exit(&mut self, now: u64) -> (r: bool)
        ensures
            (final(self)@, r) == exit_step(old(self)@, now),
            !old(self).spec_finished() ==> !r && *final(self) == *old(self),
            old(self).spec_finished() ==> (final(self).spec_watcher(), r) == spec_on_exit(
                old(self).spec_watcher(),
                old(self).spec_outcome(),
                old(self).spec_panicked(),
                now,
            ),
            final(self).same_but_watcher(*old(self)),
    {
        if !self.task_finished() {
            return false;
        }
        let panicked = self.panicked;
        let outcome = self.outcome;
        self.watcher.on_exit(outcome, panicked, now)
    }

    /// Whether the pending restart is due (true once per window).
    pub fn poll_restart(&mut self, now: u64) -> (r: bool)
        ensures
            final(self)@ == old(self)@.with_watcher(spec_poll_ready(old(self)@.watcher, now).0),
            (final(self).spec_watcher(), r) == spec_poll_ready(old(self).spec_watcher(), now),
            final(self).same_but_watcher(*old(self)),
    {
        self.watcher.poll_ready(now)
    }

    /// Counts one respawn and hands out the password it must use: `None`
    /// when there is no template (the profile never loaded; respawning would
    /// only fail again). A non-empty `password` replaces the template's and
    /// is kept in the template. The previous run's traces are cleared (no
    /// task, no ending, not panicked, stage back to the form) and a fired
    /// restart window is cleared so the next ending can be registered.
    pub fn begin_respawn(&mut self, password: Option<&str>) -> (r: Option<String>)
        ensures
            old(self)@.template is Some ==> final(self)@ == old(self)@.respawned(opt_str_view(password)),
            old(self).spec_template_password() is None ==> r is None && *final(self) == *old(self),
            old(self).spec_template_password() is Some ==> {
                let pw = match password {
                    Some(p) => if p@.len() > 0 {
                        p@
                    } else {
                        old(self).spec_template_password()->0
                    },
                    None => old(self).spec_template_password()->0,
                };
                &&& r matches Some(x) && x@ == pw
                &&& final(self).spec_template_password() == Some(pw)
                &&& final(self).spec_generation() == old(self).spec_generation().saturating_add(1)
                &&& !final(self).spec_panicked()
                &&& !final(self).spec_task_present()
                &&& final(self).spec_outcome() is None
                &&& final(self).spec_stage() == STAGE_WIZARD
                &&& final(self).spec_watcher() == old(self).spec_watcher().fired_window_cleared()
                &&& final(self).spec_manual_flag() == old(self).spec_manual_flag()
                &&& final(self).spec_start_failed() == old(self).spec_start_failed()
                &&& final(self).spec_stopping() == old(self).spec_stopping()
            },
    {
        let mut t = match &self.template {
            Some(t) => SessionTemplate {
                ip: copy_str(t.ip.as_str()),
                port: t.port,
                account: copy_str(t.account.as_str()),
                password: copy_str(t.password.as_str()),
            },
            None => {
                return None;
            },
        };
        if let Some(p) = password {
            if !p.is_empty() {
                t.password = copy_str(p);
                self.template = Some(
                    SessionTemplate {
                        ip: copy_str(t.ip.as_str()),
                        port: t.port,
                        account: copy_str(t.account.as_str()),
                        password: copy_str(p),
                    },
                );
            }
        }
        self.generation = self.generation.saturating_add(1);
        self.panicked = false;
        self.task_present = false;
        self.outcome = None;
        self.stage = STAGE_WIZARD;
        self.watcher.rearm();
        Some(t.password)
    }

    /// Respawn and mark the task as started: one more generation, the
    /// password to log in with (a non-empty `password`, else the
    /// template's; kept in the template), the last run's traces cleared, a
    /// fresh command channel whose receiving end is returned. `None`, with
    /// nothing changed, when there is no template.
    pub fn relaunch(&mut self, password: Option<&str>) -> (r: Option<
        (String, tokio::sync::mpsc::Receiver<String>),
    >)
        ensures
            old(self)@.template is None ==> r is None && *final(self) == *old(self),
            old(self)@.template is Some ==> (r matches Some(x) && x.0@ == old(
                self,
            )@.respawn_password(opt_str_view(password))),
            old(self)@.template is Some ==> final(self)@.with_sender(old(self)@.sender) == old(
                self,
            )@.relaunched(opt_str_view(password)),
    {
        let p = match self.begin_respawn(password) {
            None => {
                return None;
            },
            Some(p) => p,
        };
        let (tx, rx) = new_cmd_channel(CMD_CHANNEL_CAP);
        self.cmd_tx = tx;
        self.note_spawned();
        Some((p, rx))
    }

    /// The user pressed start; `stored` is the credential store's password
    /// for this profile. Refused while a task is alive, on its way out or
    /// queued for a restart (the same account would log in twice). Without
    /// a usable password or a template the start fails and the session is
    /// left stopped and marked as a failed start. Otherwise the task is
    /// relaunched (see [`Self::relaunch`]) and the "on its way out" latch is
    /// cleared; the password and the receiving end are returned.
    pub fn start(&mut self, stored: Option<&str>) -> (r: Result<
        (String, tokio::sync::mpsc::Receiver<String>),
        String,
    >)
        ensures
            final(self)@.with_sender(old(self)@.sender) == start_step(
                old(self)@,
                opt_str_view(stored),
            ).0,
            match start_step(old(self)@, opt_str_view(stored)).1 {
                Ok(p) => r matches Ok(x) && x.0@ == p,
                Err(e) => r matches Err(m) && m@ == e && final(self)@.sender == old(self)@.sender,
            },
            !old(self)@.can_start() ==> *final(self) == *old(self),
    {
        if !self.prepare_start() {
            let mut msg = copy_str(self.profile.as_str());
            msg.append(": 已经在运行 (或在等重连)");
            return Err(msg);
        }
        let tpl_has = match &self.template {
            Some(t) => !t.password.as_str().is_empty(),
            None => false,
        };
        let stored_has = match stored {
            Some(p) => !p.is_empty(),
            None => false,
        };
        if !(tpl_has || stored_has) {
            self.stop_manual_keep_attempts();
            self.mark_start_failed();
            let mut msg = copy_str(self.profile.as_str());
            msg.append(": 没有可用密码 —— 选中它按 F4 补输, 或用 --password / 档案的 login.password / 凭据存储");
            return Err(msg);
        }
        match self.relaunch(stored) {
            None => {
                self.stop_manual_keep_attempts();
                self.mark_start_failed();
                let mut msg = copy_str(self.profile.as_str());
                msg.append(": 档案未能加载 (没有配置模板)");
                Err(msg)
            },
            Some(x) => {
                self.note_respawned();
                Ok(x)
            },
        }
    }

    /// The user pressed stop. A session that never started (and is neither
    /// running nor waiting) has nothing to stop: an error, nothing changes.
    /// Otherwise the stop is recorded (see [`Self::mark_stopped_by_user`])
    /// and, when a task exists, `quit` is sent to it; `Ok(true)` says the
    /// `quit` could not be queued (the task is stuck and must be aborted).
    /// Handing `quit` to the channel leaves no trace in the session that a
    /// contract could speak of, so the contract says only that a stuck
    /// report comes from a session with a task.
    pub fn stop(&mut self) -> (r: Result<bool, String>)
        ensures
            old(self)@.nothing_to_stop() ==> *final(self) == *old(self),
            old(self)@.nothing_to_stop() ==> (r matches Err(e) && e@ == old(self)@.profile
                + ": 本来就没在运行"@),
            !old(self)@.nothing_to_stop() ==> final(self)@ == old(self)@.stopped_by_user(),
            !old(self)@.nothing_to_stop() ==> (r matches Ok(stuck) && (stuck ==> old(
                self,
            )@.task_present)),
    {
        let nothing = self.never_started() && !self.is_running() && !self.is_waiting_restart();
        if nothing {
            let mut msg = copy_str(self.profile.as_str());
            msg.append(": 本来就没在运行");
            return Err(msg);
        }
        self.mark_stopped_by_user();
        let stuck = if self.task_present {
            match self.try_send("quit") {
                Ok(()) => false,
                Err(_) => true,
            }
        } else {
            false
        };
        Ok(stuck)
    }

    /// A due restart: polls the watcher and, when the window fires, either
    /// relaunches (password from `stored` or the template) or, without a
    /// template, switches restarting off.
    pub fn restart_if_due(&mut self, now: u64, stored: Option<&str>) -> (r: RestartStep)
        ensures
            final(self)@.with_sender(old(self)@.sender) == restart_step(
                old(self)@,
                now,
                opt_str_view(stored),
            ).0,
            !restart_step(old(self)@, now, opt_str_view(stored)).1 ==> r is NotDue,
            restart_step(old(self)@, now, opt_str_view(stored)).1 && restart_step(
                old(self)@,
                now,
                opt_str_view(stored),
            ).2 is None ==> r is NoTemplate,
            restart_step(old(self)@, now, opt_str_view(stored)).2 matches Some(p) ==> r matches RestartStep::Launched(pw, _) && pw@ == p,
            !(r is Launched) ==> final(self)@.sender == old(self)@.sender,
    {
        if !self.poll_restart(now) {
            return RestartStep::NotDue;
        }
        match self.relaunch(stored) {
            None => {
                self.set_restart_enabled(false);
                RestartStep::NoTemplate
            },
            Some((p, rx)) => RestartStep::Launched(p, rx),
        }
    }

    /// Manual restart: the back-off is reset; a finished task is relaunched
    /// (`Ok(Some(..))`), a task still running is left alone (`Ok(None)`),
    /// and without a template it is an error.
    pub fn manual_restart(&mut self, stored: Option<&str>) -> (r: Result<
        Option<(String, tokio::sync::mpsc::Receiver<String>)>,
        String,
    >)
        ensures
            final(self)@.with_sender(old(self)@.sender) == manual_restart_step(
                old(self)@,
                opt_str_view(stored),
            ).0,
            match manual_restart_step(old(self)@, opt_str_view(stored)).1 {
                Ok(Some(p)) => r matches Ok(Some(x)) && x.0@ == p,
                Ok(None) => r matches Ok(None) && final(self)@.sender == old(self)@.sender,
                Err(e) => r matches Err(m) && m@ == e && final(self)@.sender == old(self)@.sender,
            },
    {
        self.reset_watcher();
        if !self.task_finished() {
            return Ok(None);
        }
        match self.relaunch(stored) {
            None => {
                let mut msg = copy_str(self.profile.as_str());
                msg.append(": 档案未能加载");
                Err(msg)
            },
            Some(x) => Ok(Some(x)),
        }
    }

    /// Profile name of a path: its file stem, `"unknown"` when it has none.
    pub fn profile_from_path(path: &str) -> (name: String)
        ensures
            name@ == spec_profile_name(path@),
            forall|stem: Seq<char>| #[trigger] plain_profile_file(path@, stem) ==> name@ == stem,
    {
        match file_stem_of(path) {
            Some(s) => s,
            None => copy_str("unknown"),
        }
    }

    /// Queues a command for the bot without waiting; `Err` says why it could
    /// not be queued. Which answer comes depends on the bot's side.
    pub fn try_send(&self, cmd: &str) -> (r: Result<(), SendFailure>) {
        try_send_cmd(&self.cmd_tx, copy_str(cmd))
    }

    /// Queues a command for the bot. `Err` says why it could not be queued
    /// (full queue, or the bot is not running / has ended) -- never silently
    /// dropped.
    pub fn send(&self, cmd: &str) -> (r: Result<(), String>)
        ensures
            r matches Err(e) ==> e@ == failure_text(SendFailure::Full) || e@ == failure_text(
                SendFailure::Closed,
            ),
    {
        match self.try_send(cmd) {
            Ok(()) => Ok(()),
            Err(f) => Err(failure_message(f)),
        }
    }

    /// Points the session at a new command channel (after a respawn).
    pub fn replace_cmd_tx(&mut self, tx: tokio::sync::mpsc::Sender<String>)
        ensures
            *final(self) == old(self).with_sender(tx),
    {
        self.cmd_tx = tx;
    }

    /// The same session with another log position and page.
    pub closed spec fn with_view(self, scroll: usize, filter: u8) -> BotSession {
        BotSession { scroll, filter, ..self }
    }

    /// Keeps the log position and page the console leaves the session at.
    pub fn set_view(&mut self, scroll: usize, filter: u8)
        ensures
            *final(self) == old(self).with_view(scroll, filter),
    {
        self.scroll = scroll;
        self.filter = filter;
    }

    pub fn log_scroll(&self) -> (r: usize)
        ensures
            r == self.spec_scroll(),
    {
        self.scroll
    }

    pub fn log_filter(&self) -> (r: u8)
        ensures
            r == self.spec_filter(),
    {
        self.filter
    }

    /// Only the log position and page differ.
    pub proof fn lemma_with_view(self, scroll: usize, filter: u8)
        ensures
            self.with_view(scroll, filter)@ == (SessionModel { scroll, filter, ..self@ }),
    {
    }

    pub closed spec fn with_sender(self, tx: tokio::sync::mpsc::Sender<String>) -> BotSession {
        BotSession { cmd_tx: tx, ..self }
    }

    /// Another handle on the session's command channel.
    pub fn cmd_tx_handle(&self) -> tokio::sync::mpsc::Sender<String> {
        clone_sender(&self.cmd_tx)
    }

    pub fn is_running(&self) -> (r: bool)
        ensures
            r == self.spec_running(),
    {
        self.stage == STAGE_RUNNING
    }

    pub fn is_finished(&self) -> (r: bool)
        ensures
            r == self.spec_finished(),
    {
        self.stage == STAGE_FINISHED
    }

    /// How the last run ended (`None` while running / never ran).
    pub fn outcome(&self) -> (o: Option<RunOutcome>)
        ensures
            o == self.spec_outcome(),
    {
        self.outcome
    }

    /// Events dropped so far (queue overflow).
    pub fn dropped(&self) -> (n: u64)
        ensures
            n == self.spec_dropped(),
    {
        self.dropped_total
    }

    /// Records the event queue's cumulative drop count.
    pub fn set_dropped(&mut self, total: u64)
        ensures
            final(self).spec_dropped() == total,
    {
        self.dropped_total = total;
    }

    /// The profile name.
    pub fn name(&self) -> (r: &str)
        ensures
            r@ == self.spec_profile(),
    {
        self.profile.as_str()
    }

    /// The profile path chain.
    pub fn paths(&self) -> (r: &Vec<String>)
        ensures
            views_of(r@) == self.spec_config_paths(),
    {
        &self.config_paths
    }

    /// The stage value.
    pub fn stage(&self) -> (s: u8)
        ensures
            s == self.spec_stage(),
    {
        self.stage
    }
}

/// A session about to be opened: profile path, display name, remember flag.
#[derive(Debug, Clone, PartialEq, Eq)]
pub struct SessionSpec {
    pub config_path: String,
    /// Display name (defaults to the file stem).
    pub name: String,
    /// Whether the password is to be remembered.
    pub remember_password: bool,
}

impl SessionSpec {
    pub fn new(config_path: &str) -> (s: SessionSpec)
        ensures
            s.config_path@ == config_path@,
            s.name@ == spec_profile_name(config_path@),
            !s.remember_password,
    {
        SessionSpec {
            config_path: copy_str(config_path),
            name: BotSession::profile_from_path(config_path),
            remember_password: false,
        }
    }

    pub fn with_name(self, name: &str) -> (s: SessionSpec)
        ensures
            s.name@ == name@,
            s.config_path == self.config_path,
            s.remember_password == self.remember_password,
    {
        SessionSpec { name: copy_str(name), ..self }
    }

    pub fn remembering_password(self) -> (s: SessionSpec)
        ensures
            s.remember_password,
            s.name == self.name,
            s.config_path == self.config_path,
    {
        SessionSpec { remember_password: true, ..self }
    }
}

// ------------------------------------------------------------ laws

/// A start never creates a second task: while a task is alive, on its way
/// out, or a restart is queued, start changes nothing and answers an error.
pub proof fn law_start_refuses_an_active_session(m: SessionModel, stored: Option<Seq<char>>)
    requires
        m.waiting() || (m.running() && !m.manual_stopped) || (m.stopping && !m.finished()) || (
        m.generation > 0 && !m.finished()),
    ensures
        start_step(m, stored).0 == m,
        start_step(m, stored).1 is Err,
{
}

/// A start that cannot be made (no password, no template) leaves the
/// session stopped and settled, and no longer counted as never started:
/// nothing will move it any more until the user acts.
pub proof fn law_failed_start_settles(m: SessionModel, stored: Option<Seq<char>>)
    requires
        m.can_start(),
        start_step(m, stored).1 is Err,
    ensures
        start_step(m, stored).0.settled(),
        !start_step(m, stored).0.never_started(),
        start_step(m, stored).0.manually_stopped(),
        start_step(m, stored).0.start_failed,
{
    lemma_watcher_transitions(m.prepared().watcher, false);
}

/// A session the user stopped stays down: a later ending schedules nothing
/// and no restart ever fires for it.
pub proof fn law_stopped_session_stays_down(m: SessionModel, now: u64, stored: Option<Seq<char>>)
    ensures
        !exit_step(m.stopped_by_user(), now).1,
        exit_step(m.stopped_by_user(), now).0.manually_stopped(),
        !restart_step(m.stopped_by_user(), now, stored).1,
        restart_step(m.stopped_by_user(), now, stored).2 is None,
{
    let s = m.stopped_by_user();
    lemma_watcher_transitions(m.watcher, false);
    law_manual_stop_blocks_restarts(s.watcher, s.outcome, s.panicked, now);
    law_poll_needs_a_window(s.watcher, now);
}

/// Registering the same ending again (every frame) schedules nothing more
/// and does not move the deadline, as long as the window is fresh.
pub proof fn law_note_exit_is_idempotent(m: SessionModel, now: u64, t: u64)
    requires
        exit_step(m, now).1,
        now <= t,
        t < now.saturating_add(PENDING_WINDOW_STALE_MS),
    ensures
        exit_step(exit_step(m, now).0, t) == (exit_step(m, now).0, false),
{
    law_scheduled_window_ignores_repeated_reports(m.watcher, m.outcome, m.panicked, now, m.outcome, m.panicked, t);
}

/// Registering an ending and running a due restart neither read nor
/// change the session's command channel or its name.
pub proof fn lemma_round_steps_sender(
    m: SessionModel,
    now: u64,
    stored: Option<Seq<char>>,
    tx: tokio::sync::mpsc::Sender<String>,
)
    ensures
        exit_step(m.with_sender(tx), now) == (exit_step(m, now).0.with_sender(tx), exit_step(m, now).1),
        restart_step(m.with_sender(tx), now, stored) == (
            restart_step(m, now, stored).0.with_sender(tx),
            restart_step(m, now, stored).1,
            restart_step(m, now, stored).2,
        ),
        exit_step(m, now).0.sender == m.sender,
        exit_step(m, now).0.profile == m.profile,
        restart_step(m, now, stored).0.sender == m.sender,
        restart_step(m, now, stored).0.profile == m.profile,
{
    let mt = m.with_sender(tx);
    let (w, fire) = spec_poll_ready(m.watcher, now);
    assert(mt.with_watcher(w) == m.with_watcher(w).with_sender(tx));
    assert(mt.with_watcher(w).relaunched(stored) == m.with_watcher(w).relaunched(stored).with_sender(tx));
    assert(mt.with_watcher(w).with_watcher(w.with_enabled(false)) == m.with_watcher(w).with_watcher(
        w.with_enabled(false),
    ).with_sender(tx));
}

/// A round of automatic restarts (register the ending, then run a due
/// restart) settles at once: a second round at the same moment, with the
/// same stored password, neither changes the session nor schedules or
/// launches anything. The one exception is a finished session whose due
/// restart found no template (restarting is switched off then, and the
/// next round records that as its ending).
pub proof fn law_restart_round_settles(m: SessionModel, now: u64, stored: Option<Seq<char>>)
    requires
        !(m.finished() && m.template is None && restart_step(exit_step(m, now).0, now, stored).1),
    ensures
        ({
            let m1 = restart_step(exit_step(m, now).0, now, stored).0;
            &&& exit_step(m1, now) == (m1, false)
            &&& restart_step(m1, now, stored) == (m1, false, None::<Seq<char>>)
        }),
{
    let m0 = exit_step(m, now).0;
    let (w, fire) = spec_poll_ready(m0.watcher, now);
    lemma_poll_quiet(m0.watcher, now, false);
    lemma_poll_quiet(w, now, false);
    let m1 = restart_step(m, now, stored).0;
    if fire {
        law_window_fires_once(m0.watcher, now, now);
        if m0.with_watcher(w).template is None {
            lemma_watcher_transitions(w, false);
            assert(w.with_enabled(false).spec_is_fired());
        } else {
            let r = m0.with_watcher(w).relaunched(stored);
            assert(!r.watcher.spec_is_waiting());
            law_poll_needs_a_window(r.watcher, now);
        }
    } else {
        assert(m0.with_watcher(w) == m0);
        if m.finished() {
            lemma_exit_then_poll_settles(m.watcher, m.outcome, m.panicked, now);
        }
    }
}

/// `tokio::task::JoinError`, carried opaquely.
#[verifier::external_type_specification]
#[verifier::external_body]
pub struct ExJoinError(tokio::task::JoinError);

/// Whether the task ended by panicking (`JoinError::is_panic`; otherwise it
/// was cancelled).
#[verifier::external_body]
fn join_error_is_panic(e: &tokio::task::JoinError) -> bool {
    e.is_panic()
}

/// How a bot task ended, as its supervisor sees it.
#[derive(Debug, Clone, Copy, PartialEq, Eq, Structural)]
pub struct SupervisorResult {
    /// The ending (a panic or a cancellation counts as `Quit`: neither has
    /// a return value).
    pub outcome: RunOutcome,
    /// The task panicked (a crash must be told from a wanted quit: the one
    /// is restarted, the other never).
    pub panicked: bool,
}

/// The supervisor's reading of a finished task: a returned ending as it
/// is; a task without one (panicked or cancelled) as `Quit`, flagged when
/// it panicked.
pub fn classify_join(r: Result<RunOutcome, tokio::task::JoinError>) -> (s: SupervisorResult)
    ensures
        r matches Ok(o) ==> s == (SupervisorResult { outcome: o, panicked: false }),
        r is Err ==> s.outcome == RunOutcome::Quit,
{
    match r {
        Ok(o) => SupervisorResult { outcome: o, panicked: false },
        Err(e) => SupervisorResult { outcome: RunOutcome::Quit, panicked: join_error_is_panic(&e) },
    }
}

/// Records a finished task: its ending first, then the `FINISHED` stage,
/// so whoever sees the stage can also read the ending.
pub fn write_back(s: &mut BotSession, res: SupervisorResult)
    ensures
        final(s)@ == (SessionModel {
            outcome: Some(res.outcome),
            stage: STAGE_FINISHED,
            ..old(s)@
        }),
{
    s.set_outcome(Some(res.outcome));
    s.set_stage(STAGE_FINISHED);
}

} // verus!
