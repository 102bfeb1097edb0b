//! Crash supervision: decide, when a session ends, whether and when it is
//! brought back up.
//!
//! | how the session ended            | verdict        | handling                  |
//! |----------------------------------|----------------|---------------------------|
//! | task panic                       | crash          | restart with back-off     |
//! | `RunOutcome::Failed`             | auth / env     | never restart, flag it    |
//! | `RunOutcome::ConnectFailed`      | unreachable    | restart with back-off     |
//! | `RunOutcome::ConnectionClosed`   | disconnected   | restart with back-off     |
//! | `RunOutcome::Quit`               | user quit      | no restart                |
//! | `RunOutcome::DurationElapsed`    | timer ran out  | no restart                |
//!
//! Back-off is `5s -> 15s -> 45s`, at most three attempts; after that the
//! session is marked as given up. Only a manual restart clears the counter.
//!
//! This is a pure state machine: time is passed in by the caller as a count
//! of milliseconds on a monotonic clock, so every rule can be proved and
//! tested without a runtime.

use vstd::prelude::*;

verus! {

/// Default back-off ladder, in seconds.
pub const DEFAULT_BACKOFF_SECS: [u64; 3] = [5, 15, 45];

/// An armed window that never fired is considered abandoned after this many
/// milliseconds (longer than the longest default back-off step, 45 s).
pub const PENDING_WINDOW_STALE_MS: u64 = 60_000;

/// How a bot run ended (the engine's own result, without panics: a panicked
/// task has no return value and is reported separately).
#[derive(Debug, Clone, Copy, PartialEq, Eq, Structural)]
pub enum RunOutcome {
    /// The user asked the bot to quit.
    Quit,
    /// Login failed or reconnects were exhausted.
    Failed,
    /// The server could not be reached.
    ConnectFailed,
    /// The connection dropped.
    ConnectionClosed,
    /// The configured run duration elapsed.
    DurationElapsed,
}

/// Why a session ended, as far as restarting is concerned.
#[derive(Debug, Clone, Copy, PartialEq, Eq, Structural)]
pub enum ExitKind {
    /// User quit / duration elapsed.
    Normal,
    /// The task panicked.
    Panic,
    /// Login failed / reconnects exhausted: retrying cannot help.
    AuthFailed,
    /// Could not connect / connection lost: worth retrying.
    Disconnected,
    /// The user stopped this session from the console; it must stay down.
    Manual,
}

impl ExitKind {
    pub open spec fn spec_from_outcome(o: RunOutcome) -> ExitKind {
        match o {
            RunOutcome::Quit | RunOutcome::DurationElapsed => ExitKind::Normal,
            RunOutcome::Failed => ExitKind::AuthFailed,
            RunOutcome::ConnectFailed | RunOutcome::ConnectionClosed => ExitKind::Disconnected,
        }
    }

    /// Classifies the engine's result.
    pub fn from_outcome(o: RunOutcome) -> (k: ExitKind)
        ensures
            k == Self::spec_from_outcome(o),
    {
        match o {
            RunOutcome::Quit | RunOutcome::DurationElapsed => ExitKind::Normal,
            RunOutcome::Failed => ExitKind::AuthFailed,
            RunOutcome::ConnectFailed | RunOutcome::ConnectionClosed => ExitKind::Disconnected,
        }
    }

    pub open spec fn spec_should_restart(self) -> bool {
        self is Panic || self is Disconnected
    }

    /// Whether this kind of ending is worth an automatic restart.
    #[verifier::when_used_as_spec(spec_should_restart)]
    pub fn should_restart(self) -> (r: bool)
        ensures
            r == self.spec_should_restart(),
    {
        match self {
            ExitKind::Panic | ExitKind::Disconnected => true,
            _ => false,
        }
    }
}

/// Restart state of one session.
#[derive(Debug, Clone, Copy, PartialEq, Eq, Structural)]
pub enum RestartState {
    /// Nothing pending.
    Idle,
    /// Waiting for the back-off to elapse: `attempt` is the 1-based attempt
    /// number, `until` the deadline (ms), `fired` whether the window has
    /// already been handed to the caller.
    Waiting { attempt: u32, until: u64, fired: bool },
    /// Gave up after too many attempts.
    GivenUp { attempts: u32 },
    /// Must not be restarted.
    Stopped { kind: ExitKind },
}

/// Restart policy.
#[derive(Debug)]
pub struct RestartPolicy {
    pub enabled: bool,
    pub max_attempts: u32,
    /// Back-off ladder in seconds; the last entry is reused past its end.
    pub backoff_secs: Vec<u64>,
}

/// `secs` seconds as milliseconds, saturating at `u64::MAX`.
pub open spec fn secs_to_ms(secs: u64) -> u64 {
    if secs * 1000 > u64::MAX {
        u64::MAX
    } else {
        (secs * 1000) as u64
    }
}

/// The wait before the given 1-based attempt: the matching step of the
/// ladder (attempt 0 counts as 1, the last step repeats), 0 for an empty
/// ladder.
pub open spec fn spec_backoff_ms(ladder: Seq<u64>, attempt: u32) -> u64 {
    if ladder.len() == 0 {
        0
    } else {
        let want: int = if attempt == 0 { 0 } else { attempt - 1 };
        let idx: int = if want < ladder.len() - 1 { want } else { ladder.len() - 1 };
        secs_to_ms(ladder[idx])
    }
}

impl RestartPolicy {
    /// Enabled, three attempts, `5s -> 15s -> 45s`.
    pub fn default_policy() -> (p: RestartPolicy)
        ensures
            p.enabled,
            p.max_attempts == 3,
            p.backoff_secs@ == seq![5u64, 15u64, 45u64],
    {
        let mut v: Vec<u64> = Vec::new();
        v.push(DEFAULT_BACKOFF_SECS[0]);
        v.push(DEFAULT_BACKOFF_SECS[1]);
        v.push(DEFAULT_BACKOFF_SECS[2]);
        RestartPolicy { enabled: true, max_attempts: 3, backoff_secs: v }
    }

    /// The default policy with restarting switched off.
    pub fn disabled() -> (p: RestartPolicy)
        ensures
            !p.enabled,
            p.max_attempts == 3,
            p.backoff_secs@ == seq![5u64, 15u64, 45u64],
    {
        let mut p = Self::default_policy();
        p.enabled = false;
        p
    }

    /// An exact copy.
    pub fn duplicate(&self) -> (p: RestartPolicy)
        ensures
            p.enabled == self.enabled,
            p.max_attempts == self.max_attempts,
            p.backoff_secs@ == self.backoff_secs@,
    {
        let mut v: Vec<u64> = Vec::new();
        let n = self.backoff_secs.len();
        for i in 0..n
            invariant
                n == self.backoff_secs.len(),
                v@ == self.backoff_secs@.take(i as int),
        {
            v.push(self.backoff_secs[i]);
        }
        proof {
            assert(self.backoff_secs@.take(n as int) =~= self.backoff_secs@);
        }
        RestartPolicy { enabled: self.enabled, max_attempts: self.max_attempts, backoff_secs: v }
    }

    /// Milliseconds to wait before the given 1-based attempt.
    pub fn backoff_for(&self, attempt: u32) -> (ms: u64)
        ensures
            ms == spec_backoff_ms(self.backoff_secs@, attempt),
    {
        let n = self.backoff_secs.len();
        if n == 0 {
            return 0;
        }
        let want: usize = attempt.saturating_sub(1) as usize;
        let idx: usize = if want < n - 1 { want } else { n - 1 };
        let secs = self.backoff_secs[idx];
        if secs > u64::MAX / 1000 {
            u64::MAX
        } else {
            secs * 1000
        }
    }
}

/// Restart state machine of one session.
#[derive(Debug)]
pub struct Watcher {
    policy: RestartPolicy,
    state: RestartState,
    /// How many restarts have been scheduled in a row; drives the back-off
    /// step and giving up. It survives successful restarts (a session that
    /// keeps dropping must wait longer each time and finally give up); only
    /// a manual reset clears it.
    attempts: u32,
    /// Restarts handed out so far (diagnostics; saturates).
    total_restarts: u32,
    /// `policy.enabled` as constructed, restored by `resume`.
    enabled_at_construction: bool,
}

/// The state transition of [`Watcher::on_exit`]: `(next watcher, scheduled)`.
pub open spec fn spec_on_exit(
    w: Watcher,
    outcome: Option<RunOutcome>,
    panicked: bool,
    now: u64,
) -> (Watcher, bool) {
    if w.exit_blocked(now) {
        (w, false)
    } else {
        let w1 = w.fired_window_cleared();
        match outcome {
            None => (w1, false),
            Some(o) => w1.decide_exit(o, panicked, now),
        }
    }
}

/// The state transition of [`Watcher::poll_ready`]: `(next watcher, fire now)`.
pub closed spec fn spec_poll_ready(w: Watcher, now: u64) -> (Watcher, bool) {
    match w.state {
        RestartState::Waiting { attempt, until, fired } => {
            if fired || now < until {
                (w, false)
            } else {
                (
                    Watcher {
                        state: RestartState::Waiting { attempt, until, fired: true },
                        total_restarts: w.total_restarts.saturating_add(1),
                        ..w
                    },
                    true,
                )
            }
        },
        _ => (w, false),
    }
}

impl Watcher {
    pub closed spec fn spec_policy(self) -> RestartPolicy {
        self.policy
    }

    pub closed spec fn spec_state(self) -> RestartState {
        self.state
    }

    pub closed spec fn spec_attempts(self) -> u32 {
        self.attempts
    }

    pub closed spec fn spec_total_restarts(self) -> u32 {
        self.total_restarts
    }

    pub closed spec fn spec_enabled_at_construction(self) -> bool {
        self.enabled_at_construction
    }

    /// Same watcher with another restart state.
    pub closed spec fn with_state(self, s: RestartState) -> Watcher {
        Watcher { state: s, ..self }
    }

    /// Same watcher with restarts switched on or off.
    pub closed spec fn with_enabled(self, enabled: bool) -> Watcher {
        Watcher { policy: RestartPolicy { enabled, ..self.policy }, ..self }
    }

    /// What [`Watcher::stop_manual_keep_attempts`] leaves: `Stopped(Manual)`,
    /// restarts off, the counter kept.
    pub closed spec fn stopped_keep_attempts(self) -> Watcher {
        Watcher {
            state: RestartState::Stopped { kind: ExitKind::Manual },
            ..self.with_enabled(false)
        }
    }

    /// What [`Watcher::stop_manual`] leaves: as
    /// [`Self::stopped_keep_attempts`], with the counter cleared.
    pub closed spec fn stopped_manually(self) -> Watcher {
        Watcher { attempts: 0, ..self.stopped_keep_attempts() }
    }

    /// What [`Watcher::resume`] leaves after a manual stop: `Idle`, counter
    /// 0, `enabled` as constructed.
    pub closed spec fn resumed(self) -> Watcher {
        Watcher { state: RestartState::Idle, attempts: 0, ..self.with_enabled(self.enabled_at_construction) }
    }

    /// What [`Watcher::reset`] leaves: a manual stop is kept, anything else
    /// goes back to `Idle` with the counter cleared.
    pub open spec fn after_reset(self) -> Watcher {
        if self.spec_manually_stopped() {
            self
        } else {
            self.cleared_to_idle()
        }
    }

    /// State `Idle` and counter 0, everything else kept.
    pub closed spec fn cleared_to_idle(self) -> Watcher {
        Watcher { state: RestartState::Idle, attempts: 0, ..self }
    }

    /// An unfired window that is not yet stale, or a manual stop: the exit
    /// report is ignored entirely.
    pub open spec fn exit_blocked(self, now: u64) -> bool {
        match self.spec_state() {
            RestartState::Waiting { fired: false, until, .. } => now
                < until.saturating_add(PENDING_WINDOW_STALE_MS),
            RestartState::Stopped { kind: ExitKind::Manual } => true,
            _ => false,
        }
    }

    /// A fired window has done its job: it is cleared before the new verdict.
    pub open spec fn fired_window_cleared(self) -> Watcher {
        match self.spec_state() {
            RestartState::Waiting { fired: true, .. } => self.with_state(RestartState::Idle),
            _ => self,
        }
    }

    /// Verdict on a real ending.
    pub closed spec fn decide_exit(self, o: RunOutcome, panicked: bool, now: u64) -> (
        Watcher,
        bool,
    ) {
        let kind = if panicked {
            ExitKind::Panic
        } else {
            ExitKind::spec_from_outcome(o)
        };
        if !self.policy.enabled || !kind.spec_should_restart() {
            (Watcher { state: RestartState::Stopped { kind }, ..self }, false)
        } else if self.attempts >= self.policy.max_attempts {
            (Watcher { state: RestartState::GivenUp { attempts: self.attempts }, ..self }, false)
        } else {
            let a = (self.attempts + 1) as u32;
            (
                Watcher {
                    attempts: a,
                    state: RestartState::Waiting {
                        attempt: a,
                        until: now.saturating_add(
                            spec_backoff_ms(self.policy.backoff_secs@, a),
                        ),
                        fired: false,
                    },
                    ..self
                },
                true,
            )
        }
    }

    pub open spec fn spec_is_waiting(self) -> bool {
        self.spec_state() is Waiting
    }

    pub open spec fn spec_is_fired(self) -> bool {
        self.spec_state() matches RestartState::Waiting { fired: true, .. }
    }

    pub open spec fn spec_given_up(self) -> bool {
        self.spec_state() is GivenUp
    }

    pub open spec fn spec_manually_stopped(self) -> bool {
        self.spec_state() == (RestartState::Stopped { kind: ExitKind::Manual })
    }

    /// Given up, or stopped for any reason other than a normal or a manual
    /// stop.
    pub open spec fn spec_needs_attention(self) -> bool {
        match self.spec_state() {
            RestartState::GivenUp { .. } => true,
            RestartState::Stopped { kind } => !(kind is Normal || kind is Manual),
            _ => false,
        }
    }

    /// Time left before the pending restart, if one is waiting.
    pub open spec fn spec_remaining(self, now: u64) -> Option<u64> {
        match self.spec_state() {
            RestartState::Waiting { until, .. } => Some(until.saturating_sub(now)),
            _ => None,
        }
    }

    pub fn new(policy: RestartPolicy) -> (w: Watcher)
        ensures
            w.spec_state() == RestartState::Idle,
            w.spec_attempts() == 0,
            w.spec_total_restarts() == 0,
            w.spec_enabled_at_construction() == policy.enabled,
            w.spec_policy() == policy,
    {
        let e = policy.enabled;
        Watcher {
            enabled_at_construction: e,
            policy,
            state: RestartState::Idle,
            attempts: 0,
            total_restarts: 0,
        }
    }

    pub fn state(&self) -> (s: &RestartState)
        ensures
            *s == self.spec_state(),
    {
        &self.state
    }

    /// Restarts scheduled in a row (0 = never failed since the last reset).
    pub fn attempts(&self) -> (n: u32)
        ensures
            n == self.spec_attempts(),
    {
        self.attempts
    }

    pub fn policy(&self) -> (p: &RestartPolicy)
        ensures
            *p == self.spec_policy(),
    {
        &self.policy
    }

    /// Switches automatic restarts on or off; a pending window is kept.
    pub fn set_enabled(&mut self, enabled: bool)
        ensures
            *final(self) == old(self).with_enabled(enabled),
            final(self).spec_policy().enabled == enabled,
            final(self).spec_policy().max_attempts == old(self).spec_policy().max_attempts,
            final(self).spec_policy().backoff_secs == old(self).spec_policy().backoff_secs,
            final(self).spec_state() == old(self).spec_state(),
            final(self).spec_attempts() == old(self).spec_attempts(),
            final(self).spec_total_restarts() == old(self).spec_total_restarts(),
            final(self).spec_enabled_at_construction() == old(
                self,
            ).spec_enabled_at_construction(),
    {
        self.policy.enabled = enabled;
    }

    pub fn total_restarts(&self) -> (n: u32)
        ensures
            n == self.spec_total_restarts(),
    {
        self.total_restarts
    }

    /// Reports that the session ended. `outcome == None` means "nothing new",
    /// only the bookkeeping advances. `panicked` overrides the outcome.
    /// `now` is the current time in milliseconds. Returns whether a restart
    /// was scheduled.
    ///
    /// An unfired window swallows repeated reports until it turns stale, a
    /// fired window is cleared before the new verdict, and a manual stop
    /// ignores every report.
    pub fn on_exit(&mut self, outcome: Option<RunOutcome>, panicked: bool, now: u64) -> (r: bool)
        ensures
            (*final(self), r) == spec_on_exit(*old(self), outcome, panicked, now),
    {
        match self.state {
            RestartState::Waiting { fired: false, until, .. } => {
                if now < until.saturating_add(PENDING_WINDOW_STALE_MS) {
                    return false;
                }
            },
            RestartState::Waiting { fired: true, .. } => {
                self.state = RestartState::Idle;
            },
            RestartState::Stopped { kind: ExitKind::Manual } => {
                return false;
            },
            _ => {},
        }
        let o = match outcome {
            None => {
                return false;
            },
            Some(o) => o,
        };
        let kind = if panicked {
            ExitKind::Panic
        } else {
            ExitKind::from_outcome(o)
        };
        if !self.policy.enabled || !kind.should_restart() {
            self.state = RestartState::Stopped { kind };
            return false;
        }
        let done = self.attempts;
        if done >= self.policy.max_attempts {
            self.state = RestartState::GivenUp { attempts: done };
            return false;
        }
        let attempt = done + 1;
        self.attempts = attempt;
        let wait = self.policy.backoff_for(attempt);
        self.state = RestartState::Waiting { attempt, until: now.saturating_add(wait), fired: false };
        true
    }

    /// Whether the pending window is due; `true` is returned once per window.
    pub fn poll_ready(&mut self, now: u64) -> (r: bool)
        ensures
            (*final(self), r) == spec_poll_ready(*old(self), now),
    {
        match self.state {
            RestartState::Waiting { attempt, until, fired } => {
                if fired || now < until {
                    return false;
                }
                self.state = RestartState::Waiting { attempt, until, fired: true };
                self.total_restarts = self.total_restarts.saturating_add(1);
                true
            },
            _ => false,
        }
    }

    /// Time left before the pending restart (`None` when not waiting).
    pub fn remaining(&self, now: u64) -> (r: Option<u64>)
        ensures
            r == self.spec_remaining(now),
    {
        match self.state {
            RestartState::Waiting { until, .. } => Some(until.saturating_sub(now)),
            _ => None,
        }
    }

    /// Manual restart: counter back to 0, state `Idle` -- except a manual
    /// stop, which is kept as it is.
    pub fn reset(&mut self)
        ensures
            *final(self) == old(self).after_reset(),
            old(self).spec_manually_stopped() ==> *final(self) == *old(self),
            !old(self).spec_manually_stopped() ==> *final(self) == old(self).cleared_to_idle(),
    {
        if let RestartState::Stopped { kind: ExitKind::Manual } = self.state {
            return;
        }
        self.state = RestartState::Idle;
        self.attempts = 0;
    }

    /// The user stopped the session: restarts off, state `Stopped(Manual)`,
    /// counter cleared.
    pub fn stop_manual(&mut self)
        ensures
            *final(self) == old(self).stopped_manually(),
            final(self).spec_manually_stopped(),
            !final(self).spec_policy().enabled,
            final(self).spec_attempts() == 0,
            final(self).spec_policy().max_attempts == old(self).spec_policy().max_attempts,
            final(self).spec_policy().backoff_secs == old(self).spec_policy().backoff_secs,
            final(self).spec_total_restarts() == old(self).spec_total_restarts(),
            final(self).spec_enabled_at_construction() == old(
                self,
            ).spec_enabled_at_construction(),
    {
        self.stop_manual_keep_attempts();
        self.attempts = 0;
    }

    /// Like [`Self::stop_manual`] but keeps the counter (a failed restart).
    pub fn stop_manual_keep_attempts(&mut self)
        ensures
            *final(self) == old(self).stopped_keep_attempts(),
            final(self).spec_manually_stopped(),
            !final(self).spec_policy().enabled,
            final(self).spec_attempts() == old(self).spec_attempts(),
            final(self).spec_policy().max_attempts == old(self).spec_policy().max_attempts,
            final(self).spec_policy().backoff_secs == old(self).spec_policy().backoff_secs,
            final(self).spec_total_restarts() == old(self).spec_total_restarts(),
            final(self).spec_enabled_at_construction() == old(
                self,
            ).spec_enabled_at_construction(),
    {
        self.state = RestartState::Stopped { kind: ExitKind::Manual };
        self.policy.enabled = false;
    }

    /// Leaves a manual stop: state `Idle`, counter 0, and `enabled` back to the
    /// value the watcher was built with. Returns whether it was stopped
    /// manually (otherwise nothing changes).
    pub fn resume(&mut self) -> (r: bool)
        ensures
            r == old(self).spec_manually_stopped(),
            !r ==> *final(self) == *old(self),
            r ==> *final(self) == old(self).resumed(),
            r ==> final(self).spec_state() == RestartState::Idle,
            r ==> final(self).spec_attempts() == 0,
            r ==> final(self).spec_policy().enabled == old(self).spec_enabled_at_construction(),
            final(self).spec_policy().max_attempts == old(self).spec_policy().max_attempts,
            final(self).spec_policy().backoff_secs == old(self).spec_policy().backoff_secs,
            final(self).spec_total_restarts() == old(self).spec_total_restarts(),
            final(self).spec_enabled_at_construction() == old(
                self,
            ).spec_enabled_at_construction(),
    {
        match self.state {
            RestartState::Stopped { kind: ExitKind::Manual } => {},
            _ => {
                return false;
            },
        }
        self.state = RestartState::Idle;
        self.attempts = 0;
        self.policy.enabled = self.enabled_at_construction;
        true
    }

    pub fn is_manually_stopped(&self) -> (r: bool)
        ensures
            r == self.spec_manually_stopped(),
    {
        match self.state {
            RestartState::Stopped { kind: ExitKind::Manual } => true,
            _ => false,
        }
    }

    /// After the session really was restarted: a fired window is cleared so
    /// the next ending can be registered. Anything else is left alone.
    pub fn rearm(&mut self)
        ensures
            *final(self) == old(self).fired_window_cleared(),
    {
        if let RestartState::Waiting { fired: true, .. } = self.state {
            self.state = RestartState::Idle;
        }
    }

    pub fn is_waiting(&self) -> (r: bool)
        ensures
            r == self.spec_is_waiting(),
    {
        match self.state {
            RestartState::Waiting { .. } => true,
            _ => false,
        }
    }

    pub fn is_waiting_restart_fired(&self) -> (r: bool)
        ensures
            r == self.spec_is_fired(),
    {
        match self.state {
            RestartState::Waiting { fired: true, .. } => true,
            _ => false,
        }
    }

    pub fn given_up(&self) -> (r: bool)
        ensures
            r == self.spec_given_up(),
    {
        match self.state {
            RestartState::GivenUp { .. } => true,
            _ => false,
        }
    }

    /// Someone should look at this session: it gave up, or it stopped for a
    /// reason other than a normal quit or a manual stop.
    pub fn needs_attention(&self) -> (r: bool)
        ensures
            r == self.spec_needs_attention(),
    {
        match self.state {
            RestartState::GivenUp { .. } => true,
            RestartState::Stopped { kind } => match kind {
                ExitKind::Normal | ExitKind::Manual => false,
                _ => true,
            },
            _ => false,
        }
    }
}

/// The accessors of the closed transitions above.
pub proof fn lemma_watcher_transitions(w: Watcher, b: bool)
    ensures
        w.with_enabled(b).spec_policy().enabled == b,
        w.with_enabled(b).spec_state() == w.spec_state(),
        w.with_enabled(b).spec_attempts() == w.spec_attempts(),
        w.stopped_keep_attempts().spec_manually_stopped(),
        !w.stopped_keep_attempts().spec_policy().enabled,
        w.stopped_keep_attempts().spec_attempts() == w.spec_attempts(),
        w.stopped_manually().spec_manually_stopped(),
        !w.stopped_manually().spec_policy().enabled,
        w.stopped_manually().spec_attempts() == 0,
        w.resumed().spec_state() == RestartState::Idle,
        w.resumed().spec_attempts() == 0,
        w.resumed().spec_policy().enabled == w.spec_enabled_at_construction(),
        w.cleared_to_idle().spec_state() == RestartState::Idle,
        w.cleared_to_idle().spec_attempts() == 0,
        w.cleared_to_idle().spec_policy() == w.spec_policy(),
        w.cleared_to_idle().spec_total_restarts() == w.spec_total_restarts(),
        w.with_enabled(b).spec_total_restarts() == w.spec_total_restarts(),
        w.with_enabled(b).spec_policy().max_attempts == w.spec_policy().max_attempts,
        w.stopped_keep_attempts().spec_policy().max_attempts == w.spec_policy().max_attempts,
        w.stopped_manually().spec_policy().max_attempts == w.spec_policy().max_attempts,
        w.resumed().spec_policy().max_attempts == w.spec_policy().max_attempts,
        w.with_state(RestartState::Idle).spec_state() == RestartState::Idle,
        w.with_state(RestartState::Idle).spec_attempts() == w.spec_attempts(),
        w.with_state(RestartState::Idle).spec_total_restarts() == w.spec_total_restarts(),
        w.with_state(RestartState::Idle).spec_policy() == w.spec_policy(),
{
}

/// What an exit report leaves, field by field: the policy and the restart
/// total never change; a blocked report changes nothing; without an
/// outcome only a fired window is cleared; otherwise the watcher stops
/// (restarts off, or an ending that is not restarted), gives up (the
/// counter has reached `max_attempts`), or schedules the next attempt with
/// its back-off.
pub proof fn lemma_exit_fields(w: Watcher, o: Option<RunOutcome>, panicked: bool, now: u64)
    ensures
        ({
            let (w2, r) = spec_on_exit(w, o, panicked, now);
            let kind = if panicked {
                ExitKind::Panic
            } else {
                ExitKind::spec_from_outcome(o->0)
            };
            &&& w2.spec_policy() == w.spec_policy()
            &&& w2.spec_total_restarts() == w.spec_total_restarts()
            &&& w2.spec_enabled_at_construction() == w.spec_enabled_at_construction()
            &&& w.exit_blocked(now) ==> w2 == w && !r
            &&& (!w.exit_blocked(now) && o is None) ==> w2 == w.fired_window_cleared() && !r
                && w2.spec_attempts() == w.spec_attempts()
            &&& (!w.exit_blocked(now) && o is Some && (!w.spec_policy().enabled
                || !kind.spec_should_restart())) ==> !r && w2.spec_attempts() == w.spec_attempts()
                && w2.spec_state() == (RestartState::Stopped { kind })
            &&& (!w.exit_blocked(now) && o is Some && w.spec_policy().enabled
                && kind.spec_should_restart() && w.spec_attempts() >= w.spec_policy().max_attempts)
                ==> !r && w2.spec_attempts() == w.spec_attempts() && w2.spec_state() == (
            RestartState::GivenUp { attempts: w.spec_attempts() })
            &&& (!w.exit_blocked(now) && o is Some && w.spec_policy().enabled
                && kind.spec_should_restart() && w.spec_attempts() < w.spec_policy().max_attempts)
                ==> r && w2.spec_attempts() == w.spec_attempts() + 1 && w2.spec_state() == (
            RestartState::Waiting {
                attempt: w2.spec_attempts(),
                until: now.saturating_add(
                    spec_backoff_ms(w.spec_policy().backoff_secs@, w2.spec_attempts()),
                ),
                fired: false,
            })
        }),
{
}

/// What a poll leaves: it fires exactly when an unfired window's deadline
/// has come; then the window (same attempt, same deadline) is marked fired
/// and the restart total goes up by one (saturating); the counter and the
/// policy never change, and a poll that does not fire changes nothing.
pub proof fn lemma_poll_fields(w: Watcher, now: u64)
    ensures
        ({
            let (w2, r) = spec_poll_ready(w, now);
            &&& r == (w.spec_state() matches RestartState::Waiting { fired: false, until, .. } && now >= until)
            &&& r ==> (w.spec_state() matches RestartState::Waiting { attempt, until, .. } && w2.spec_state()
                == (RestartState::Waiting { attempt, until, fired: true }))
            &&& w2.spec_policy() == w.spec_policy()
            &&& w2.spec_attempts() == w.spec_attempts()
            &&& w2.spec_enabled_at_construction() == w.spec_enabled_at_construction()
            &&& r ==> w2.spec_total_restarts() == w.spec_total_restarts().saturating_add(1)
                && w2.spec_is_fired()
            &&& !r ==> w2 == w
        }),
{
}

/// A scheduled window that has not fired swallows every exit report until
/// it goes stale (the deadline plus [`PENDING_WINDOW_STALE_MS`]): the
/// report schedules nothing and the deadline is not pushed back, so
/// reporting the same ending every frame schedules one restart.
pub proof fn law_unfired_window_swallows_reports(
    w: Watcher,
    o: Option<RunOutcome>,
    panicked: bool,
    now: u64,
)
    requires
        w.spec_state() matches RestartState::Waiting { fired: false, until, .. } && until
            + PENDING_WINDOW_STALE_MS <= u64::MAX && now < until + PENDING_WINDOW_STALE_MS,
    ensures
        spec_on_exit(w, o, panicked, now) == (w, false),
{
}

/// One call on a watcher, for stating what a run of calls does.
pub enum WatcherCall {
    Exit(Option<RunOutcome>, bool, u64),
    Poll(u64),
    Rearm,
    SetEnabled(bool),
    StopKeepingAttempts,
}

/// The watcher after one call, and whether the call scheduled a restart.
pub open spec fn after_call(w: Watcher, c: WatcherCall) -> (Watcher, bool) {
    match c {
        WatcherCall::Exit(o, p, now) => spec_on_exit(w, o, p, now),
        WatcherCall::Poll(now) => (spec_poll_ready(w, now).0, false),
        WatcherCall::Rearm => (w.fired_window_cleared(), false),
        WatcherCall::SetEnabled(b) => (w.with_enabled(b), false),
        WatcherCall::StopKeepingAttempts => (w.stopped_keep_attempts(), false),
    }
}

/// The watcher after a run of calls, and how many exits scheduled a restart.
pub open spec fn after_calls(w: Watcher, cs: Seq<WatcherCall>) -> (Watcher, nat)
    decreases cs.len(),
{
    if cs.len() == 0 {
        (w, 0)
    } else {
        let (w1, n) = after_calls(w, cs.drop_last());
        let (w2, r) = after_call(w1, cs.last());
        (w2, n + if r { 1nat } else { 0nat })
    }
}

/// Restarts are bounded over any run of calls without a reset, resume or
/// manual stop: the counter grows by exactly the number of scheduled
/// restarts and never passes `max_attempts`, so a fresh watcher schedules
/// at most `max_attempts` of them.
pub proof fn law_restarts_are_bounded_over_runs(w: Watcher, cs: Seq<WatcherCall>)
    requires
        w.spec_attempts() <= w.spec_policy().max_attempts,
    ensures
        after_calls(w, cs).0.spec_policy().max_attempts == w.spec_policy().max_attempts,
        after_calls(w, cs).0.spec_attempts() == w.spec_attempts() + after_calls(w, cs).1,
        after_calls(w, cs).0.spec_attempts() <= w.spec_policy().max_attempts,
        after_calls(w, cs).1 <= w.spec_policy().max_attempts - w.spec_attempts(),
    decreases cs.len(),
{
    if cs.len() > 0 {
        law_restarts_are_bounded_over_runs(w, cs.drop_last());
        let w1 = after_calls(w, cs.drop_last()).0;
        match cs.last() {
            WatcherCall::Exit(o, p, now) => {
                lemma_exit_fields(w1, o, p, now);
            },
            WatcherCall::Poll(now) => {
                lemma_poll_fields(w1, now);
            },
            _ => {},
        }
    }
}

/// A failed login (or exhausted reconnects) is never restarted automatically;
/// unless the report is swallowed by a pending window or a manual stop, the
/// session ends up `Stopped(AuthFailed)` and asks for attention.
pub proof fn law_auth_failure_is_never_restarted(w: Watcher, now: u64)
    ensures
        !spec_on_exit(w, Some(RunOutcome::Failed), false, now).1,
        !w.exit_blocked(now) ==> spec_on_exit(w, Some(RunOutcome::Failed), false, now).0.spec_state()
            == (RestartState::Stopped { kind: ExitKind::AuthFailed }),
        !w.exit_blocked(now) ==> spec_on_exit(
            w,
            Some(RunOutcome::Failed),
            false,
            now,
        ).0.spec_needs_attention(),
{
}

/// A normal ending (quit, duration elapsed) is never restarted and never asks
/// for attention.
pub proof fn law_normal_exit_is_never_restarted(w: Watcher, o: RunOutcome, now: u64)
    requires
        o == RunOutcome::Quit || o == RunOutcome::DurationElapsed,
    ensures
        !spec_on_exit(w, Some(o), false, now).1,
        !w.exit_blocked(now) ==> spec_on_exit(w, Some(o), false, now).0.spec_state()
            == (RestartState::Stopped { kind: ExitKind::Normal }),
        !w.exit_blocked(now) ==> !spec_on_exit(w, Some(o), false, now).0.spec_needs_attention(),
{
}

/// Restarts are bounded: scheduling one bumps the counter by exactly one and
/// never past `max_attempts`; once the counter has reached `max_attempts`, a
/// restartable ending gives up instead.
pub proof fn law_restarts_are_bounded(
    w: Watcher,
    o: Option<RunOutcome>,
    panicked: bool,
    now: u64,
)
    ensures
        spec_on_exit(w, o, panicked, now).1 ==> spec_on_exit(w, o, panicked, now).0.spec_attempts()
            == w.spec_attempts() + 1,
        spec_on_exit(w, o, panicked, now).1 ==> spec_on_exit(w, o, panicked, now).0.spec_attempts()
            <= w.spec_policy().max_attempts,
        spec_on_exit(w, o, panicked, now).1 ==> spec_on_exit(
            w,
            o,
            panicked,
            now,
        ).0.spec_state() matches RestartState::Waiting { fired: false, .. },
        (!w.exit_blocked(now) && o is Some && w.spec_policy().enabled && (panicked
            || ExitKind::spec_from_outcome(o->0).spec_should_restart()) && w.spec_attempts()
            >= w.spec_policy().max_attempts) ==> spec_on_exit(
            w,
            o,
            panicked,
            now,
        ).0.spec_given_up(),
{
}

/// A manual stop wins over every later ending: nothing is scheduled and the
/// watcher does not change.
pub proof fn law_manual_stop_blocks_restarts(
    w: Watcher,
    o: Option<RunOutcome>,
    panicked: bool,
    now: u64,
)
    requires
        w.spec_manually_stopped(),
    ensures
        spec_on_exit(w, o, panicked, now) == (w, false),
{
}

/// Once a restart is scheduled, further reports within the stale period are
/// ignored: polling the exit every frame cannot push the window back.
pub proof fn law_scheduled_window_ignores_repeated_reports(
    w: Watcher,
    o: Option<RunOutcome>,
    panicked: bool,
    now: u64,
    o2: Option<RunOutcome>,
    panicked2: bool,
    t: u64,
)
    requires
        spec_on_exit(w, o, panicked, now).1,
        now <= t,
        t < now.saturating_add(PENDING_WINDOW_STALE_MS),
    ensures
        spec_on_exit(spec_on_exit(w, o, panicked, now).0, o2, panicked2, t) == (
            spec_on_exit(w, o, panicked, now).0,
            false,
        ),
{
}

/// A due window fires exactly once: after a `true`, polling again (at any
/// time) answers `false` until the window is cleared.
pub proof fn law_window_fires_once(w: Watcher, t1: u64, t2: u64)
    requires
        spec_poll_ready(w, t1).1,
    ensures
        !spec_poll_ready(spec_poll_ready(w, t1).0, t2).1,
        spec_poll_ready(w, t1).0.spec_attempts() == w.spec_attempts(),
        spec_poll_ready(w, t1).0.spec_is_fired(),
{
}

/// Polling a watcher that is not waiting does nothing.
pub proof fn law_poll_needs_a_window(w: Watcher, t: u64)
    requires
        !w.spec_is_waiting(),
    ensures
        spec_poll_ready(w, t) == (w, false),
{
}

/// Polling never fires before the deadline.
pub proof fn law_no_fire_before_deadline(w: Watcher, t: u64)
    requires
        w.spec_state() matches RestartState::Waiting { until, .. } && t < until,
    ensures
        spec_poll_ready(w, t) == (w, false),
{
}

/// A poll that does not fire leaves the watcher as it was, and a window
/// already handed out is never handed out again, whatever the policy says.
pub proof fn lemma_poll_quiet(w: Watcher, t: u64, b: bool)
    ensures
        !spec_poll_ready(w, t).1 ==> spec_poll_ready(w, t).0 == w,
        w.spec_is_fired() ==> spec_poll_ready(w, t) == (w, false),
        w.spec_is_fired() ==> spec_poll_ready(w.with_enabled(b), t) == (w.with_enabled(b), false),
        w.spec_is_fired() ==> !w.fired_window_cleared().spec_is_waiting(),
{
}

/// Reporting an ending and polling at the same moment settles: when the
/// poll does not fire, reporting the same ending again at that moment
/// changes nothing and schedules nothing.
pub proof fn lemma_exit_then_poll_settles(w: Watcher, o: Option<RunOutcome>, panicked: bool, now: u64)
    ensures
        ({
            let w1 = spec_on_exit(w, o, panicked, now).0;
            !spec_poll_ready(w1, now).1 ==> spec_on_exit(w1, o, panicked, now) == (w1, false)
        }),
{
    let w1 = spec_on_exit(w, o, panicked, now).0;
    if !spec_poll_ready(w1, now).1 {
        if !w.exit_blocked(now) {
            let c = w.fired_window_cleared();
            assert(c.fired_window_cleared() == c);
            match o {
                None => {},
                Some(x) => {
                    let kind = if panicked {
                        ExitKind::Panic
                    } else {
                        ExitKind::spec_from_outcome(x)
                    };
                    if !c.policy.enabled || !kind.spec_should_restart() {
                        assert(w1.fired_window_cleared() == w1);
                    } else if c.attempts >= c.policy.max_attempts {
                        assert(w1.fired_window_cleared() == w1);
                    } else {
                        assert(w1.exit_blocked(now));
                    }
                },
            }
        }
    }
}

} // verus!

pub use crate::counters::RestartCounters;
