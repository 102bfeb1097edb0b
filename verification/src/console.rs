//! The console's screen state and what keys, mouse wheel and the bot's
//! snapshot do to it.
//!
//! The front end owns the terminal, the log buffers and the bots' tasks; it
//! hands this module key presses and snapshots and carries out the
//! [`Effect`]s that come back (send a command line, log a line, compute
//! completions, run a session request ...).

use vstd::prelude::*;

use crate::keys::{KeyCode, KeyInput};
use crate::sessions::{BuiltinModel, SessionSet, Target, TargetModel};
use crate::sessions::Builtin;
use crate::session::{STAGE_FINISHED, STAGE_RUNNING, STAGE_WIZARD};
use crate::text::{copy_str, decimal, decimal_string};
use crate::watcher::RunOutcome;
use crate::wizard::{Wizard, WizardResult};

verus! {

// ------------------------------------------------------------------ bot data

/// The log categories of the bot's events (the order of the filter tabs).
#[derive(Clone, Copy, PartialEq, Eq, Debug, Structural)]
pub enum Category {
    Chat,
    Notice,
    Npc,
    Hunt,
    Cmd,
    View,
    Rule,
    Group,
    Task,
    Packet,
    System,
    Error,
}

/// Where the bot is in its login / play cycle.
#[derive(Clone, Copy, PartialEq, Eq, Debug, Structural)]
pub enum Phase {
    Disconnected,
    Connecting,
    LoggingIn,
    GenderPick,
    WorldSelect,
    CharSelect,
    EnteringMap,
    InGame,
    CashShop,
}

impl Phase {
    /// Short name of the phase (the account list is narrow).
    pub fn short_name(self) -> (s: &'static str)
        ensures
            s@ == phase_short(self),
    {
        match self {
            Phase::Disconnected => "未连接",
            Phase::Connecting => "连接中",
            Phase::LoggingIn => "登录中",
            Phase::GenderPick => "选性别",
            Phase::WorldSelect => "选世界",
            Phase::CharSelect => "选角色",
            Phase::EnteringMap => "进图中",
            Phase::InGame => "游戏中",
            Phase::CashShop => "商城",
        }
    }
}

pub open spec fn phase_short(p: Phase) -> Seq<char> {
    match p {
        Phase::Disconnected => "未连接"@,
        Phase::Connecting => "连接中"@,
        Phase::LoggingIn => "登录中"@,
        Phase::GenderPick => "选性别"@,
        Phase::WorldSelect => "选世界"@,
        Phase::CharSelect => "选角色"@,
        Phase::EnteringMap => "进图中"@,
        Phase::InGame => "游戏中"@,
        Phase::CashShop => "商城"@,
    }
}

/// What the console reads from the bot's state snapshot.
#[derive(Debug, Clone)]
pub struct SnapView {
    pub phase: Phase,
    /// Channel count of each world of the world list.
    pub world_channels: Vec<u32>,
    /// Number of characters on the character list.
    pub characters: usize,
    /// Ids of the options of the NPC dialog page.
    pub npc_options: Vec<i32>,
    /// Bumped by the bot for each new NPC dialog page.
    pub npc_options_seq: u64,
    /// Item ids of the open shop's list.
    pub shop_items: Vec<i32>,
    /// Bumped by the bot for each new shop list.
    pub shop_seq: u64,
    pub shop_open: bool,
    /// Inventory slots: `(tab, slot, item id, quantity)`; tab 1 is equipment.
    pub inventory: Vec<(u8, i16, i32, i16)>,
    /// A scripted task holds the bot (its task stack is not empty).
    pub task_busy: bool,
}

impl SnapView {
    /// The snapshot of a bot that has not reported anything yet.
    pub fn empty() -> (s: SnapView)
        ensures
            s.phase == Phase::Disconnected,
            s.world_channels@.len() == 0,
            s.characters == 0,
            s.npc_options@.len() == 0,
            s.npc_options_seq == 0,
            s.shop_items@.len() == 0,
            s.shop_seq == 0,
            !s.shop_open,
            s.inventory@.len() == 0,
            !s.task_busy,
    {
        SnapView {
            phase: Phase::Disconnected,
            world_channels: Vec::new(),
            characters: 0,
            npc_options: Vec::new(),
            npc_options_seq: 0,
            shop_items: Vec::new(),
            shop_seq: 0,
            shop_open: false,
            inventory: Vec::new(),
            task_busy: false,
        }
    }
}

// ------------------------------------------------------------------ filter

/// The log page shown: everything, one category, or the status page.
#[derive(Clone, Copy, PartialEq, Eq, Debug, Structural)]
pub enum Filter {
    All,
    Cat(Category),
    /// The runtime state and configuration of the bot (diagnostics).
    Status,
}

/// The number of log pages.
pub const FILTER_COUNT: u8 = 14;

/// The page at position `code` of the tab order (`All`, the categories in
/// declaration order, `Status`); `All` past the end.
pub open spec fn filter_at(code: int) -> Filter {
    if code == 0 {
        Filter::All
    } else if code == 1 {
        Filter::Cat(Category::Chat)
    } else if code == 2 {
        Filter::Cat(Category::Notice)
    } else if code == 3 {
        Filter::Cat(Category::Npc)
    } else if code == 4 {
        Filter::Cat(Category::Hunt)
    } else if code == 5 {
        Filter::Cat(Category::Cmd)
    } else if code == 6 {
        Filter::Cat(Category::View)
    } else if code == 7 {
        Filter::Cat(Category::Rule)
    } else if code == 8 {
        Filter::Cat(Category::Group)
    } else if code == 9 {
        Filter::Cat(Category::Task)
    } else if code == 10 {
        Filter::Cat(Category::Packet)
    } else if code == 11 {
        Filter::Cat(Category::System)
    } else if code == 12 {
        Filter::Cat(Category::Error)
    } else if code == 13 {
        Filter::Status
    } else {
        Filter::All
    }
}

/// The position of a page in the tab order.
pub open spec fn filter_pos(f: Filter) -> u8 {
    match f {
        Filter::All => 0,
        Filter::Cat(c) => match c {
            Category::Chat => 1,
            Category::Notice => 2,
            Category::Npc => 3,
            Category::Hunt => 4,
            Category::Cmd => 5,
            Category::View => 6,
            Category::Rule => 7,
            Category::Group => 8,
            Category::Task => 9,
            Category::Packet => 10,
            Category::System => 11,
            Category::Error => 12,
        },
        Filter::Status => 13,
    }
}

impl Filter {
    /// Whether a log line of category `c` shows on this page: every line
    /// on `All` and on the status page, only its own on a category page.
    pub fn shows(self, c: Category) -> (r: bool)
        ensures
            r == match self {
                Filter::Cat(k) => k == c,
                _ => true,
            },
    {
        match self {
            Filter::Cat(k) => k == c,
            _ => true,
        }
    }

    /// The category shown (none for `All` and the status page).
    pub fn cat(self) -> (c: Option<Category>)
        ensures
            c == match self {
                Filter::Cat(k) => Some(k),
                _ => None::<Category>,
            },
    {
        match self {
            Filter::All => None,
            Filter::Cat(c) => Some(c),
            Filter::Status => None,
        }
    }

    /// The position in the tab order (stored per session).
    pub fn code(self) -> (c: u8)
        ensures
            c == filter_pos(self),
            c < FILTER_COUNT,
    {
        match self {
            Filter::All => 0,
            Filter::Cat(c) => match c {
                Category::Chat => 1,
                Category::Notice => 2,
                Category::Npc => 3,
                Category::Hunt => 4,
                Category::Cmd => 5,
                Category::View => 6,
                Category::Rule => 7,
                Category::Group => 8,
                Category::Task => 9,
                Category::Packet => 10,
                Category::System => 11,
                Category::Error => 12,
            },
            Filter::Status => 13,
        }
    }

    /// The page at a position; out of range gives `All`.
    pub fn from_code(code: u8) -> (f: Filter)
        ensures
            f == filter_at(code as int),
    {
        if code == 0 {
            Filter::All
        } else if code == 1 {
            Filter::Cat(Category::Chat)
        } else if code == 2 {
            Filter::Cat(Category::Notice)
        } else if code == 3 {
            Filter::Cat(Category::Npc)
        } else if code == 4 {
            Filter::Cat(Category::Hunt)
        } else if code == 5 {
            Filter::Cat(Category::Cmd)
        } else if code == 6 {
            Filter::Cat(Category::View)
        } else if code == 7 {
            Filter::Cat(Category::Rule)
        } else if code == 8 {
            Filter::Cat(Category::Group)
        } else if code == 9 {
            Filter::Cat(Category::Task)
        } else if code == 10 {
            Filter::Cat(Category::Packet)
        } else if code == 11 {
            Filter::Cat(Category::System)
        } else if code == 12 {
            Filter::Cat(Category::Error)
        } else if code == 13 {
            Filter::Status
        } else {
            Filter::All
        }
    }

    /// The next page, wrapping around.
    pub fn next(self) -> (f: Filter)
        ensures
            f == filter_at((filter_pos(self) + 1) % (FILTER_COUNT as int)),
    {
        let c = self.code();
        Filter::from_code((c + 1) % FILTER_COUNT)
    }

    /// The previous page, wrapping around.
    pub fn prev(self) -> (f: Filter)
        ensures
            f == filter_at((filter_pos(self) + FILTER_COUNT - 1) % (FILTER_COUNT as int)),
    {
        let c = self.code();
        Filter::from_code((c + FILTER_COUNT - 1) % FILTER_COUNT)
    }
}

/// Each page comes back to itself: the position of the page at a position
/// is that position.
pub proof fn law_filter_code_round_trip(code: u8)
    requires
        code < FILTER_COUNT,
    ensures
        filter_pos(filter_at(code as int)) == code,
{
}

/// `next` and `prev` undo each other.
pub proof fn law_filter_next_prev(f: Filter)
    ensures
        filter_at((filter_pos(filter_at((filter_pos(f) + 1) % (FILTER_COUNT as int))) + FILTER_COUNT - 1)
            % (FILTER_COUNT as int)) == f,
        filter_at((filter_pos(filter_at((filter_pos(f) + FILTER_COUNT - 1) % (FILTER_COUNT as int))) + 1)
            % (FILTER_COUNT as int)) == f,
{
}


// ------------------------------------------------------------------ picker

/// The login-phase chooser the console shows over the log.
#[derive(Clone, Copy, PartialEq, Eq, Debug, Structural)]
pub enum Picker {
    /// No chooser is shown.
    Closed,
    Gender { sel: usize },
    World { sel: usize },
    /// The channel of world `world`.
    Channel { world: usize, sel: usize },
    Char { sel: usize },
}

// ------------------------------------------------------------------ effects

/// How a log line is filed: an informational or error line of the console
/// itself, or the echo of a command.
#[derive(Clone, Copy, PartialEq, Eq, Debug, Structural)]
pub enum LogKind {
    Info,
    Failure,
    Cmd,
}

/// What to do once the completions of the input are known (see
/// [`App::set_completions`]).
#[derive(Clone, Copy, PartialEq, Eq, Debug, Structural)]
pub enum CompleteThen {
    /// Only show them.
    Show,
    /// Put the first one into the input.
    First,
    /// Put the last one into the input.
    Last,
}

/// A session operation a key or a command line asked for; the front end
/// runs it with [`App::run_request`] (it needs the credential store).
#[derive(Debug)]
pub enum Request {
    /// F3: restart the selected session now.
    ManualRestart,
    /// F4 or a bare `start`: start the selected session, or stop it.
    Toggle,
    /// A console command on the selected session (or on the set).
    OnSelected(Builtin),
    /// `@target start` / `@target stop`.
    Batch(Target, Builtin),
    /// The login form opened for the selected session was submitted.
    ApplyWizard(WizardResult),
}

/// The plain value of a login form's result.
pub open spec fn result_view(r: WizardResult) -> (Seq<char>, u16, Seq<char>, Seq<char>, Seq<char>) {
    (r.ip@, r.port, r.account@, r.password@, r.aes_key@)
}

pub enum RequestView {
    ManualRestart,
    Toggle,
    OnSelected(BuiltinModel),
    Batch(TargetModel, BuiltinModel),
    ApplyWizard((Seq<char>, u16, Seq<char>, Seq<char>, Seq<char>)),
}

impl View for Request {
    type V = RequestView;

    open spec fn view(&self) -> RequestView {
        match self {
            Request::ManualRestart => RequestView::ManualRestart,
            Request::Toggle => RequestView::Toggle,
            Request::OnSelected(b) => RequestView::OnSelected(b@),
            Request::Batch(t, b) => RequestView::Batch(t@, b@),
            Request::ApplyWizard(r) => RequestView::ApplyWizard(result_view(*r)),
        }
    }
}

/// Work for the front end.
pub enum Effect {
    /// Queue this line on the selected bot's command channel.
    Send(String),
    /// Append a line to the visible log.
    Log(LogKind, String),
    /// Append a line to the log of session `i`.
    Note(usize, LogKind, String),
    /// Empty the visible log.
    ClearLog,
    /// Compute the completions of the input and hand them to
    /// [`App::set_completions`] with this.
    Complete(CompleteThen),
    /// The login form was submitted: hand its result to the main thread.
    Submitted(WizardResult),
    /// The selection changed: refresh the view of the selected session.
    Sync,
    /// Run this with [`App::run_request`].
    Request(Request),
    /// Start this bot task.
    Launch(crate::sessions::Launch),
    /// Abort the task of session `i` (it did not take `quit`).
    Abort(usize),
    /// The main thread must not respawn anything for this submit of the form.
    LoginApplied,
    /// Count this restart error.
    CountError(String),
    /// Count one automatic respawn.
    CountSpawn,
    /// Check and read the profile file, then call [`App::finish_add_profile`].
    LoadProfile(String),
    /// Session `i` left the set (its log goes with it); the flag says
    /// whether its log was the one shown.
    Removed(usize, bool),
    /// Sessions alive went from the first number to the second.
    KeepAlive(usize, usize),
    /// Every session is done: the program may end.
    AllDone,
}

/// An effect as plain values. A launch is seen as its session and password:
/// the command channel's receiving end it carries is an opaque value of the
/// channel crate, with nothing in it to state.
pub enum EffectView {
    Send(Seq<char>),
    Log(LogKind, Seq<char>),
    Note(usize, LogKind, Seq<char>),
    ClearLog,
    Complete(CompleteThen),
    Submitted((Seq<char>, u16, Seq<char>, Seq<char>, Seq<char>)),
    Sync,
    Request(RequestView),
    Launch(usize, Seq<char>),
    Abort(usize),
    LoginApplied,
    CountError(Seq<char>),
    CountSpawn,
    LoadProfile(Seq<char>),
    Removed(usize, bool),
    KeepAlive(usize, usize),
    AllDone,
}

impl View for Effect {
    type V = EffectView;

    open spec fn view(&self) -> EffectView {
        match self {
            Effect::Send(s) => EffectView::Send(s@),
            Effect::Log(k, s) => EffectView::Log(*k, s@),
            Effect::Note(i, k, s) => EffectView::Note(*i, *k, s@),
            Effect::ClearLog => EffectView::ClearLog,
            Effect::Complete(t) => EffectView::Complete(*t),
            Effect::Submitted(r) => EffectView::Submitted(result_view(*r)),
            Effect::Sync => EffectView::Sync,
            Effect::Request(r) => EffectView::Request(r@),
            Effect::Launch(l) => EffectView::Launch(l.index, l.password@),
            Effect::Abort(i) => EffectView::Abort(*i),
            Effect::LoginApplied => EffectView::LoginApplied,
            Effect::CountError(s) => EffectView::CountError(s@),
            Effect::CountSpawn => EffectView::CountSpawn,
            Effect::LoadProfile(s) => EffectView::LoadProfile(s@),
            Effect::Removed(i, b) => EffectView::Removed(*i, *b),
            Effect::KeepAlive(a, b) => EffectView::KeepAlive(*a, *b),
            Effect::AllDone => EffectView::AllDone,
        }
    }
}

/// The plain values of a list of effects.
pub open spec fn fx_views(v: Seq<Effect>) -> Seq<EffectView> {
    v.map_values(|e: Effect| e@)
}

// ------------------------------------------------------------------ state

/// Completion candidates of the input: `(command, description)`, and the
/// highlighted one.
#[derive(Debug)]
pub struct CompState {
    pub candidates: Vec<(String, String)>,
    pub idx: usize,
}

impl CompState {
    pub fn empty() -> (c: CompState)
        ensures
            c.candidates@.len() == 0,
            c.idx == 0,
    {
        CompState { candidates: Vec::new(), idx: 0 }
    }
}

/// Input history kept at most.
pub const HISTORY_CAP: usize = 200;

/// The console's screen state.
pub struct App {
    /// `STAGE_WIZARD` (login form), `STAGE_RUNNING`, `STAGE_FINISHED`.
    pub stage: u8,
    /// Started without complete credentials: the login form and the login
    /// choosers are used.
    pub interactive: bool,
    /// The login values the form was first filled with
    /// `(ip, port, account, password, aes key)`.
    pub login_initial: (String, u16, String, String, String),
    /// Log scroll offset (0 = stuck to the bottom).
    pub scroll: usize,
    pub filter: Filter,
    /// The command line being typed and the cursor in it (in characters).
    pub input: String,
    pub cursor: usize,
    /// Lines entered, oldest first.
    pub history: Vec<String>,
    /// `Some(k)`: the input shows the `k`-th newest history line.
    pub hist: Option<usize>,
    /// The line being typed when history browsing began.
    pub draft: String,
    pub comp: CompState,
    pub snap: SnapView,
    pub wizard: Option<Wizard>,
    /// The profile the login form was opened for (`None`: the form of the
    /// single-session start).
    pub wizard_target: Option<String>,
    pub picker: Picker,
    pub help_open: bool,
    pub help_scroll: usize,
    pub bag_open: bool,
    pub bag_scroll: usize,
    /// Inventory page: 0 all, 1..=5 one tab.
    pub bag_panel: usize,
    pub bag_cursor: usize,
    /// 0: `Enter` sells the selected slot; 1: every slot of that item.
    pub bag_mode: u8,
    /// NPC option chooser enabled (`npmenu on|off`).
    pub npmenu: bool,
    pub npc_pick_open: bool,
    pub npc_pick_cursor: usize,
    pub npc_pick_scroll: usize,
    /// The NPC dialog page already handled.
    pub npc_seen_seq: u64,
    /// Shop chooser enabled (`shop menu on|off`).
    pub shop_menu: bool,
    pub shop_pick_open: bool,
    pub shop_pick_cursor: usize,
    pub shop_pick_scroll: usize,
    /// The shop list already handled.
    pub shop_seen_seq: u64,
    /// Quantity typed in the shop chooser.
    pub shop_qty: String,
    /// Events dropped by the selected session's queue.
    pub dropped: u64,
    /// Something changed: draw again.
    pub dirty: bool,
    /// When Ctrl+C was last pressed (milliseconds).
    pub ctrl_c: Option<u64>,
    pub force_quit: bool,
    pub board_open: bool,
    pub board_scroll: usize,
    /// The sessions (`None`: the single-session console).
    pub sessions: Option<SessionSet>,
    pub show_sidebar: bool,
    /// The console runs the bots' tasks itself (it can start, stop and
    /// restart sessions).
    pub has_runtime: bool,
    /// Sessions alive at the last restart round.
    pub last_live: usize,
    /// The session whose log position and page the console shows.
    pub synced: Option<usize>,
}

impl App {
    /// The states the console keeps to: a history position within the
    /// history, the cursor within the input, a valid inventory page, the
    /// highlighted completion within the list, a channel chooser index that
    /// can be counted from one.
    pub open spec fn wf(&self) -> bool {
        &&& (self.hist matches Some(k) ==> 1 <= k <= self.history@.len())
        &&& self.cursor <= self.input@.len()
        &&& self.bag_panel < 6
        &&& (self.comp.candidates@.len() > 0 ==> self.comp.idx < self.comp.candidates@.len())
        &&& (self.picker matches Picker::Channel { sel, .. } ==> sel < usize::MAX)
    }

    /// A console as the program starts it: the login form when
    /// `interactive`, else straight at the running stage; both choosers
    /// enabled.
    pub fn new(interactive: bool, ip: String, port: u16, account: String, password: String, aes_key: String) -> (a: App)
        ensures
            a.wf(),
            a.stage == if interactive { STAGE_WIZARD } else { STAGE_RUNNING },
            a.interactive == interactive,
            interactive ==> (a.wizard matches Some(w) && w@.ip == ip@ && w@.port == decimal(port as nat)
                && w@.account == account@ && w@.password == password@ && w@.aes_key == aes_key@
                && w@.result is None),
            !interactive ==> a.wizard is None,
            a.login_initial.0@ == ip@ && a.login_initial.1 == port && a.login_initial.2@ == account@
                && a.login_initial.3@ == password@ && a.login_initial.4@ == aes_key@,
            a.wizard_target is None,
            a.scroll == 0,
            a.filter == Filter::All,
            a.input@.len() == 0,
            a.cursor == 0,
            a.history@.len() == 0,
            a.hist is None,
            a.comp.candidates@.len() == 0,
            a.picker == Picker::Closed,
            !a.help_open && !a.bag_open && !a.board_open,
            a.npmenu && a.shop_menu,
            !a.npc_pick_open && !a.shop_pick_open,
            a.npc_seen_seq == 0 && a.shop_seen_seq == 0,
            a.shop_qty@.len() == 0,
            a.dirty,
            a.ctrl_c is None,
            !a.force_quit,
            a.sessions is None,
            !a.show_sidebar,
            !a.has_runtime,
    {
        let wizard = if interactive {
            Some(
                Wizard::new(
                    copy_str(ip.as_str()),
                    port,
                    copy_str(account.as_str()),
                    copy_str(password.as_str()),
                    copy_str(aes_key.as_str()),
                ),
            )
        } else {
            None
        };
        App {
            stage: if interactive {
                STAGE_WIZARD
            } else {
                STAGE_RUNNING
            },
            interactive,
            login_initial: (ip, port, account, password, aes_key),
            scroll: 0,
            filter: Filter::All,
            input: String::new(),
            cursor: 0,
            history: Vec::new(),
            hist: None,
            draft: String::new(),
            comp: CompState::empty(),
            snap: SnapView::empty(),
            wizard,
            wizard_target: None,
            picker: Picker::Closed,
            help_open: false,
            help_scroll: 0,
            bag_open: false,
            bag_scroll: 0,
            bag_panel: 0,
            bag_cursor: 0,
            bag_mode: 0,
            npmenu: true,
            npc_pick_open: false,
            npc_pick_cursor: 0,
            npc_pick_scroll: 0,
            npc_seen_seq: 0,
            shop_menu: true,
            shop_pick_open: false,
            shop_pick_cursor: 0,
            shop_pick_scroll: 0,
            shop_seen_seq: 0,
            shop_qty: String::new(),
            dropped: 0,
            dirty: true,
            ctrl_c: None,
            force_quit: false,
            board_open: false,
            board_scroll: 0,
            sessions: None,
            show_sidebar: false,
            has_runtime: false,
            last_live: 0,
            synced: None,
        }
    }
}


// ------------------------------------------------------------------ numbers

/// `v - k`, stopping at zero.
#[verifier::opaque]
pub open spec fn sat_sub(v: usize, k: usize) -> usize {
    if v >= k {
        (v - k) as usize
    } else {
        0
    }
}

/// `v + k`, stopping at `usize::MAX`.
#[verifier::opaque]
pub open spec fn sat_add(v: usize, k: usize) -> usize {
    if v + k <= usize::MAX {
        (v + k) as usize
    } else {
        usize::MAX
    }
}

/// `v - k`, stopping at zero.
fn ssub(v: usize, k: usize) -> (r: usize)
    ensures
        r == sat_sub(v, k),
{
    proof {
        reveal(sat_sub);
    }
    if v >= k {
        v - k
    } else {
        0
    }
}

/// `v + k`, stopping at `usize::MAX`.
fn sadd(v: usize, k: usize) -> (r: usize)
    ensures
        r == sat_add(v, k),
{
    proof {
        reveal(sat_add);
    }
    if v <= usize::MAX - k {
        v + k
    } else {
        usize::MAX
    }
}

/// Decimal text of a signed number.
pub open spec fn signed_decimal(n: int) -> Seq<char> {
    if n < 0 {
        "-"@ + decimal((-n) as nat)
    } else {
        decimal(n as nat)
    }
}

/// The decimal text of `n`, with a minus sign when negative.
pub fn signed_string(n: i64) -> (s: String)
    ensures
        s@ == signed_decimal(n as int),
{
    if n < 0 {
        let mut s = copy_str("-");
        let m: u64 = if n == i64::MIN {
            9223372036854775808u64
        } else {
            (-n) as u64
        };
        let d = decimal_string(m);
        s.append(d.as_str());
        s
    } else {
        decimal_string(n as u64)
    }
}

/// One step through `n` entries, wrapping around: back when `up`, else
/// forward.
#[verifier::opaque]
pub open spec fn cycled(c: usize, up: bool, n: usize) -> usize {
    if up {
        ((c + n - 1) % (n as int)) as usize
    } else {
        ((c + 1) % (n as int)) as usize
    }
}

fn cycle(c: usize, up: bool, n: usize) -> (r: usize)
    requires
        n > 0,
    ensures
        r == cycled(c, up, n),
        r < n,
{
    proof {
        reveal(cycled);
    }
    let m: u128 = if up {
        (c as u128 + n as u128 - 1) % (n as u128)
    } else {
        (c as u128 + 1) % (n as u128)
    };
    m as usize
}

// ------------------------------------------------------------------ bag

/// The inventory slots shown on page `panel` (page 0 shows them all; a
/// page past 5 counts as 5).
pub open spec fn bag_items_of(inv: Seq<(u8, i16, i32, i16)>, panel: usize) -> Seq<(u8, i16, i32, i16)>
    decreases inv.len(),
{
    if inv.len() == 0 {
        inv
    } else {
        let p = if panel < 5 {
            panel
        } else {
            5
        };
        let rest = bag_items_of(inv.drop_last(), panel);
        if p == 0 || inv.last().0 == p {
            rest.push(inv.last())
        } else {
            rest
        }
    }
}

/// The larger of a quantity and one.
pub open spec fn at_least_one(q: i16) -> i16 {
    if q < 1 {
        1
    } else {
        q
    }
}

pub open spec fn drop_cmd(it: (u8, i16, i32, i16)) -> Seq<char> {
    "drop "@ + signed_decimal(it.2 as int) + " "@ + signed_decimal(at_least_one(it.3) as int) + " slot "@
        + signed_decimal(it.1 as int)
}

pub open spec fn equip_cmd(it: (u8, i16, i32, i16)) -> Seq<char> {
    "equip "@ + signed_decimal(it.2 as int)
}

pub open spec fn sell_cmd(it: (u8, i16, i32, i16), mode: u8) -> Seq<char> {
    if mode == 1 {
        "sell "@ + signed_decimal(it.2 as int) + " 0"@
    } else {
        "sell "@ + signed_decimal(it.2 as int) + " "@ + signed_decimal(at_least_one(it.3) as int)
            + " slot "@ + signed_decimal(it.1 as int)
    }
}

/// A command and its echo in the log.
pub open spec fn send_echo(cmd: Seq<char>) -> Seq<EffectView> {
    seq![EffectView::Send(cmd), EffectView::Log(LogKind::Cmd, "> "@ + cmd)]
}

/// The bag page's row of the cursor kept visible (20 rows, two items a
/// row, two header rows).
#[verifier::opaque]
pub open spec fn followed_scroll(cursor: usize, scroll: usize) -> usize {
    let row = 2 + cursor / 2;
    if row >= scroll + 20 {
        (row - 20 + 1) as usize
    } else if row < scroll {
        row as usize
    } else {
        scroll
    }
}

fn follow(cursor: usize, scroll: usize) -> (r: usize)
    ensures
        r == followed_scroll(cursor, scroll),
{
    proof {
        reveal(followed_scroll);
    }
    let row = 2 + cursor / 2;
    if row >= 20 && row - 20 >= scroll {
        row - 20 + 1
    } else if row < scroll {
        row
    } else {
        scroll
    }
}

/// The cursor kept on an item: at most the last one.
#[verifier::opaque]
pub open spec fn clamped_cursor(cursor: usize, n: nat) -> usize {
    if cursor >= n {
        if n == 0 {
            0
        } else {
            (n - 1) as usize
        }
    } else {
        cursor
    }
}

fn clamp_cursor(cursor: usize, n: usize) -> (r: usize)
    ensures
        r == clamped_cursor(cursor, n as nat),
{
    proof {
        reveal(clamped_cursor);
    }
    if cursor >= n {
        if n == 0 {
            0
        } else {
            n - 1
        }
    } else {
        cursor
    }
}

// ------------------------------------------------------------------ shop

/// What `str::parse::<i32>` accepts: an optional sign, then at least one
/// ASCII digit, with a value in range.
pub open spec fn spec_parse_i32(s: Seq<char>) -> Option<i32> {
    let neg = s.len() > 0 && s[0] == '-';
    let d = if s.len() > 0 && (s[0] == '+' || s[0] == '-') {
        s.drop_first()
    } else {
        s
    };
    if d.len() > 0 && crate::wizard::all_digits(d) {
        let v: int = if neg {
            -crate::wizard::digits_value(d)
        } else {
            crate::wizard::digits_value(d) as int
        };
        if i32::MIN <= v <= i32::MAX {
            Some(v as i32)
        } else {
            None
        }
    } else {
        None
    }
}

/// `str::parse::<i32>`, errors mapped to `None`: an optional sign, then the
/// digits.
fn parse_i32(s: &str) -> (r: Option<i32>)
    ensures
        r == spec_parse_i32(s@),
{
    let v = crate::text::chars_of(s);
    let signed = v.len() > 0 && (v[0] == '+' || v[0] == '-');
    let neg = v.len() > 0 && v[0] == '-';
    let start: usize = if signed { 1 } else { 0 };
    proof {
        if signed {
            assert(v@.skip(1) =~= v@.drop_first());
        } else {
            assert(v@.skip(0) =~= v@);
        }
    }
    let limit: u64 = if neg { 2147483648 } else { 2147483647 };
    match crate::wizard::digits_at_most(&v, start, limit) {
        Some(x) => {
            if neg {
                Some((0i64 - x as i64) as i32)
            } else {
                Some(x as i32)
            }
        },
        None => None,
    }
}

/// The quantity bought: the typed number (one when there is none), kept
/// within 1..=9999.
pub open spec fn buy_qty(typed: Seq<char>) -> int {
    let q: int = match spec_parse_i32(typed) {
        Some(v) => v as int,
        None => 1,
    };
    if q < 1 {
        1
    } else if q > 9999 {
        9999
    } else {
        q
    }
}

pub open spec fn buy_cmd(item: i32, typed: Seq<char>) -> Seq<char> {
    "buy "@ + signed_decimal(item as int) + " "@ + decimal(buy_qty(typed) as nat)
}

// ------------------------------------------------------------------ picker

/// Entries of the chooser: 2 genders, the worlds, the chosen world's
/// channels, the characters (at least one each).
pub open spec fn picker_len(p: Picker, snap: SnapView) -> int {
    match p {
        Picker::Gender { .. } => 2,
        Picker::World { .. } => if snap.world_channels@.len() > 0 {
            snap.world_channels@.len() as int
        } else {
            1
        },
        Picker::Channel { world, .. } => if world < snap.world_channels@.len()
            && snap.world_channels@[world as int] > 0 {
            snap.world_channels@[world as int] as int
        } else {
            1
        },
        Picker::Char { .. } => if snap.characters > 0 {
            snap.characters as int
        } else {
            1
        },
        Picker::Closed => 1,
    }
}

/// The chooser one step back (`up`) or forward, wrapping around.
pub open spec fn picker_moved(p: Picker, snap: SnapView, up: bool) -> Picker {
    let n = picker_len(p, snap);
    let f = |sel: usize|
        if up {
            ((sel + n - 1) % n) as usize
        } else {
            ((sel + 1 + n) % n) as usize
        };
    match p {
        Picker::Gender { sel } => Picker::Gender { sel: f(sel) },
        Picker::World { sel } => Picker::World { sel: f(sel) },
        Picker::Channel { world, sel } => Picker::Channel { world, sel: f(sel) },
        Picker::Char { sel } => Picker::Char { sel: f(sel) },
        Picker::Closed => Picker::Closed,
    }
}

/// Confirming the chooser: the command sent, and the chooser after.
pub open spec fn picker_confirmed(p: Picker) -> (Option<Seq<char>>, Picker) {
    match p {
        Picker::Gender { sel } => (Some("login gender "@ + decimal(sel as nat)), p),
        Picker::World { sel } => (None, Picker::Channel { world: sel, sel: 0 }),
        Picker::Channel { world, sel } => (
            Some("login world "@ + decimal(world as nat) + " "@ + decimal((sel + 1) as nat)),
            p,
        ),
        Picker::Char { sel } => (Some("login char "@ + decimal(sel as nat)), p),
        Picker::Closed => (None, p),
    }
}

/// The text of Ctrl+C's first press in the log.
pub open spec fn ctrl_c_note() -> Seq<char> {
    "> [Ctrl+C] 发送 quit …"@
}

/// Mouse wheel.
#[derive(Clone, Copy, PartialEq, Eq, Debug, Structural)]
pub enum Wheel {
    Up,
    Down,
    /// Any other mouse event.
    Other,
}


// ------------------------------------------------------------------ overlays

/// The inventory page after a key: `Esc` closes it, `Tab`/`BackTab` turn
/// the page, the arrows move the cursor (kept on an item and in view), `m`
/// switches the selling mode; `d`, `e` and `Enter` act (see [`bag_fx`]).
pub open spec fn bag_next(a: App, b: App, code: KeyCode) -> bool {
    match code {
        KeyCode::Esc => b == App { bag_open: false, dirty: true, ..a },
        KeyCode::Tab => b == App {
            bag_panel: ((a.bag_panel + 1) % 6) as usize,
            bag_scroll: 0,
            bag_cursor: 0,
            dirty: true,
            ..a
        },
        KeyCode::BackTab => b == App {
            bag_panel: ((a.bag_panel + 5) % 6) as usize,
            bag_scroll: 0,
            bag_cursor: 0,
            dirty: true,
            ..a
        },
        KeyCode::Up => {
            let c = sat_sub(a.bag_cursor, 1);
            b == App { bag_cursor: c, bag_scroll: followed_scroll(c, a.bag_scroll), dirty: true, ..a }
        },
        KeyCode::Down => {
            let c = clamped_cursor(sat_add(a.bag_cursor, 1), bag_items_of(a.snap.inventory@, a.bag_panel).len());
            b == App { bag_cursor: c, bag_scroll: followed_scroll(c, a.bag_scroll), dirty: true, ..a }
        },
        KeyCode::Char(c) => if c == 'm' {
            b == App { bag_mode: a.bag_mode ^ 1u8, dirty: true, ..a }
        } else if c == 'd' || c == 'D' || c == 'e' || c == 'E' {
            b == App { dirty: true, ..a }
        } else {
            b == a
        },
        KeyCode::Enter => b == App { dirty: true, ..a },
        _ => b == a,
    }
}

/// The slot under the inventory cursor, if any.
pub open spec fn bag_slot(a: App) -> Option<(u8, i16, i32, i16)> {
    let items = bag_items_of(a.snap.inventory@, a.bag_panel);
    if a.bag_cursor < items.len() {
        Some(items[a.bag_cursor as int])
    } else {
        None
    }
}

/// What a key on the inventory page asks for: `d` drops the slot under the
/// cursor, `e` wears it (equipment only), `Enter` sells it (or every slot
/// of the item in the second mode) when a shop is open.
pub open spec fn bag_fx(a: App, code: KeyCode) -> Seq<EffectView> {
    match code {
        KeyCode::Char(c) => if c == 'd' || c == 'D' {
            match bag_slot(a) {
                Some(it) => send_echo(drop_cmd(it)),
                None => seq![],
            }
        } else if c == 'e' || c == 'E' {
            match bag_slot(a) {
                Some(it) => if it.0 != 1 {
                    seq![EffectView::Log(LogKind::Info, "[bag] 仅装备栏物品可穿 (切换到 装备 面板)"@)]
                } else {
                    send_echo(equip_cmd(it))
                },
                None => seq![],
            }
        } else {
            seq![]
        },
        KeyCode::Enter => if !a.snap.shop_open {
            seq![EffectView::Log(LogKind::Info, "[bag] 商店未打开, 无法卖出 (先 npc 打开商店)"@)]
        } else {
            match bag_slot(a) {
                Some(it) => send_echo(sell_cmd(it, a.bag_mode)),
                None => seq![],
            }
        },
        _ => seq![],
    }
}

/// The board page after a key: `Esc`/F2 close it; the page keys and the
/// arrows scroll it (8 rows a page).
pub open spec fn board_next(a: App, b: App, code: KeyCode) -> bool {
    match code {
        KeyCode::Esc | KeyCode::F(2) => b == App { board_open: false, dirty: true, ..a },
        KeyCode::PageUp => b == App { board_scroll: sat_sub(a.board_scroll, 8), dirty: true, ..a },
        KeyCode::PageDown => b == App { board_scroll: sat_add(a.board_scroll, 8), dirty: true, ..a },
        KeyCode::Up => b == App { board_scroll: sat_sub(a.board_scroll, 1), dirty: true, ..a },
        KeyCode::Down => b == App { board_scroll: sat_add(a.board_scroll, 1), dirty: true, ..a },
        _ => b == a,
    }
}

/// The help page after a key: `Esc`/F1 close it; the page keys and the
/// arrows scroll it.
pub open spec fn help_next(a: App, b: App, code: KeyCode) -> bool {
    match code {
        KeyCode::Esc | KeyCode::F(1) => b == App { help_open: false, dirty: true, ..a },
        KeyCode::PageUp => b == App { help_scroll: sat_sub(a.help_scroll, 8), dirty: true, ..a },
        KeyCode::PageDown => b == App { help_scroll: sat_add(a.help_scroll, 8), dirty: true, ..a },
        KeyCode::Up => b == App { help_scroll: sat_sub(a.help_scroll, 1), dirty: true, ..a },
        KeyCode::Down => b == App { help_scroll: sat_add(a.help_scroll, 1), dirty: true, ..a },
        _ => b == a,
    }
}

/// A second Ctrl+C within a second of the first.
pub open spec fn ctrl_c_again(a: App, now: u64) -> bool {
    a.ctrl_c matches Some(t) && (if now >= t { now - t } else { 0 }) < 1000
}

/// Ctrl+C: a second press within a second quits; otherwise the bot is
/// asked to quit and the press is remembered.
pub open spec fn ctrl_c_next(a: App, b: App, now: u64, fx: Seq<EffectView>) -> bool {
    if ctrl_c_again(a, now) {
        b == App { force_quit: true, ..a } && fx == Seq::<EffectView>::empty()
    } else {
        b == App { ctrl_c: Some(now), dirty: true, ..a } && fx == seq![
            EffectView::Log(LogKind::Info, ctrl_c_note()),
            EffectView::Send("quit"@),
        ]
    }
}

/// Whether the key is Ctrl+C.
pub open spec fn is_ctrl_c(key: KeyInput) -> bool {
    key.ctrl && key.code == KeyCode::Char('c')
}

/// The NPC option chooser after a key: the arrows move the cursor around
/// the options, `Enter` replies with the option under it and marks the page
/// handled, `Esc` closes the chooser, Ctrl+C is Ctrl+C; anything else is
/// swallowed.
pub open spec fn npc_next(a: App, b: App, key: KeyInput, now: u64, fx: Seq<EffectView>) -> bool {
    let n = a.snap.npc_options@.len();
    match key.code {
        KeyCode::Up => fx == Seq::<EffectView>::empty() && if n == 0 {
            b == App { dirty: true, ..a }
        } else {
            b == App { npc_pick_cursor: cycled(a.npc_pick_cursor, true, n as usize), dirty: true, ..a }
        },
        KeyCode::Down => fx == Seq::<EffectView>::empty() && if n == 0 {
            b == App { dirty: true, ..a }
        } else {
            b == App { npc_pick_cursor: cycled(a.npc_pick_cursor, false, n as usize), dirty: true, ..a }
        },
        KeyCode::Enter => if a.npc_pick_cursor < n {
            let cmd = npc_reply_cmd(a.snap.npc_options@[a.npc_pick_cursor as int]);
            &&& b == App { npc_seen_seq: a.snap.npc_options_seq, npc_pick_open: false, dirty: true, ..a }
            &&& fx == seq![EffectView::Log(LogKind::Cmd, "> "@ + cmd), EffectView::Send(cmd)]
        } else {
            b == App { dirty: true, ..a } && fx == Seq::<EffectView>::empty()
        },
        KeyCode::Esc => b == App { npc_pick_open: false, dirty: true, ..a } && fx == Seq::<EffectView>::empty(),
        _ => if is_ctrl_c(key) {
            ctrl_c_next(a, b, now, fx)
        } else {
            b == a && fx == Seq::<EffectView>::empty()
        },
    }
}

pub open spec fn npc_reply_cmd(id: i32) -> Seq<char> {
    "npc reply "@ + signed_decimal(id as int)
}

/// The shop chooser after a key: the arrows move the cursor around the
/// items, digits type the quantity (at most five), `Backspace` deletes
/// one, `Enter` buys the item under the cursor (the chooser and the
/// quantity stay), `Esc` clears the quantity or, when there is none,
/// closes the chooser, Ctrl+C is Ctrl+C; anything else is swallowed.
pub open spec fn shop_next(a: App, b: App, key: KeyInput, now: u64, fx: Seq<EffectView>) -> bool {
    let n = a.snap.shop_items@.len();
    match key.code {
        KeyCode::Up => fx == Seq::<EffectView>::empty() && if n == 0 {
            b == App { dirty: true, ..a }
        } else {
            b == App { shop_pick_cursor: cycled(a.shop_pick_cursor, true, n as usize), dirty: true, ..a }
        },
        KeyCode::Down => fx == Seq::<EffectView>::empty() && if n == 0 {
            b == App { dirty: true, ..a }
        } else {
            b == App { shop_pick_cursor: cycled(a.shop_pick_cursor, false, n as usize), dirty: true, ..a }
        },
        KeyCode::Char(c) => if '0' <= c && c <= '9' {
            &&& b == App { shop_qty: b.shop_qty, dirty: true, ..a }
            &&& b.shop_qty@ == if a.shop_qty@.len() < 5 {
                a.shop_qty@.push(c)
            } else {
                a.shop_qty@
            }
            &&& fx == Seq::<EffectView>::empty()
        } else if is_ctrl_c(key) {
            ctrl_c_next(a, b, now, fx)
        } else {
            b == a && fx == Seq::<EffectView>::empty()
        },
        KeyCode::Backspace => {
            &&& b == App { shop_qty: b.shop_qty, dirty: true, ..a }
            &&& b.shop_qty@ == if a.shop_qty@.len() > 0 {
                a.shop_qty@.drop_last()
            } else {
                a.shop_qty@
            }
            &&& fx == Seq::<EffectView>::empty()
        },
        KeyCode::Enter => b == App { dirty: true, ..a } && fx == if a.shop_pick_cursor < n {
            let cmd = buy_cmd(a.snap.shop_items@[a.shop_pick_cursor as int], a.shop_qty@);
            seq![EffectView::Log(LogKind::Cmd, "> "@ + cmd), EffectView::Send(cmd)]
        } else {
            Seq::<EffectView>::empty()
        },
        KeyCode::Esc => fx == Seq::<EffectView>::empty() && if a.shop_qty@.len() > 0 {
            b == App { shop_qty: b.shop_qty, dirty: true, ..a } && b.shop_qty@.len() == 0
        } else {
            b == App { shop_pick_open: false, dirty: true, ..a }
        },
        _ => b == a && fx == Seq::<EffectView>::empty(),
    }
}

/// The login chooser after a key: the arrows move, `Enter` confirms (see
/// [`picker_confirmed`]), Ctrl+C is Ctrl+C.
pub open spec fn picker_next(a: App, b: App, key: KeyInput, now: u64, fx: Seq<EffectView>) -> bool {
    match key.code {
        KeyCode::Up => b == App { picker: picker_moved(a.picker, a.snap, true), dirty: true, ..a } && fx
            == Seq::<EffectView>::empty(),
        KeyCode::Down => b == App { picker: picker_moved(a.picker, a.snap, false), dirty: true, ..a } && fx
            == Seq::<EffectView>::empty(),
        KeyCode::Enter => {
            &&& b == App { picker: picker_confirmed(a.picker).1, dirty: true, ..a }
            &&& fx == match picker_confirmed(a.picker).0 {
                Some(c) => seq![EffectView::Send(c)],
                None => Seq::<EffectView>::empty(),
            }
        },
        _ => if is_ctrl_c(key) {
            ctrl_c_next(a, b, now, fx)
        } else {
            b == a && fx == Seq::<EffectView>::empty()
        },
    }
}

/// The scroll offsets after a wheel notch: the open page's, or the log's
/// (three rows a notch; the log counts from the bottom, so up adds).
pub open spec fn wheel_next(a: App, b: App, w: Wheel) -> bool {
    match w {
        Wheel::Up => if a.help_open {
            b == App { help_scroll: sat_sub(a.help_scroll, 3), dirty: true, ..a }
        } else if a.bag_open {
            b == App { bag_scroll: sat_sub(a.bag_scroll, 3), dirty: true, ..a }
        } else if a.npc_pick_open {
            b == App { npc_pick_scroll: sat_sub(a.npc_pick_scroll, 3), dirty: true, ..a }
        } else if a.shop_pick_open {
            b == App { shop_pick_scroll: sat_sub(a.shop_pick_scroll, 3), dirty: true, ..a }
        } else {
            b == App { scroll: sat_add(a.scroll, 3), dirty: true, ..a }
        },
        Wheel::Down => if a.help_open {
            b == App { help_scroll: sat_add(a.help_scroll, 3), dirty: true, ..a }
        } else if a.bag_open {
            b == App { bag_scroll: sat_add(a.bag_scroll, 3), dirty: true, ..a }
        } else if a.npc_pick_open {
            b == App { npc_pick_scroll: sat_add(a.npc_pick_scroll, 3), dirty: true, ..a }
        } else if a.shop_pick_open {
            b == App { shop_pick_scroll: sat_add(a.shop_pick_scroll, 3), dirty: true, ..a }
        } else {
            b == App { scroll: sat_sub(a.scroll, 3), dirty: true, ..a }
        },
        Wheel::Other => b == a,
    }
}

impl App {
    /// The inventory slots of the current page.
    pub fn bag_items(&self) -> (v: Vec<(u8, i16, i32, i16)>)
        ensures
            v@ == bag_items_of(self.snap.inventory@, self.bag_panel),
    {
        let p = if self.bag_panel < 5 {
            self.bag_panel
        } else {
            5
        };
        let mut out: Vec<(u8, i16, i32, i16)> = Vec::new();
        let n = self.snap.inventory.len();
        for i in 0..n
            invariant
                n == self.snap.inventory@.len(),
                p == if self.bag_panel < 5 { self.bag_panel } else { 5 },
                out@ == bag_items_of(self.snap.inventory@.take(i as int), self.bag_panel),
        {
            let it = self.snap.inventory[i];
            proof {
                assert(self.snap.inventory@.take(i + 1).drop_last() =~= self.snap.inventory@.take(i as int));
                assert(self.snap.inventory@.take(i + 1).last() == it);
            }
            if p == 0 || it.0 as usize == p {
                out.push(it);
            }
        }
        proof {
            assert(self.snap.inventory@.take(n as int) =~= self.snap.inventory@);
        }
        out
    }

    /// `d` / `e` on the inventory page: drop or wear the slot under the
    /// cursor.
    fn bag_act(&self, c: char) -> (fx: Vec<Effect>)
        requires
            c == 'd' || c == 'D' || c == 'e' || c == 'E',
        ensures
            fx_views(fx@) == bag_fx(*self, KeyCode::Char(c)),
    {
        let items = self.bag_items();
        if self.bag_cursor >= items.len() {
            let fx: Vec<Effect> = Vec::new();
            proof {
                assert(fx_views(fx@) =~= bag_fx(*self, KeyCode::Char(c)));
            }
            return fx;
        }
        let it = items[self.bag_cursor];
        if c == 'd' || c == 'D' {
            sent_and_echoed(drop_text(it))
        } else if it.0 != 1 {
            let mut fx: Vec<Effect> = Vec::new();
            fx.push(Effect::Log(LogKind::Info, copy_str("[bag] 仅装备栏物品可穿 (切换到 装备 面板)")));
            proof {
                assert(fx_views(fx@) =~= bag_fx(*self, KeyCode::Char(c)));
            }
            fx
        } else {
            let mut cmd = copy_str("equip ");
            cmd.append(signed_string(it.2 as i64).as_str());
            sent_and_echoed(cmd)
        }
    }

    /// `Enter` on the inventory page: sell, when a shop is open.
    fn bag_sell(&self) -> (fx: Vec<Effect>)
        ensures
            fx_views(fx@) == bag_fx(*self, KeyCode::Enter),
    {
        if !self.snap.shop_open {
            let mut fx: Vec<Effect> = Vec::new();
            fx.push(Effect::Log(LogKind::Info, copy_str("[bag] 商店未打开, 无法卖出 (先 npc 打开商店)")));
            proof {
                assert(fx_views(fx@) =~= bag_fx(*self, KeyCode::Enter));
            }
            return fx;
        }
        let items = self.bag_items();
        if self.bag_cursor >= items.len() {
            let fx: Vec<Effect> = Vec::new();
            proof {
                assert(fx_views(fx@) =~= bag_fx(*self, KeyCode::Enter));
            }
            return fx;
        }
        let it = items[self.bag_cursor];
        let cmd = if self.bag_mode == 1 {
            let mut c = copy_str("sell ");
            c.append(signed_string(it.2 as i64).as_str());
            c.append(" 0");
            c
        } else {
            sell_one_text(it)
        };
        sent_and_echoed(cmd)
    }

    fn bag_down(&mut self)
        ensures
            bag_next(*old(self), *final(self), KeyCode::Down),
    {
        let n = self.bag_items().len();
        let c = clamp_cursor(sadd(self.bag_cursor, 1), n);
        self.bag_cursor = c;
        self.bag_scroll = follow(c, self.bag_scroll);
        self.dirty = true;
    }

    fn bag_up(&mut self)
        ensures
            bag_next(*old(self), *final(self), KeyCode::Up),
    {
        let c = ssub(self.bag_cursor, 1);
        self.bag_cursor = c;
        self.bag_scroll = follow(c, self.bag_scroll);
        self.dirty = true;
    }

    fn bag_next_page(&mut self)
        requires
            old(self).bag_panel < 6,
        ensures
            bag_next(*old(self), *final(self), KeyCode::Tab),
    {
        self.bag_panel = (self.bag_panel + 1) % 6;
        self.bag_scroll = 0;
        self.bag_cursor = 0;
        self.dirty = true;
    }

    fn bag_prev_page(&mut self)
        requires
            old(self).bag_panel < 6,
        ensures
            bag_next(*old(self), *final(self), KeyCode::BackTab),
    {
        self.bag_panel = (self.bag_panel + 5) % 6;
        self.bag_scroll = 0;
        self.bag_cursor = 0;
        self.dirty = true;
    }

    fn bag_close(&mut self)
        ensures
            bag_next(*old(self), *final(self), KeyCode::Esc),
    {
        self.bag_open = false;
        self.dirty = true;
    }

    fn bag_char(&mut self, c: char) -> (fx: Vec<Effect>)
        ensures
            bag_next(*old(self), *final(self), KeyCode::Char(c)),
            fx_views(fx@) == bag_fx(*old(self), KeyCode::Char(c)),
    {
        if c == 'm' {
            self.bag_mode = self.bag_mode ^ 1;
            self.dirty = true;
        } else if c == 'd' || c == 'D' || c == 'e' || c == 'E' {
            let fx = self.bag_act(c);
            self.dirty = true;
            return fx;
        }
        let fx: Vec<Effect> = Vec::new();
        proof {
            assert(fx_views(fx@) =~= seq![]);
        }
        fx
    }

    fn bag_enter(&mut self) -> (fx: Vec<Effect>)
        ensures
            bag_next(*old(self), *final(self), KeyCode::Enter),
            fx_views(fx@) == bag_fx(*old(self), KeyCode::Enter),
    {
        let fx = self.bag_sell();
        self.dirty = true;
        fx
    }

    fn bag_key(&mut self, code: KeyCode) -> (fx: Vec<Effect>)
        requires
            old(self).bag_panel < 6,
        ensures
            bag_next(*old(self), *final(self), code),
            fx_views(fx@) == bag_fx(*old(self), code),
    {
        match code {
            KeyCode::Char(c) => self.bag_char(c),
            KeyCode::Enter => self.bag_enter(),
            _ => {
                match code {
                    KeyCode::Esc => self.bag_close(),
                    KeyCode::Tab => self.bag_next_page(),
                    KeyCode::BackTab => self.bag_prev_page(),
                    KeyCode::Up => self.bag_up(),
                    KeyCode::Down => self.bag_down(),
                    _ => {},
                }
                let fx: Vec<Effect> = Vec::new();
                proof {
                    assert(fx_views(fx@) =~= seq![]);
                }
                fx
            },
        }
    }
}

pub fn no_effects() -> (fx: Vec<Effect>)
    ensures
        fx_views(fx@) == Seq::<EffectView>::empty(),
{
    let fx: Vec<Effect> = Vec::new();
    proof {
        assert(fx_views(fx@) =~= Seq::<EffectView>::empty());
    }
    fx
}

/// The console with a snapshot taken in (none: as it was): the bot's view
/// is replaced, and a new phase closes the login chooser and redraws.
pub open spec fn snapshot_taken(a: App, snap: Option<SnapView>) -> App {
    match snap {
        Some(sv) => if sv.phase != a.snap.phase {
            App { snap: sv, picker: Picker::Closed, dirty: true, ..a }
        } else {
            App { snap: sv, ..a }
        },
        None => a,
    }
}

impl App {
    fn board_key(&mut self, code: KeyCode)
        ensures
            board_next(*old(self), *final(self), code),
    {
        let open = self.board_open;
        let v = self.board_scroll;
        let (open, v) = match code {
            KeyCode::Esc => (false, v),
            KeyCode::F(n) => {
                if n != 2 {
                    return ;
                }
                (false, v)
            },
            KeyCode::PageUp => (open, ssub(v, 8)),
            KeyCode::PageDown => (open, sadd(v, 8)),
            KeyCode::Up => (open, ssub(v, 1)),
            KeyCode::Down => (open, sadd(v, 1)),
            _ => {
                return ;
            },
        };
        self.board_open = open;
        self.board_scroll = v;
        self.dirty = true;
    }

    fn help_key(&mut self, code: KeyCode)
        ensures
            help_next(*old(self), *final(self), code),
    {
        let open = self.help_open;
        let v = self.help_scroll;
        let (open, v) = match code {
            KeyCode::Esc => (false, v),
            KeyCode::F(n) => {
                if n != 1 {
                    return ;
                }
                (false, v)
            },
            KeyCode::PageUp => (open, ssub(v, 8)),
            KeyCode::PageDown => (open, sadd(v, 8)),
            KeyCode::Up => (open, ssub(v, 1)),
            KeyCode::Down => (open, sadd(v, 1)),
            _ => {
                return ;
            },
        };
        self.help_open = open;
        self.help_scroll = v;
        self.dirty = true;
    }

    fn quit_now(&mut self)
        ensures
            *final(self) == (App { force_quit: true, ..*old(self) }),
    {
        self.force_quit = true;
    }

    fn ask_quit(&mut self, now: u64) -> (fx: Vec<Effect>)
        ensures
            *final(self) == (App { ctrl_c: Some(now), dirty: true, ..*old(self) }),
            fx_views(fx@) == seq![EffectView::Log(LogKind::Info, ctrl_c_note()), EffectView::Send("quit"@)],
    {
        self.ctrl_c = Some(now);
        self.dirty = true;
        let mut fx: Vec<Effect> = Vec::new();
        fx.push(Effect::Log(LogKind::Info, copy_str("> [Ctrl+C] 发送 quit …")));
        fx.push(Effect::Send(copy_str("quit")));
        proof {
            assert(fx_views(fx@) =~= seq![
                EffectView::Log(LogKind::Info, ctrl_c_note()),
                EffectView::Send("quit"@),
            ]);
        }
        fx
    }

    /// Ctrl+C (see [`ctrl_c_next`]).
    fn on_ctrl_c(&mut self, now: u64) -> (fx: Vec<Effect>)
        ensures
            ctrl_c_next(*old(self), *final(self), now, fx_views(fx@)),
    {
        let again = match self.ctrl_c {
            Some(t) => (if now >= t {
                now - t
            } else {
                0
            }) < 1000,
            None => false,
        };
        if again {
            self.quit_now();
            no_effects()
        } else {
            self.ask_quit(now)
        }
    }

    fn npc_move(&mut self, up: bool)
        ensures
            old(self).snap.npc_options@.len() == 0 ==> *final(self) == (App { dirty: true, ..*old(self) }),
            old(self).snap.npc_options@.len() > 0 ==> *final(self) == (App {
                npc_pick_cursor: cycled(old(self).npc_pick_cursor, up, old(self).snap.npc_options@.len() as usize),
                dirty: true,
                ..*old(self)
            }),
    {
        let n = self.snap.npc_options.len();
        if n > 0 {
            self.npc_pick_cursor = cycle(self.npc_pick_cursor, up, n);
        }
        self.dirty = true;
    }

    fn npc_confirm(&mut self) -> (fx: Vec<Effect>)
        ensures
            npc_next(*old(self), *final(self), KeyInput { code: KeyCode::Enter, ctrl: false, alt: false, release: false }, 0, fx_views(fx@)),
    {
        let n = self.snap.npc_options.len();
        if self.npc_pick_cursor >= n {
            self.dirty = true;
            return no_effects();
        }
        let id = self.snap.npc_options[self.npc_pick_cursor];
        let mut cmd = copy_str("npc reply ");
        cmd.append(signed_string(id as i64).as_str());
        self.npc_seen_seq = self.snap.npc_options_seq;
        self.npc_pick_open = false;
        self.dirty = true;
        let mut echo = copy_str("> ");
        echo.append(cmd.as_str());
        let mut fx: Vec<Effect> = Vec::new();
        let ghost c = cmd@;
        fx.push(Effect::Log(LogKind::Cmd, echo));
        fx.push(Effect::Send(cmd));
        proof {
            assert(fx_views(fx@) =~= seq![EffectView::Log(LogKind::Cmd, "> "@ + c), EffectView::Send(c)]);
        }
        fx
    }

    /// A key while the NPC option chooser is open (see [`npc_next`]).
    fn npc_key(&mut self, key: KeyInput, now: u64) -> (fx: Vec<Effect>)
        ensures
            npc_next(*old(self), *final(self), key, now, fx_views(fx@)),
    {
        match key.code {
            KeyCode::Up => {
                self.npc_move(true);
                no_effects()
            },
            KeyCode::Down => {
                self.npc_move(false);
                no_effects()
            },
            KeyCode::Enter => self.npc_confirm(),
            KeyCode::Esc => {
                self.npc_pick_open = false;
                self.dirty = true;
                no_effects()
            },
            _ => {
                if key.ctrl && key.code == KeyCode::Char('c') {
                    self.on_ctrl_c(now)
                } else {
                    no_effects()
                }
            },
        }
    }

    fn shop_move(&mut self, up: bool)
        ensures
            old(self).snap.shop_items@.len() == 0 ==> *final(self) == (App { dirty: true, ..*old(self) }),
            old(self).snap.shop_items@.len() > 0 ==> *final(self) == (App {
                shop_pick_cursor: cycled(old(self).shop_pick_cursor, up, old(self).snap.shop_items@.len() as usize),
                dirty: true,
                ..*old(self)
            }),
    {
        let n = self.snap.shop_items.len();
        if n > 0 {
            self.shop_pick_cursor = cycle(self.shop_pick_cursor, up, n);
        }
        self.dirty = true;
    }

    /// The buy command for the item under the shop cursor, if any.
    fn shop_confirm(&self) -> (fx: Vec<Effect>)
        ensures
            fx_views(fx@) == if self.shop_pick_cursor < self.snap.shop_items@.len() {
                let cmd = buy_cmd(self.snap.shop_items@[self.shop_pick_cursor as int], self.shop_qty@);
                seq![EffectView::Log(LogKind::Cmd, "> "@ + cmd), EffectView::Send(cmd)]
            } else {
                Seq::<EffectView>::empty()
            },
    {
        if self.shop_pick_cursor >= self.snap.shop_items.len() {
            return no_effects();
        }
        let item = self.snap.shop_items[self.shop_pick_cursor];
        let parsed: i32 = match parse_i32(self.shop_qty.as_str()) {
            Some(v) => v,
            None => 1,
        };
        let qty: i32 = if parsed < 1 {
            1
        } else if parsed > 9999 {
            9999
        } else {
            parsed
        };
        let mut cmd = copy_str("buy ");
        cmd.append(signed_string(item as i64).as_str());
        cmd.append(" ");
        cmd.append(decimal_string(qty as u64).as_str());
        let mut echo = copy_str("> ");
        echo.append(cmd.as_str());
        let ghost c = cmd@;
        let mut fx: Vec<Effect> = Vec::new();
        fx.push(Effect::Log(LogKind::Cmd, echo));
        fx.push(Effect::Send(cmd));
        proof {
            assert(fx_views(fx@) =~= seq![EffectView::Log(LogKind::Cmd, "> "@ + c), EffectView::Send(c)]);
        }
        fx
    }

    fn shop_char(&mut self, key: KeyInput, c: char, now: u64) -> (fx: Vec<Effect>)
        requires
            key.code == KeyCode::Char(c),
        ensures
            shop_next(*old(self), *final(self), key, now, fx_views(fx@)),
    {
        if '0' <= c && c <= '9' {
            if self.shop_qty.as_str().unicode_len() < 5 {
                crate::text::push_char(&mut self.shop_qty, c);
            }
            self.dirty = true;
            no_effects()
        } else if key.ctrl && c == 'c' {
            self.on_ctrl_c(now)
        } else {
            no_effects()
        }
    }

    fn shop_backspace(&mut self)
        ensures
            *final(self) == (App { shop_qty: final(self).shop_qty, dirty: true, ..*old(self) }),
            final(self).shop_qty@ == if old(self).shop_qty@.len() > 0 {
                old(self).shop_qty@.drop_last()
            } else {
                old(self).shop_qty@
            },
    {
        crate::text::pop_char(&mut self.shop_qty);
        self.dirty = true;
    }

    fn shop_esc(&mut self)
        ensures
            if old(self).shop_qty@.len() > 0 {
                *final(self) == (App { shop_qty: final(self).shop_qty, dirty: true, ..*old(self) })
                    && final(self).shop_qty@.len() == 0
            } else {
                *final(self) == (App { shop_pick_open: false, dirty: true, ..*old(self) })
            },
    {
        if self.shop_qty.as_str().unicode_len() > 0 {
            self.shop_qty = String::new();
            self.dirty = true;
        } else {
            self.shop_pick_open = false;
            self.dirty = true;
        }
    }

    fn shop_enter(&mut self) -> (fx: Vec<Effect>)
        ensures
            *final(self) == (App { dirty: true, ..*old(self) }),
            fx_views(fx@) == if old(self).shop_pick_cursor < old(self).snap.shop_items@.len() {
                let cmd = buy_cmd(old(self).snap.shop_items@[old(self).shop_pick_cursor as int], old(self).shop_qty@);
                seq![EffectView::Log(LogKind::Cmd, "> "@ + cmd), EffectView::Send(cmd)]
            } else {
                Seq::<EffectView>::empty()
            },
    {
        let fx = self.shop_confirm();
        self.dirty = true;
        fx
    }

    /// A key while the shop chooser is open (see [`shop_next`]).
    fn shop_key(&mut self, key: KeyInput, now: u64) -> (fx: Vec<Effect>)
        ensures
            shop_next(*old(self), *final(self), key, now, fx_views(fx@)),
    {
        match key.code {
            KeyCode::Up => {
                self.shop_move(true);
                no_effects()
            },
            KeyCode::Down => {
                self.shop_move(false);
                no_effects()
            },
            KeyCode::Char(c) => self.shop_char(key, c, now),
            KeyCode::Backspace => {
                self.shop_backspace();
                no_effects()
            },
            KeyCode::Enter => self.shop_enter(),
            KeyCode::Esc => {
                self.shop_esc();
                no_effects()
            },
            _ => no_effects(),
        }
    }
}

impl App {
    /// The number of entries of the chooser (see [`picker_len`]).
    fn picker_entries(&self) -> (n: usize)
        ensures
            n as int == picker_len(self.picker, self.snap),
            n >= 1,
    {
        match self.picker {
            Picker::Gender { .. } => 2,
            Picker::World { .. } => {
                let n = self.snap.world_channels.len();
                if n > 0 {
                    n
                } else {
                    1
                }
            },
            Picker::Channel { world, .. } => {
                if world < self.snap.world_channels.len() && self.snap.world_channels[world] > 0 {
                    self.snap.world_channels[world] as usize
                } else {
                    1
                }
            },
            Picker::Char { .. } => {
                if self.snap.characters > 0 {
                    self.snap.characters
                } else {
                    1
                }
            },
            Picker::Closed => 1,
        }
    }

    fn picker_move(&mut self, up: bool)
        ensures
            *final(self) == (App { picker: picker_moved(old(self).picker, old(self).snap, up), dirty: true, ..*old(self) }),
    {
        let n = self.picker_entries();
        let step = |sel: usize| -> (r: usize)
            requires
                n >= 1,
            ensures
                r as int == (if up {
                    (sel + n - 1) % (n as int)
                } else {
                    (sel + 1 + n) % (n as int)
                }),
            {
                let m: u128 = if up {
                    (sel as u128 + n as u128 - 1) % (n as u128)
                } else {
                    (sel as u128 + 1 + n as u128) % (n as u128)
                };
                m as usize
            };
        let p = match self.picker {
            Picker::Gender { sel } => Picker::Gender { sel: step(sel) },
            Picker::World { sel } => Picker::World { sel: step(sel) },
            Picker::Channel { world, sel } => Picker::Channel { world, sel: step(sel) },
            Picker::Char { sel } => Picker::Char { sel: step(sel) },
            Picker::Closed => Picker::Closed,
        };
        self.picker = p;
        self.dirty = true;
    }

    fn picker_confirm(&mut self) -> (fx: Vec<Effect>)
        requires
            old(self).picker matches Picker::Channel { sel, .. } ==> sel < usize::MAX,
        ensures
            *final(self) == (App { picker: picker_confirmed(old(self).picker).1, dirty: true, ..*old(self) }),
            fx_views(fx@) == match picker_confirmed(old(self).picker).0 {
                Some(c) => seq![EffectView::Send(c)],
                None => Seq::<EffectView>::empty(),
            },
    {
        let (cmd, p) = confirm_of(self.picker);
        self.picker = p;
        self.dirty = true;
        let mut fx: Vec<Effect> = Vec::new();
        match cmd {
            Some(c) => {
                fx.push(Effect::Send(c));
                proof {
                    assert(fx_views(fx@) =~= seq![EffectView::Send(picker_confirmed(old(self).picker).0->0)]);
                }
            },
            None => {
                proof {
                    assert(fx_views(fx@) =~= Seq::<EffectView>::empty());
                }
            },
        }
        fx
    }

    /// A key while a login chooser is shown (see [`picker_next`]).
    fn picker_key(&mut self, key: KeyInput, now: u64) -> (fx: Vec<Effect>)
        requires
            old(self).picker matches Picker::Channel { sel, .. } ==> sel < usize::MAX,
        ensures
            picker_next(*old(self), *final(self), key, now, fx_views(fx@)),
    {
        match key.code {
            KeyCode::Up => {
                self.picker_move(true);
                no_effects()
            },
            KeyCode::Down => {
                self.picker_move(false);
                no_effects()
            },
            KeyCode::Enter => self.picker_confirm(),
            _ => {
                if key.ctrl && key.code == KeyCode::Char('c') {
                    self.on_ctrl_c(now)
                } else {
                    no_effects()
                }
            },
        }
    }

    fn wheel_up(&mut self)
        ensures
            wheel_next(*old(self), *final(self), Wheel::Up),
    {
        if self.help_open {
            self.help_scroll = ssub(self.help_scroll, 3);
        } else if self.bag_open {
            self.bag_scroll = ssub(self.bag_scroll, 3);
        } else if self.npc_pick_open {
            self.npc_pick_scroll = ssub(self.npc_pick_scroll, 3);
        } else if self.shop_pick_open {
            self.shop_pick_scroll = ssub(self.shop_pick_scroll, 3);
        } else {
            self.scroll = sadd(self.scroll, 3);
        }
        self.dirty = true;
    }

    fn wheel_down(&mut self)
        ensures
            wheel_next(*old(self), *final(self), Wheel::Down),
    {
        if self.help_open {
            self.help_scroll = sadd(self.help_scroll, 3);
        } else if self.bag_open {
            self.bag_scroll = sadd(self.bag_scroll, 3);
        } else if self.npc_pick_open {
            self.npc_pick_scroll = sadd(self.npc_pick_scroll, 3);
        } else if self.shop_pick_open {
            self.shop_pick_scroll = sadd(self.shop_pick_scroll, 3);
        } else {
            self.scroll = ssub(self.scroll, 3);
        }
        self.dirty = true;
    }

    /// A mouse wheel notch scrolls the open page, or the log.
    pub fn on_mouse(&mut self, w: Wheel)
        ensures
            wheel_next(*old(self), *final(self), w),
    {
        match w {
            Wheel::Up => self.wheel_up(),
            Wheel::Down => self.wheel_down(),
            Wheel::Other => {},
        }
    }
}

/// Confirming a chooser: the command to send (if any) and the chooser
/// after (see [`picker_confirmed`]).
fn confirm_of(p: Picker) -> (r: (Option<String>, Picker))
    requires
        p matches Picker::Channel { sel, .. } ==> sel < usize::MAX,
    ensures
        r.1 == picker_confirmed(p).1,
        match picker_confirmed(p).0 {
            Some(c) => r.0 matches Some(x) && x@ == c,
            None => r.0 is None,
        },
{
    match p {
        Picker::Gender { sel } => {
            let mut c = copy_str("login gender ");
            c.append(decimal_string(sel as u64).as_str());
            (Some(c), p)
        },
        Picker::World { sel } => (None, Picker::Channel { world: sel, sel: 0 }),
        Picker::Channel { world, sel } => {
            let mut c = copy_str("login world ");
            c.append(decimal_string(world as u64).as_str());
            c.append(" ");
            c.append(decimal_string((sel + 1) as u64).as_str());
            (Some(c), p)
        },
        Picker::Char { sel } => {
            let mut c = copy_str("login char ");
            c.append(decimal_string(sel as u64).as_str());
            (Some(c), p)
        },
        Picker::Closed => (None, p),
    }
}

// ------------------------------------------------------------------ input line

/// `s` with `c` inserted before position `k`.
fn insert_char(s: &String, k: usize, c: char) -> (r: String)
    requires
        k <= s@.len(),
    ensures
        r@ == s@.insert(k as int, c),
{
    let mut r = copy_str(s.as_str());
    crate::text::insert_at(&mut r, k, c);
    r
}

/// `s` without its character at position `k`.
fn remove_char(s: &String, k: usize) -> (r: String)
    requires
        k < s@.len(),
    ensures
        r@ == s@.remove(k as int),
{
    let mut r = copy_str(s.as_str());
    crate::text::remove_at(&mut r, k);
    r
}

/// Whether `s` is empty or only whitespace.
fn is_blank(s: &str) -> (r: bool)
    ensures
        r == (crate::text::trim(s@).len() == 0),
{
    let v = crate::text::chars_of(s);
    let (a, b) = crate::text::trim_bounds(&v);
    a == b
}

/// The completions are gone.
pub open spec fn comp_empty(c: CompState) -> bool {
    c.candidates@.len() == 0 && c.idx == 0
}

/// After the input changed: blank input drops the completions; otherwise
/// they are to be computed again.
pub open spec fn refreshed(a: App, b: App, fx: Seq<EffectView>) -> bool {
    if crate::text::trim(b.input@).len() == 0 {
        comp_empty(b.comp) && fx == Seq::<EffectView>::empty()
    } else {
        b.comp == a.comp && fx == seq![EffectView::Complete(CompleteThen::Show)]
    }
}

/// The selection moved by one (back when `up`) in a set of several
/// sessions.
pub open spec fn sessions_moved(a: Option<SessionSet>, b: Option<SessionSet>, up: bool) -> bool {
    match (a, b) {
        (Some(s), Some(t)) => {
            &&& t.spec_sessions() == s.spec_sessions()
            &&& t.spec_rx_len() == s.spec_rx_len()
            &&& t.spec_selected() == crate::sessions::spec_moved(
                s.spec_selected(),
                s.spec_sessions().len(),
                if up { -1i32 } else { 1i32 },
            )
        },
        _ => false,
    }
}

/// The sessions after the page shown is handed back to session `p`
/// (when it names one).
pub open spec fn views_kept(a: App, s: SessionSet) -> Seq<crate::session::BotSession> {
    match a.synced {
        Some(p) => if p < s.spec_sessions().len() {
            s.spec_sessions().update(
                p as int,
                s.spec_sessions()[p as int].with_view(a.scroll, filter_pos(a.filter)),
            )
        } else {
            s.spec_sessions()
        },
        None => s.spec_sessions(),
    }
}

/// Showing the selected session (nothing without sessions): the session
/// shown until now keeps the log position and page it was left at, and the
/// selected one's come up with its count of dropped events.
pub open spec fn sync_next(a: App, b: App) -> bool {
    match a.sessions {
        Some(s) => if s.spec_sessions().len() == 0 {
            b == a
        } else {
            let ss = views_kept(a, s);
            let cur = s.spec_selected();
            &&& b.sessions matches Some(t) && t.spec_sessions() == ss && t.spec_selected() == s.spec_selected()
                && t.spec_rx_len() == s.spec_rx_len()
            &&& b == App {
                sessions: b.sessions,
                scroll: ss[cur as int].spec_scroll(),
                filter: filter_at(ss[cur as int].spec_filter() as int),
                dropped: ss[cur as int].spec_dropped(),
                synced: Some(cur),
                dirty: true,
                ..a
            }
        },
        None => b == a,
    }
}

/// There are several sessions to switch between.
pub open spec fn several(a: Option<SessionSet>) -> bool {
    a matches Some(s) && s.spec_sessions().len() > 1
}

/// The completion `k` put into the input, the cursor at its end.
#[verifier::opaque]
pub open spec fn applied(a: App, b: App, k: usize) -> bool {
    &&& b == App {
        input: b.input,
        cursor: b.cursor,
        comp: CompState { candidates: a.comp.candidates, idx: k },
        dirty: true,
        ..a
    }
    &&& b.input@ == a.comp.candidates@[k as int].0@
    &&& b.cursor == b.input@.len()
}

/// Browsing the history up one line and back down again gives the line
/// that was being typed back, and leaves the history.
pub proof fn law_history_up_then_down(a: App, b: App, c: App)
    requires
        a.hist is None,
        hist_up_next(a, b),
        hist_down_next(b, c),
    ensures
        c.input@ == a.input@,
        c.hist is None,
        c.cursor == a.input@.len(),
{
    reveal(hist_up_next);
    reveal(hist_down_next);
}

/// Browsing back in the history: the line before (the first step keeps
/// the line being typed).
#[verifier::opaque]
pub open spec fn hist_up_next(a: App, b: App) -> bool {
    let n = a.history@.len();
    if n == 0 {
        b == a
    } else {
        let k: usize = match a.hist {
            None => 1,
            Some(i) => if i + 1 <= n {
                (i + 1) as usize
            } else {
                n as usize
            },
        };
        &&& b == App {
            input: b.input,
            cursor: b.cursor,
            hist: Some(k),
            draft: b.draft,
            comp: b.comp,
            dirty: true,
            ..a
        }
        &&& b.input@ == a.history@[n - k]@
        &&& b.cursor == b.input@.len()
        &&& b.draft@ == if a.hist is None {
            a.input@
        } else {
            a.draft@
        }
        &&& comp_empty(b.comp)
    }
}

/// Browsing forward in the history: the next line, or back to the line
/// being typed.
#[verifier::opaque]
pub open spec fn hist_down_next(a: App, b: App) -> bool {
    let n = a.history@.len();
    &&& b == App {
        input: b.input,
        cursor: b.cursor,
        hist: b.hist,
        draft: b.draft,
        comp: b.comp,
        dirty: true,
        ..a
    }
    &&& b.cursor == b.input@.len()
    &&& comp_empty(b.comp)
    &&& match a.hist {
        None => b.input@ == a.input@ && b.hist is None && b.draft@ == a.draft@,
        Some(i) => if i == 1 {
            b.input@ == a.draft@ && b.hist is None && b.draft@.len() == 0
        } else {
            b.input@ == a.history@[n - (i - 1)]@ && b.hist == Some((i - 1) as usize) && b.draft@
                == a.draft@
        },
    }
}

impl App {
    fn insert_key(&mut self, c: char) -> (fx: Vec<Effect>)
        requires
            old(self).wf(),
        ensures
            final(self).wf(),
            *final(self) == (App {
                input: final(self).input,
                cursor: (old(self).cursor + 1) as usize,
                hist: None,
                comp: final(self).comp,
                dirty: true,
                ..*old(self)
            }),
            final(self).input@ == old(self).input@.insert(old(self).cursor as int, c),
            refreshed(*old(self), *final(self), fx_views(fx@)),
    {
        let mut v = crate::text::chars_of(self.input.as_str());
        let k = self.cursor;
        v.insert(k, c);
        let m = v.len();
        assert(m == old(self).input@.len() + 1);
        let cur = k + 1;
        self.input = crate::text::string_of_all(&v);
        self.cursor = cur;
        self.hist = None;
        self.dirty = true;
        self.refresh()
    }

    /// The completions after the input changed (see [`refreshed`]).
    fn refresh(&mut self) -> (fx: Vec<Effect>)
        ensures
            if crate::text::trim(old(self).input@).len() == 0 {
                *final(self) == (App { comp: final(self).comp, ..*old(self) }) && comp_empty(final(self).comp)
            } else {
                *final(self) == *old(self)
            },
            refreshed(*old(self), *final(self), fx_views(fx@)),
    {
        if is_blank(self.input.as_str()) {
            self.comp = CompState::empty();
            no_effects()
        } else {
            let mut fx: Vec<Effect> = Vec::new();
            fx.push(Effect::Complete(CompleteThen::Show));
            proof {
                assert(fx_views(fx@) =~= seq![EffectView::Complete(CompleteThen::Show)]);
            }
            fx
        }
    }

    fn backspace_key(&mut self) -> (fx: Vec<Effect>)
        requires
            old(self).wf(),
        ensures
            final(self).wf(),
            old(self).cursor == 0 ==> *final(self) == *old(self) && fx@.len() == 0,
            old(self).cursor > 0 ==> {
                &&& *final(self) == (App {
                    input: final(self).input,
                    cursor: (old(self).cursor - 1) as usize,
                    hist: None,
                    comp: final(self).comp,
                    dirty: true,
                    ..*old(self)
                })
                &&& final(self).input@ == old(self).input@.remove(old(self).cursor - 1)
                &&& refreshed(*old(self), *final(self), fx_views(fx@))
            },
    {
        if self.cursor == 0 {
            return Vec::new();
        }
        let k = self.cursor - 1;
        self.input = remove_char(&self.input, k);
        self.cursor = k;
        self.hist = None;
        self.dirty = true;
        self.refresh()
    }

    fn delete_key(&mut self) -> (fx: Vec<Effect>)
        requires
            old(self).wf(),
        ensures
            final(self).wf(),
            old(self).cursor >= old(self).input@.len() ==> *final(self) == *old(self) && fx@.len() == 0,
            old(self).cursor < old(self).input@.len() ==> {
                &&& *final(self) == (App {
                    input: final(self).input,
                    hist: None,
                    comp: final(self).comp,
                    dirty: true,
                    ..*old(self)
                })
                &&& final(self).input@ == old(self).input@.remove(old(self).cursor as int)
                &&& refreshed(*old(self), *final(self), fx_views(fx@))
            },
    {
        if self.cursor >= self.input.as_str().unicode_len() {
            return Vec::new();
        }
        self.input = remove_char(&self.input, self.cursor);
        self.hist = None;
        self.dirty = true;
        self.refresh()
    }

    /// Moves the cursor: `Left`, `Right`, `Home`, `End`.
    fn cursor_key(&mut self, code: KeyCode)
        requires
            old(self).wf(),
            code == KeyCode::Left || code == KeyCode::Right || code == KeyCode::Home || code == KeyCode::End,
        ensures
            final(self).wf(),
            *final(self) == (App {
                cursor: if code == KeyCode::Left {
                    sat_sub(old(self).cursor, 1)
                } else if code == KeyCode::Right {
                    if old(self).cursor + 1 <= old(self).input@.len() {
                        (old(self).cursor + 1) as usize
                    } else {
                        old(self).input@.len() as usize
                    }
                } else if code == KeyCode::Home {
                    0
                } else {
                    old(self).input@.len() as usize
                },
                dirty: true,
                ..*old(self)
            }),
    {
        proof {
            reveal(sat_sub);
        }
        let n = self.input.as_str().unicode_len();
        let c = if code == KeyCode::Left {
            ssub(self.cursor, 1)
        } else if code == KeyCode::Right {
            if self.cursor < n {
                self.cursor + 1
            } else {
                n
            }
        } else if code == KeyCode::Home {
            0
        } else {
            n
        };
        self.cursor = c;
        self.dirty = true;
    }

    /// Shows the selected session: the log position and page shown go back
    /// to the session shown until now, and those of the selected session
    /// (with its count of dropped events) come up; see [`sync_next`].
    pub fn sync_from_selected(&mut self)
        requires
            old(self).wf(),
        ensures
            final(self).wf(),
            sync_next(*old(self), *final(self)),
    {
        let n = match &self.sessions {
            Some(set) => set.len(),
            None => 0,
        };
        if n == 0 {
            return;
        }
        let mut set = self.sessions.take().unwrap();
        match self.synced {
            Some(p) => if p < set.len() {
                let code = self.filter.code();
                set.session_mut(p).set_view(self.scroll, code);
            },
            None => {},
        }
        let cur = set.selected_index();
        let (sc, f, d) = {
            let s = set.get(cur).unwrap();
            (s.log_scroll(), s.log_filter(), s.dropped())
        };
        self.sessions = Some(set);
        self.scroll = sc;
        self.filter = Filter::from_code(f);
        self.dropped = d;
        self.synced = Some(cur);
        self.dirty = true;
    }

    /// Switches to the session `d` places on (cyclically) when there are
    /// several; returns whether it did (the view of the selected session is
    /// then to be refreshed).
    pub fn select_session_move(&mut self, d: i32) -> (moved: bool)
        ensures
            moved == several(old(self).sessions),
            moved ==> *final(self) == (App { sessions: final(self).sessions, ..*old(self) }) && (
            final(self).sessions matches Some(t) && {
                let s = old(self).sessions->0;
                &&& t.spec_sessions() == s.spec_sessions()
                &&& t.spec_rx_len() == s.spec_rx_len()
                &&& t.spec_selected() == crate::sessions::spec_moved(s.spec_selected(), s.spec_sessions().len(), d)
            }),
            !moved ==> *final(self) == *old(self),
    {
        let n = match &self.sessions {
            Some(set) => set.len(),
            None => 0,
        };
        if n <= 1 {
            return false;
        }
        let mut set = self.sessions.take().unwrap();
        set.select_move(d);
        self.sessions = Some(set);
        true
    }

    /// The selected session's index and the number of sessions (none
    /// without sessions).
    pub fn session_position(&self) -> (r: Option<(usize, usize)>)
        ensures
            r == match self.sessions {
                Some(s) => if s.spec_sessions().len() > 0 {
                    Some((s.spec_selected(), s.spec_sessions().len() as usize))
                } else {
                    None
                },
                None => None,
            },
            r matches Some((i, n)) ==> i < n && n == self.sessions->0.spec_sessions().len(),
    {
        match &self.sessions {
            Some(set) => if set.is_empty() {
                None
            } else {
                Some((set.selected_index(), set.len()))
            },
            None => None,
        }
    }

    fn select_session_step(&mut self, up: bool) -> (moved: bool)
        ensures
            moved == several(old(self).sessions),
            moved ==> *final(self) == (App { sessions: final(self).sessions, ..*old(self) })
                && sessions_moved(old(self).sessions, final(self).sessions, up),
            !moved ==> *final(self) == *old(self),
    {
        let n = match &self.sessions {
            Some(set) => set.len(),
            None => 0,
        };
        if n <= 1 {
            return false;
        }
        let mut set = self.sessions.take().unwrap();
        set.select_move(if up {
            -1
        } else {
            1
        });
        self.sessions = Some(set);
        true
    }

    /// Puts the highlighted completion into the input.
    fn apply_completion(&mut self, k: usize)
        requires
            k < old(self).comp.candidates@.len(),
            old(self).wf(),
        ensures
            applied(*old(self), *final(self), k),
            final(self).wf(),
    {
        proof {
            reveal(applied);
        }
        let text = copy_str(self.comp.candidates[k].0.as_str());
        let n = text.as_str().unicode_len();
        self.comp.idx = k;
        self.input = text;
        self.cursor = n;
        self.dirty = true;
    }

    #[verifier::spinoff_prover]
    #[verifier::rlimit(50)]
    fn history_up(&mut self)
        requires
            old(self).wf(),
        ensures
            final(self).wf(),
            hist_up_next(*old(self), *final(self)),
    {
        proof {
            reveal(hist_up_next);
        }
        let n = self.history.len();
        if n == 0 {
            return;
        }
        let k: usize = match self.hist {
            None => 1,
            Some(i) => if i < n {
                i + 1
            } else {
                n
            },
        };
        let d = if self.hist.is_none() {
            copy_str(self.input.as_str())
        } else {
            copy_str(self.draft.as_str())
        };
        let line = copy_str(self.history[n - k].as_str());
        let len = line.as_str().unicode_len();
        self.set_line(line, len, Some(k), d);
    }

    /// Shows `line` (the cursor at `cursor`), with the history position
    /// and the draft given, the completions dropped.
    fn set_line(&mut self, line: String, cursor: usize, hist: Option<usize>, draft: String)
        ensures
            *final(self) == (App {
                input: line,
                cursor,
                hist,
                draft,
                comp: final(self).comp,
                dirty: true,
                ..*old(self)
            }),
            comp_empty(final(self).comp),
    {
        self.input = line;
        self.cursor = cursor;
        self.hist = hist;
        self.draft = draft;
        self.comp = CompState::empty();
        self.dirty = true;
    }

    fn history_down(&mut self)
        requires
            old(self).wf(),
        ensures
            final(self).wf(),
            hist_down_next(*old(self), *final(self)),
    {
        proof {
            reveal(hist_down_next);
        }
        let n = self.history.len();
        let (line, hist, draft) = match self.hist {
            None => (copy_str(self.input.as_str()), None, copy_str(self.draft.as_str())),
            Some(i) => {
                if i == 1 {
                    (copy_str(self.draft.as_str()), None, String::new())
                } else {
                    (copy_str(self.history[n - (i - 1)].as_str()), Some(i - 1), copy_str(self.draft.as_str()))
                }
            },
        };
        let len = line.as_str().unicode_len();
        self.set_line(line, len, hist, draft);
    }
}

// ------------------------------------------------------------------ submit

/// The history after entering `line`: appended unless empty or equal to
/// the last line; the oldest line goes past [`HISTORY_CAP`] lines.
pub open spec fn pushed(h: Seq<Seq<char>>, line: Seq<char>) -> Seq<Seq<char>> {
    if line.len() > 0 && (h.len() == 0 || h.last() != line) {
        let h2 = h.push(line);
        if h2.len() > HISTORY_CAP {
            h2.drop_first()
        } else {
            h2
        }
    } else {
        h
    }
}

/// `s` without all leading repetitions of `p`.
pub open spec fn strip_all(s: Seq<char>, p: Seq<char>) -> Seq<char>
    decreases s.len(),
{
    if p.len() > 0 && crate::text::has_prefix(s, p) {
        strip_all(s.skip(p.len() as int), p)
    } else {
        s
    }
}

/// An on/off argument: empty, `on`, `1`, `open` mean on; `off`, `0`,
/// `close` mean off.
pub open spec fn switch_arg(arg: Seq<char>) -> Option<bool> {
    if arg.len() == 0 || arg == "on"@ || arg == "1"@ || arg == "open"@ {
        Some(true)
    } else if arg == "off"@ || arg == "0"@ || arg == "close"@ {
        Some(false)
    } else {
        None
    }
}

/// What `Display` of a failed `try_send` says.
pub open spec fn channel_error_text(f: crate::session::SendFailure) -> Seq<char> {
    match f {
        crate::session::SendFailure::Full => "no available capacity"@,
        crate::session::SendFailure::Closed => "channel closed"@,
    }
}

/// The failure lines of a report, each on a line of its own.
pub open spec fn err_lines(errs: Seq<(Seq<char>, Seq<char>)>) -> Seq<char>
    decreases errs.len(),
{
    if errs.len() == 0 {
        Seq::empty()
    } else {
        err_lines(errs.drop_last()) + "\n  "@ + errs.last().0 + ": "@ + errs.last().1
    }
}

/// The log line of a command sent to a target.
pub open spec fn send_text(t: TargetModel, hit: nat, ok: nat, errs: Seq<(Seq<char>, Seq<char>)>) -> Seq<char> {
    "[system] "@ + crate::sessions::target_text(t) + " → 命中 "@ + decimal(hit) + ", 送达 "@ + decimal(ok)
        + err_lines(errs)
}

/// What sending to a target can report: to the selected session through
/// its channel (one reached, the channel's own error text under the name
/// "当前会话"), otherwise as [`SessionSet::dispatch`] reports.
pub open spec fn send_outcome(set: SessionSet, t: TargetModel, hit: nat, ok: nat, errs: Seq<(Seq<char>, Seq<char>)>) -> bool {
    if t is Selected {
        &&& hit == 1
        &&& ((ok == 1 && errs.len() == 0 && set.spec_sessions().len() > 0) || (ok == 0 && exists|f: crate::session::SendFailure|
            errs == seq![("当前会话"@, channel_error_text(f))]))
    } else {
        let idxs = crate::sessions::spec_resolve(set.spec_sessions(), set.spec_selected(), t);
        &&& hit == idxs.len()
        &&& exists|res: Seq<Result<(), crate::session::SendFailure>>|
            res.len() == idxs.len() && (ok, errs) == crate::sessions::send_report(set.spec_sessions(), idxs, res)
    }
}

/// The effects of entering an `@target ...` line.
pub open spec fn targeted_fx(a: App, line: Seq<char>, fx: Seq<EffectView>) -> bool {
    match crate::sessions::spec_split_target(line) {
        Err(e) => fx == seq![EffectView::Log(LogKind::Info, "[system] "@ + e)],
        Ok((t, cmd)) => if cmd.len() == 0 {
            fx == seq![EffectView::Log(LogKind::Info, "目标之后没有指令内容"@)]
        } else {
            match crate::sessions::spec_builtin_for(cmd) {
                Some(b) => if !(b is Start || b is Stop) {
                    fx == seq![EffectView::Request(RequestView::OnSelected(b))]
                } else if !a.has_runtime {
                    fx == seq![
                        EffectView::Log(
                            LogKind::Info,
                            "[system] "@ + crate::sessions::builtin_text(b) + " 需要控制台接管运行时 (单会话模式不支持)"@,
                        ),
                    ]
                } else {
                    fx == seq![EffectView::Request(RequestView::Batch(t, b))]
                },
                None => exists|hit: nat, ok: nat, errs: Seq<(Seq<char>, Seq<char>)>|
                    send_outcome(a.sessions->0, t, hit, ok, errs) && fx == seq![
                        EffectView::Log(LogKind::Info, send_text(t, hit, ok, errs)),
                    ],
            }
        },
    }
}

/// The input line emptied (with the cursor, the history position and the
/// completions), the history as given.
#[verifier::opaque]
pub open spec fn cleared(a: App, b: App, h: Seq<Seq<char>>) -> bool {
    &&& b == App {
        input: b.input,
        cursor: 0,
        hist: None,
        comp: b.comp,
        history: b.history,
        dirty: true,
        ..a
    }
    &&& b.input@.len() == 0
    &&& comp_empty(b.comp)
    &&& views_of_lines(b.history@) == h
}

/// The views of a list of lines.
pub open spec fn views_of_lines(v: Seq<String>) -> Seq<Seq<char>> {
    crate::text::views_of(v)
}

/// Entering the line: the line is the input without surrounding
/// whitespace. With sessions, `@target ...` goes to the target (see
/// [`targeted_fx`]). Otherwise a non-empty line is kept in the history and
/// handled by [`line_next`]. The input is emptied (and the log scrolled to
/// the bottom for an empty line).
pub open spec fn submit_next(a: App, b: App, fx: Seq<EffectView>) -> bool {
    let line = crate::text::trim(a.input@);
    let h = views_of_lines(a.history@);
    if a.sessions is Some && line.len() > 0 && line[0] == '@' {
        cleared(a, b, pushed(h, line)) && targeted_fx(a, line, fx)
    } else if line.len() == 0 {
        cleared(App { scroll: 0, ..a }, b, h) && fx == Seq::<EffectView>::empty()
    } else {
        line_next(a, b, line, pushed(h, line), fx)
    }
}

/// A non-empty line that is not for a target: a console command becomes a
/// request (`start` with sessions is the same as F4); the rest see
/// [`local_next`]. `hp` is the history afterwards.
pub open spec fn line_next(a: App, b: App, line: Seq<char>, hp: Seq<Seq<char>>, fx: Seq<EffectView>) -> bool {
    match crate::sessions::spec_builtin_for(line) {
        Some(bi) => cleared(a, b, hp) && fx == seq![
            EffectView::Request(
                if bi is Start && a.sessions is Some {
                    RequestView::Toggle
                } else {
                    RequestView::OnSelected(bi)
                },
            ),
        ],
        None => local_next(a, b, line, hp, fx),
    }
}

/// `clear`/`cls` empty the log; the rest see [`rest_next`].
pub open spec fn local_next(a: App, b: App, line: Seq<char>, hp: Seq<Seq<char>>, fx: Seq<EffectView>) -> bool {
    if line == "clear"@ || line == "cls"@ {
        cleared(App { scroll: 0, ..a }, b, hp) && fx == seq![
            EffectView::ClearLog,
            EffectView::Log(LogKind::Info, "[system] log cleared"@),
        ]
    } else {
        rest_next(a, b, line, hp, fx)
    }
}

/// `bag` toggles the inventory page; `npmenu [on|off]` and `shop menu
/// [on|off]` switch the choosers; anything else is sent to the bot and
/// echoed, the log scrolled to the bottom.
pub open spec fn rest_next(a: App, b: App, line: Seq<char>, hp: Seq<Seq<char>>, fx: Seq<EffectView>) -> bool {
    if line == "bag"@ {
        cleared(
            App { bag_open: !a.bag_open, bag_scroll: 0, bag_panel: 0, help_open: false, ..a },
            b,
            hp,
        ) && fx == Seq::<EffectView>::empty()
    } else if line == "npmenu"@ || crate::text::has_prefix(line, "npmenu "@) {
        switch_next(a, b, line, hp, fx, true)
    } else if crate::text::has_prefix(line, "shop menu"@) {
        switch_next(a, b, line, hp, fx, false)
    } else {
        cleared(App { scroll: 0, ..a }, b, hp) && fx == seq![
            EffectView::Log(LogKind::Cmd, "> "@ + line),
            EffectView::Send(line),
        ]
    }
}

/// `npmenu [on|off]` (`npc`) or `shop menu [on|off]`: a good argument
/// switches the chooser (switching it off closes it); a bad one is
/// reported.
pub open spec fn switch_next(a: App, b: App, line: Seq<char>, hp: Seq<Seq<char>>, fx: Seq<EffectView>, npc: bool) -> bool {
    let word = if npc {
        "npmenu"@
    } else {
        "shop menu"@
    };
    let arg = crate::text::trim(strip_all(line, word));
    match switch_arg(arg) {
        Some(on) => if npc {
            cleared(App { npmenu: on, npc_pick_open: if on { a.npc_pick_open } else { false }, ..a }, b, hp)
                && fx == seq![
                EffectView::Log(LogKind::Info, "[npmenu] "@ + (if on { "开"@ } else { "关"@ }) + " (NPC 选项弹框)"@),
            ]
        } else {
            cleared(App { shop_menu: on, shop_pick_open: if on { a.shop_pick_open } else { false }, ..a }, b, hp)
                && fx == seq![
                EffectView::Log(LogKind::Info, "[shop] menu "@ + (if on { "开"@ } else { "关"@ }) + " (商店购买弹框)"@),
            ]
        },
        None => bad_arg_next(a, b, hp) && fx == seq![
            EffectView::Log(
                LogKind::Info,
                (if npc {
                    "[npmenu] bad arg: "@
                } else {
                    "[shop] bad menu arg: "@
                }) + arg + " (on|off)"@,
            ),
        ],
    }
}

/// A bad switch argument: only the input and its cursor are reset.
#[verifier::opaque]
pub open spec fn bad_arg_next(a: App, b: App, h: Seq<Seq<char>>) -> bool {
    &&& b == App { input: b.input, cursor: 0, history: b.history, dirty: true, ..a }
    &&& b.input@.len() == 0
    &&& views_of_lines(b.history@) == h
}

/// The position after all leading repetitions of `p` in `v`.
fn strip_all_at(v: &Vec<char>, p: &Vec<char>) -> (k: usize)
    ensures
        k <= v.len(),
        v@.skip(k as int) == strip_all(v@, p@),
{
    let mut k: usize = 0;
    proof {
        assert(v@.skip(0) =~= v@);
    }
    if p.len() == 0 {
        return 0;
    }
    while starts_with_at_safe(v, k, p)
        invariant
            k <= v.len(),
            p@.len() > 0,
            strip_all(v@.skip(k as int), p@) == strip_all(v@, p@),
        decreases v.len() - k,
    {
        proof {
            assert(v@.skip(k as int).skip(p@.len() as int) =~= v@.skip(k + p@.len()));
        }
        k = k + p.len();
    }
    k
}

/// `v[k..]` starts with the non-empty `p`.
fn starts_with_at_safe(v: &Vec<char>, k: usize, p: &Vec<char>) -> (r: bool)
    requires
        k <= v.len(),
    ensures
        r == crate::text::has_prefix(v@.skip(k as int), p@),
        r ==> k + p@.len() <= v@.len(),
{
    crate::text::starts_with_at(v, k, p, false)
}

/// The lines `"\n  name: reason"` of a report's failures.
pub fn err_lines_of(errs: &Vec<(String, String)>) -> (s: String)
    ensures
        s@ == err_lines(crate::sessions::pair_views(errs@)),
{
    let mut s = String::new();
    let n = errs.len();
    for k in 0..n
        invariant
            n == errs@.len(),
            s@ == err_lines(crate::sessions::pair_views(errs@).take(k as int)),
    {
        proof {
            let pv = crate::sessions::pair_views(errs@);
            assert(pv.take(k + 1).drop_last() =~= pv.take(k as int));
            assert(pv.take(k + 1).last() == (errs@[k as int].0@, errs@[k as int].1@));
        }
        s.append("\n  ");
        s.append(errs[k].0.as_str());
        s.append(": ");
        s.append(errs[k].1.as_str());
    }
    proof {
        assert(crate::sessions::pair_views(errs@).take(n as int) =~= crate::sessions::pair_views(errs@));
    }
    s
}

/// The log line of a command sent to a target.
fn send_text_of(t: &Target, hit: usize, ok: usize, errs: &Vec<(String, String)>) -> (s: String)
    ensures
        s@ == send_text(t@, hit as nat, ok as nat, crate::sessions::pair_views(errs@)),
{
    let mut s = copy_str("[system] ");
    s.append(t.describe().as_str());
    s.append(" → 命中 ");
    s.append(decimal_string(hit as u64).as_str());
    s.append(", 送达 ");
    s.append(decimal_string(ok as u64).as_str());
    s.append(err_lines_of(errs).as_str());
    s
}

pub fn one_effect(e: Effect) -> (fx: Vec<Effect>)
    ensures
        fx_views(fx@) == seq![e@],
{
    let mut fx: Vec<Effect> = Vec::new();
    let ghost v = e@;
    fx.push(e);
    proof {
        assert(fx_views(fx@) =~= seq![v]);
    }
    fx
}

/// A copy of the lines `h[from..]`.
fn copy_lines(h: &Vec<String>, from: usize) -> (r: Vec<String>)
    requires
        from <= h@.len(),
    ensures
        views_of_lines(r@) == views_of_lines(h@).skip(from as int),
{
    let mut out: Vec<String> = Vec::new();
    let n = h.len();
    for i in from..n
        invariant
            from <= n == h@.len(),
            views_of_lines(out@) == views_of_lines(h@).subrange(from as int, i as int),
    {
        let ghost before = views_of_lines(out@);
        out.push(copy_str(h[i].as_str()));
        proof {
            assert(views_of_lines(out@) =~= before.push(h@[i as int]@));
            assert(views_of_lines(h@).subrange(from as int, i + 1) =~= views_of_lines(h@).subrange(from as int, i as int).push(h@[i as int]@));
        }
    }
    proof {
        assert(views_of_lines(h@).subrange(from as int, n as int) =~= views_of_lines(h@).skip(from as int));
    }
    out
}

/// The history after entering `line` (see [`pushed`]).
fn pushed_lines(h: &Vec<String>, line: &str) -> (r: Vec<String>)
    ensures
        views_of_lines(r@) == pushed(views_of_lines(h@), line@),
        r@.len() >= h@.len(),
{
    let n = h.len();
    let fresh = line.unicode_len() > 0 && (n == 0 || !crate::text::str_eq(h[n - 1].as_str(), line));
    proof {
        if n > 0 {
            assert(views_of_lines(h@).last() == h@[n - 1]@);
        }
    }
    if !fresh {
        let r = copy_lines(h, 0);
        proof {
            assert(views_of_lines(h@).skip(0) =~= views_of_lines(h@));
        }
        return r;
    }
    let from: usize = if n >= HISTORY_CAP {
        1
    } else {
        0
    };
    let mut r = copy_lines(h, from);
    let ghost before = views_of_lines(r@);
    r.push(copy_str(line));
    proof {
        assert(views_of_lines(r@) =~= before.push(line@));
        if from == 1 {
            assert(views_of_lines(h@).push(line@).drop_first() =~= views_of_lines(h@).skip(1).push(line@));
        } else {
            assert(views_of_lines(h@).skip(0) =~= views_of_lines(h@));
        }
    }
    r
}

impl App {
    fn push_history(&mut self, line: &str)
        ensures
            *final(self) == (App { history: final(self).history, ..*old(self) }),
            views_of_lines(final(self).history@) == pushed(views_of_lines(old(self).history@), line@),
            final(self).history@.len() >= old(self).history@.len(),
    {
        let h = pushed_lines(&self.history, line);
        self.history = h;
    }

    fn clear_input(&mut self)
        ensures
            *final(self) == (App {
                input: final(self).input,
                cursor: 0,
                hist: None,
                comp: final(self).comp,
                dirty: true,
                ..*old(self)
            }),
            final(self).input@.len() == 0,
            comp_empty(final(self).comp),
    {
        self.input = String::new();
        self.cursor = 0;
        self.hist = None;
        self.comp = CompState::empty();
        self.dirty = true;
    }

    /// What sending `cmd` to `t` reports (see [`send_outcome`]).
    fn send_targeted(&self, t: &Target, cmd: &str) -> (r: (usize, usize, Vec<(String, String)>))
        requires
            self.sessions is Some,
        ensures
            send_outcome(self.sessions->0, t@, r.0 as nat, r.1 as nat, crate::sessions::pair_views(r.2@)),
    {
        let set = self.sessions.as_ref().unwrap();
        match t {
            Target::Selected => {
                let res = match set.selected() {
                    Some(s) => s.try_send(cmd),
                    None => Err(crate::session::SendFailure::Closed),
                };
                match res {
                    Ok(()) => (1, 1, Vec::new()),
                    Err(f) => {
                        let text = match f {
                            crate::session::SendFailure::Full => copy_str("no available capacity"),
                            crate::session::SendFailure::Closed => copy_str("channel closed"),
                        };
                        let mut errs: Vec<(String, String)> = Vec::new();
                        errs.push((copy_str("当前会话"), text));
                        proof {
                            assert(crate::sessions::pair_views(errs@) =~= seq![("当前会话"@, channel_error_text(f))]);
                        }
                        (1, 0, errs)
                    },
                }
            },
            _ => set.dispatch(t, cmd),
        }
    }

    /// The effects of an `@target ...` line (see [`targeted_fx`]).
    fn targeted_effects(&self, line: &str) -> (fx: Vec<Effect>)
        requires
            self.sessions is Some,
        ensures
            targeted_fx(*self, line@, fx_views(fx@)),
    {
        match crate::sessions::split_target(line) {
            Err(e) => {
                let mut m = copy_str("[system] ");
                m.append(e.as_str());
                one_effect(Effect::Log(LogKind::Info, m))
            },
            Ok((t, cmd)) => {
                if cmd.as_str().unicode_len() == 0 {
                    return one_effect(Effect::Log(LogKind::Info, copy_str("目标之后没有指令内容")));
                }
                match SessionSet::builtin_for_target(cmd.as_str()) {
                    Some(b) => {
                        if !b.is_per_session() {
                            one_effect(Effect::Request(Request::OnSelected(b)))
                        } else if !self.has_runtime {
                            let mut m = copy_str("[system] ");
                            m.append(b.describe());
                            m.append(" 需要控制台接管运行时 (单会话模式不支持)");
                            one_effect(Effect::Log(LogKind::Info, m))
                        } else {
                            one_effect(Effect::Request(Request::Batch(t, b)))
                        }
                    },
                    None => {
                        let (hit, ok, errs) = self.send_targeted(&t, cmd.as_str());
                        let text = send_text_of(&t, hit, ok, &errs);
                        one_effect(Effect::Log(LogKind::Info, text))
                    },
                }
            },
        }
    }

    fn submit_targeted(&mut self, line: String) -> (fx: Vec<Effect>)
        requires
            old(self).sessions is Some,
            old(self).wf(),
        ensures
            final(self).wf(),
            cleared(*old(self), *final(self), pushed(views_of_lines(old(self).history@), line@)),
            targeted_fx(*old(self), line@, fx_views(fx@)),
    {
        let fx = self.targeted_effects(line.as_str());
        let h = pushed_lines(&self.history, line.as_str());
        self.clear_with(h);
        fx
    }

    /// Empties the input line (cursor, history position, completions) and
    /// takes `h` as the history.
    fn clear_with(&mut self, h: Vec<String>)
        requires
            old(self).wf(),
        ensures
            final(self).wf(),
            cleared(*old(self), *final(self), views_of_lines(h@)),
    {
        proof {
            reveal(cleared);
            reveal(bad_arg_next);
        }
        self.history = h;
        self.clear_input();
    }

    /// Like [`Self::clear_with`], and scrolls the log to the bottom.
    fn clear_with_scroll(&mut self, h: Vec<String>)
        requires
            old(self).wf(),
        ensures
            final(self).wf(),
            cleared(App { scroll: 0, ..*old(self) }, *final(self), views_of_lines(h@)),
    {
        proof {
            reveal(cleared);
            reveal(bad_arg_next);
        }
        self.scroll = 0;
        self.history = h;
        self.clear_input();
    }

    /// `bag`: toggles the inventory page (from its first page).
    fn submit_bag(&mut self, h: Vec<String>)
        requires
            old(self).wf(),
        ensures
            final(self).wf(),
            cleared(
                App { bag_open: !old(self).bag_open, bag_scroll: 0, bag_panel: 0, help_open: false, ..*old(self) },
                *final(self),
                views_of_lines(h@),
            ),
    {
        proof {
            reveal(cleared);
            reveal(bad_arg_next);
        }
        self.bag_open = !self.bag_open;
        self.bag_scroll = 0;
        self.bag_panel = 0;
        self.help_open = false;
        self.history = h;
        self.clear_input();
    }

    fn switch_chooser(&mut self, npc: bool, on: bool, h: Vec<String>)
        requires
            old(self).wf(),
        ensures
            final(self).wf(),
            npc ==> cleared(
                App { npmenu: on, npc_pick_open: if on { old(self).npc_pick_open } else { false }, ..*old(self) },
                *final(self),
                views_of_lines(h@),
            ),
            !npc ==> cleared(
                App { shop_menu: on, shop_pick_open: if on { old(self).shop_pick_open } else { false }, ..*old(self) },
                *final(self),
                views_of_lines(h@),
            ),
    {
        if npc {
            self.switch_npc(on, h);
        } else {
            self.switch_shop(on, h);
        }
    }

    fn switch_npc(&mut self, on: bool, h: Vec<String>)
        requires
            old(self).wf(),
        ensures
            final(self).wf(),
            cleared(
                App { npmenu: on, npc_pick_open: if on { old(self).npc_pick_open } else { false }, ..*old(self) },
                *final(self),
                views_of_lines(h@),
            ),
    {
        proof {
            reveal(cleared);
            reveal(bad_arg_next);
        }
        self.npmenu = on;
        self.npc_pick_open = on && self.npc_pick_open;
        self.history = h;
        self.clear_input();
    }

    fn switch_shop(&mut self, on: bool, h: Vec<String>)
        requires
            old(self).wf(),
        ensures
            final(self).wf(),
            cleared(
                App { shop_menu: on, shop_pick_open: if on { old(self).shop_pick_open } else { false }, ..*old(self) },
                *final(self),
                views_of_lines(h@),
            ),
    {
        proof {
            reveal(cleared);
            reveal(bad_arg_next);
        }
        self.shop_menu = on;
        self.shop_pick_open = on && self.shop_pick_open;
        self.history = h;
        self.clear_input();
    }

    /// Empties the input after a bad argument.
    fn drop_line(&mut self, h: Vec<String>)
        requires
            old(self).wf(),
            h@.len() >= old(self).history@.len(),
        ensures
            final(self).wf(),
            bad_arg_next(*old(self), *final(self), views_of_lines(h@)),
    {
        proof {
            reveal(cleared);
            reveal(bad_arg_next);
        }
        self.input = String::new();
        self.cursor = 0;
        self.history = h;
        self.dirty = true;
    }

    /// `npmenu [on|off]` / `shop menu [on|off]` (see [`switch_next`]).
    fn switch_cmd(&mut self, v: &Vec<char>, npc: bool, h: Vec<String>) -> (fx: Vec<Effect>)
        requires
            old(self).wf(),
            h@.len() >= old(self).history@.len(),
        ensures
            final(self).wf(),
            switch_next(*old(self), *final(self), v@, views_of_lines(h@), fx_views(fx@), npc),
    {
        let arg = arg_after(v, if npc {
            "npmenu"
        } else {
            "shop menu"
        });
        match switch_of(arg.as_str()) {
            Some(on) => {
                self.switch_chooser(npc, on, h);
                let mut m = if npc {
                    copy_str("[npmenu] ")
                } else {
                    copy_str("[shop] menu ")
                };
                m.append(if on {
                    "开"
                } else {
                    "关"
                });
                m.append(if npc {
                    " (NPC 选项弹框)"
                } else {
                    " (商店购买弹框)"
                });
                one_effect(Effect::Log(LogKind::Info, m))
            },
            None => {
                self.drop_line(h);
                let mut m = if npc {
                    copy_str("[npmenu] bad arg: ")
                } else {
                    copy_str("[shop] bad menu arg: ")
                };
                m.append(arg.as_str());
                m.append(" (on|off)");
                one_effect(Effect::Log(LogKind::Info, m))
            },
        }
    }

    /// A line that is neither for a target nor a console command (see
    /// [`local_next`]).
    fn submit_local(&mut self, line: String, lv: &Vec<char>, h: Vec<String>) -> (fx: Vec<Effect>)
        requires
            lv@ == line@,
            old(self).wf(),
            h@.len() >= old(self).history@.len(),
        ensures
            final(self).wf(),
            local_next(*old(self), *final(self), line@, views_of_lines(h@), fx_views(fx@)),
    {
        if crate::text::str_eq(line.as_str(), "clear") || crate::text::str_eq(line.as_str(), "cls") {
            self.clear_with_scroll(h);
            let mut fx: Vec<Effect> = Vec::new();
            fx.push(Effect::ClearLog);
            fx.push(Effect::Log(LogKind::Info, copy_str("[system] log cleared")));
            proof {
                assert(fx_views(fx@) =~= seq![
                    EffectView::ClearLog,
                    EffectView::Log(LogKind::Info, "[system] log cleared"@),
                ]);
            }
            fx
        } else {
            self.submit_rest(line, lv, h)
        }
    }

    /// See [`rest_next`].
    fn submit_rest(&mut self, line: String, lv: &Vec<char>, h: Vec<String>) -> (fx: Vec<Effect>)
        requires
            lv@ == line@,
            old(self).wf(),
            h@.len() >= old(self).history@.len(),
        ensures
            final(self).wf(),
            rest_next(*old(self), *final(self), line@, views_of_lines(h@), fx_views(fx@)),
    {
        proof {
            assert(lv@.skip(0) =~= lv@);
        }
        if crate::text::str_eq(line.as_str(), "bag") {
            self.submit_bag(h);
            return no_effects();
        }
        let np = crate::text::chars_of("npmenu ");
        if crate::text::str_eq(line.as_str(), "npmenu") || crate::text::starts_with_at(lv, 0, &np, false) {
            return self.switch_cmd(lv, true, h);
        }
        let sp = crate::text::chars_of("shop menu");
        if crate::text::starts_with_at(lv, 0, &sp, false) {
            return self.switch_cmd(lv, false, h);
        }
        self.submit_send(line, h)
    }

    /// A line for the bot: sent and echoed.
    fn submit_send(&mut self, line: String, h: Vec<String>) -> (fx: Vec<Effect>)
        requires
            old(self).wf(),
        ensures
            final(self).wf(),
            cleared(App { scroll: 0, ..*old(self) }, *final(self), views_of_lines(h@)),
            fx_views(fx@) == seq![EffectView::Log(LogKind::Cmd, "> "@ + line@), EffectView::Send(line@)],
    {
        let mut echo = copy_str("> ");
        echo.append(line.as_str());
        let ghost lw = line@;
        let mut fx: Vec<Effect> = Vec::new();
        fx.push(Effect::Log(LogKind::Cmd, echo));
        fx.push(Effect::Send(line));
        proof {
            assert(fx_views(fx@) =~= seq![EffectView::Log(LogKind::Cmd, "> "@ + lw), EffectView::Send(lw)]);
        }
        self.clear_with_scroll(h);
        fx
    }

    /// A non-empty line not for a target (see [`line_next`]).
    fn submit_line(&mut self, line: String) -> (fx: Vec<Effect>)
        requires
            old(self).wf(),
        ensures
            final(self).wf(),
            line_next(*old(self), *final(self), line@, pushed(views_of_lines(old(self).history@), line@), fx_views(fx@)),
    {
        let h = pushed_lines(&self.history, line.as_str());
        match SessionSet::builtin_for_target(line.as_str()) {
            Some(b) => {
                let toggle = match b {
                    Builtin::Start => self.sessions.is_some(),
                    _ => false,
                };
                let req = if toggle {
                    Request::Toggle
                } else {
                    Request::OnSelected(b)
                };
                self.clear_with(h);
                one_effect(Effect::Request(req))
            },
            None => {
                let lv = crate::text::chars_of(line.as_str());
                self.submit_local(line, &lv, h)
            },
        }
    }

    /// Enters the input line (see [`submit_next`]).
    pub fn submit(&mut self) -> (fx: Vec<Effect>)
        requires
            old(self).wf(),
        ensures
            final(self).wf(),
            submit_next(*old(self), *final(self), fx_views(fx@)),
    {
        let v = crate::text::chars_of(self.input.as_str());
        let (x, y) = crate::text::trim_bounds(&v);
        let line = crate::text::string_of(&v, x, y);
        if self.sessions.is_some() && x < y && v[x] == '@' {
            return self.submit_targeted(line);
        }
        if x == y {
            let h = copy_lines(&self.history, 0);
            proof {
                assert(views_of_lines(self.history@).skip(0) =~= views_of_lines(self.history@));
            }
            self.clear_with_scroll(h);
            return no_effects();
        }
        self.submit_line(line)
    }
}

/// The argument after the command word(s): what follows all leading
/// repetitions of `word`, without surrounding whitespace.
fn arg_after(v: &Vec<char>, word: &str) -> (arg: String)
    ensures
        arg@ == crate::text::trim(strip_all(v@, word@)),
{
    let p: Vec<char> = crate::text::chars_of(word);
    let k = strip_all_at(v, &p);
    let rest = crate::text::string_of(v, k, v.len());
    proof {
        assert(v@.subrange(k as int, v@.len() as int) =~= v@.skip(k as int));
    }
    let rv = crate::text::chars_of(rest.as_str());
    let (x, y) = crate::text::trim_bounds(&rv);
    crate::text::string_of(&rv, x, y)
}

/// An on/off argument (see [`switch_arg`]).
fn switch_of(arg: &str) -> (r: Option<bool>)
    ensures
        r == switch_arg(arg@),
{
    if arg.unicode_len() == 0 || crate::text::str_eq(arg, "on") || crate::text::str_eq(arg, "1") || crate::text::str_eq(arg, "open") {
        Some(true)
    } else if crate::text::str_eq(arg, "off") || crate::text::str_eq(arg, "0") || crate::text::str_eq(arg, "close") {
        Some(false)
    } else {
        None
    }
}

// ------------------------------------------------------------------ keys

/// F1 toggles help, F2 the board (with several sessions), F3 asks to
/// restart the selected session, F4 to start or stop it.
#[verifier::opaque]
pub open spec fn fkey_next(a: App, b: App, n: u8, fx: Seq<EffectView>) -> bool {
    if n == 1 {
        b == App { help_open: !a.help_open, help_scroll: 0, dirty: true, ..a } && fx == Seq::<EffectView>::empty()
    } else if n == 2 {
        fx == Seq::<EffectView>::empty() && if several(a.sessions) {
            b == App { board_open: !a.board_open, board_scroll: 0, dirty: true, ..a }
        } else {
            b == a
        }
    } else if n == 3 {
        b == a && fx == seq![EffectView::Request(RequestView::ManualRestart)]
    } else if n == 4 {
        b == a && fx == seq![EffectView::Request(RequestView::Toggle)]
    } else {
        b == a && fx == Seq::<EffectView>::empty()
    }
}

/// With sessions, entering a bare `start` asks for exactly what F4 asks
/// for (start the selected session, or stop it; the login form when it
/// has no password).
pub proof fn law_bare_start_is_f4(
    a: App,
    b: App,
    hp: Seq<Seq<char>>,
    fx: Seq<EffectView>,
    c: App,
    fx2: Seq<EffectView>,
)
    requires
        a.sessions is Some,
        line_next(a, b, "start"@, hp, fx),
        fkey_next(a, c, 4, fx2),
    ensures
        fx == fx2,
        fx == seq![EffectView::Request(RequestView::Toggle)],
{
    reveal(fkey_next);
    reveal_strlit("start");
    assert(crate::text::trim_start("start"@) == "start"@);
    assert(crate::text::trim_end("start"@) == "start"@);
    assert(crate::sessions::spec_builtin_for("start"@) == Some(BuiltinModel::Start));
}

/// A character: with Ctrl only Ctrl+C counts; otherwise it is inserted at
/// the cursor, the history position is dropped and the completions are
/// refreshed.
#[verifier::opaque]
pub open spec fn char_next(a: App, b: App, key: KeyInput, c: char, now: u64, fx: Seq<EffectView>) -> bool {
    if key.ctrl {
        if c == 'c' {
            ctrl_c_next(a, b, now, fx)
        } else {
            b == a && fx == Seq::<EffectView>::empty()
        }
    } else {
        &&& b == App {
            input: b.input,
            cursor: (a.cursor + 1) as usize,
            hist: None,
            comp: b.comp,
            dirty: true,
            ..a
        }
        &&& b.input@ == a.input@.insert(a.cursor as int, c)
        &&& refreshed(a, b, fx)
    }
}

/// `Backspace` deletes the character before the cursor.
#[verifier::opaque]
pub open spec fn backspace_next(a: App, b: App, fx: Seq<EffectView>) -> bool {
    if a.cursor == 0 {
        b == a && fx == Seq::<EffectView>::empty()
    } else {
        &&& b == App {
            input: b.input,
            cursor: (a.cursor - 1) as usize,
            hist: None,
            comp: b.comp,
            dirty: true,
            ..a
        }
        &&& b.input@ == a.input@.remove(a.cursor - 1)
        &&& refreshed(a, b, fx)
    }
}

/// `Delete` deletes the character under the cursor.
#[verifier::opaque]
pub open spec fn delete_next(a: App, b: App, fx: Seq<EffectView>) -> bool {
    if a.cursor >= a.input@.len() {
        b == a && fx == Seq::<EffectView>::empty()
    } else {
        &&& b == App { input: b.input, hist: None, comp: b.comp, dirty: true, ..a }
        &&& b.input@ == a.input@.remove(a.cursor as int)
        &&& refreshed(a, b, fx)
    }
}

/// `Left`, `Right`, `Home`, `End` move the cursor within the input.
#[verifier::opaque]
pub open spec fn caret_next(a: App, b: App, code: KeyCode) -> bool {
    b == App {
        cursor: if code == KeyCode::Left {
            sat_sub(a.cursor, 1)
        } else if code == KeyCode::Right {
            if a.cursor + 1 <= a.input@.len() {
                (a.cursor + 1) as usize
            } else {
                a.input@.len() as usize
            }
        } else if code == KeyCode::Home {
            0
        } else {
            a.input@.len() as usize
        },
        dirty: true,
        ..a
    }
}

/// Alt+arrow switches to the previous / next session (with several).
#[verifier::opaque]
pub open spec fn alt_next(a: App, b: App, up: bool, fx: Seq<EffectView>) -> bool {
    if several(a.sessions) {
        &&& b == App { sessions: b.sessions, dirty: true, ..a }
        &&& sessions_moved(a.sessions, b.sessions, up)
        &&& fx == seq![EffectView::Sync]
    } else {
        b == a && fx == Seq::<EffectView>::empty()
    }
}

/// An arrow: with Alt it switches sessions; otherwise it steps through the
/// completions when there are some, else through the history.
#[verifier::opaque]
pub open spec fn arrow_next(a: App, b: App, up: bool, alt: bool, fx: Seq<EffectView>) -> bool {
    let n = a.comp.candidates@.len();
    if alt {
        alt_next(a, b, up, fx)
    } else if n > 0 {
        applied(a, b, cycled(a.comp.idx, up, n as usize)) && fx == Seq::<EffectView>::empty()
    } else if up {
        hist_up_next(a, b) && fx == Seq::<EffectView>::empty()
    } else {
        hist_down_next(a, b) && fx == Seq::<EffectView>::empty()
    }
}

/// `Tab` (`BackTab` when `back`): on a blank input it turns the log page;
/// without completions it asks for them (then the first / last is taken);
/// else it steps through them.
#[verifier::opaque]
pub open spec fn tab_next(a: App, b: App, back: bool, fx: Seq<EffectView>) -> bool {
    let n = a.comp.candidates@.len();
    if crate::text::trim(a.input@).len() == 0 {
        &&& b == App {
            filter: filter_at(
                if back {
                    (filter_pos(a.filter) + FILTER_COUNT - 1) % (FILTER_COUNT as int)
                } else {
                    (filter_pos(a.filter) + 1) % (FILTER_COUNT as int)
                },
            ),
            scroll: 0,
            dirty: true,
            ..a
        }
        &&& fx == Seq::<EffectView>::empty()
    } else if n == 0 {
        b == a && fx == seq![EffectView::Complete(if back { CompleteThen::Last } else { CompleteThen::First })]
    } else {
        applied(a, b, cycled(a.comp.idx, back, n as usize)) && fx == Seq::<EffectView>::empty()
    }
}

/// `Esc` drops the completions, or (without them) the input.
#[verifier::opaque]
pub open spec fn esc_next(a: App, b: App, fx: Seq<EffectView>) -> bool {
    &&& fx == Seq::<EffectView>::empty()
    &&& if a.comp.candidates@.len() > 0 {
        b == App { comp: b.comp, dirty: true, ..a } && comp_empty(b.comp)
    } else {
        b == App { input: b.input, cursor: 0, dirty: true, ..a } && b.input@.len() == 0
    }
}

/// A key at the command line.
pub open spec fn input_next(a: App, b: App, key: KeyInput, now: u64, fx: Seq<EffectView>) -> bool {
    match key.code {
        KeyCode::F(n) => fkey_next(a, b, n, fx),
        KeyCode::Char(c) => char_next(a, b, key, c, now, fx),
        KeyCode::Backspace => backspace_next(a, b, fx),
        KeyCode::Delete => delete_next(a, b, fx),
        KeyCode::Left | KeyCode::Right | KeyCode::Home | KeyCode::End => caret_next(a, b, key.code) && fx
            == Seq::<EffectView>::empty(),
        KeyCode::Up => arrow_next(a, b, true, key.alt, fx),
        KeyCode::Down => arrow_next(a, b, false, key.alt, fx),
        KeyCode::Tab => tab_next(a, b, false, fx),
        KeyCode::BackTab => tab_next(a, b, true, fx),
        KeyCode::Enter => submit_next(a, b, fx),
        KeyCode::Esc => esc_next(a, b, fx),
        KeyCode::PageUp => b == App { scroll: sat_add(a.scroll, 10), dirty: true, ..a } && fx
            == Seq::<EffectView>::empty(),
        KeyCode::PageDown => b == App { scroll: sat_sub(a.scroll, 10), dirty: true, ..a } && fx
            == Seq::<EffectView>::empty(),
        _ => b == a && fx == Seq::<EffectView>::empty(),
    }
}

impl App {
    fn fkey(&mut self, n: u8) -> (fx: Vec<Effect>)
        requires
            old(self).wf(),
        ensures
            final(self).wf(),
            fkey_next(*old(self), *final(self), n, fx_views(fx@)),
    {
        proof {
            reveal(fkey_next);
        }
        if n == 1 {
            self.help_open = !self.help_open;
            self.help_scroll = 0;
            self.dirty = true;
            no_effects()
        } else if n == 2 {
            self.toggle_board_if_several();
            no_effects()
        } else if n == 3 {
            one_effect(Effect::Request(Request::ManualRestart))
        } else if n == 4 {
            one_effect(Effect::Request(Request::Toggle))
        } else {
            no_effects()
        }
    }

    fn toggle_board_if_several(&mut self)
        ensures
            several(old(self).sessions) ==> *final(self) == (App {
                board_open: !old(self).board_open,
                board_scroll: 0,
                dirty: true,
                ..*old(self)
            }),
            !several(old(self).sessions) ==> *final(self) == *old(self),
    {
        let n = match &self.sessions {
            Some(set) => set.len(),
            None => 0,
        };
        if n > 1 {
            self.board_open = !self.board_open;
            self.board_scroll = 0;
            self.dirty = true;
        }
    }

    fn char_key(&mut self, key: KeyInput, c: char, now: u64) -> (fx: Vec<Effect>)
        requires
            old(self).wf(),
        ensures
            final(self).wf(),
            char_next(*old(self), *final(self), key, c, now, fx_views(fx@)),
    {
        proof {
            reveal(char_next);
        }
        if key.ctrl {
            if c == 'c' {
                self.on_ctrl_c(now)
            } else {
                no_effects()
            }
        } else {
            self.insert_key(c)
        }
    }

    fn backspace(&mut self) -> (fx: Vec<Effect>)
        requires
            old(self).wf(),
        ensures
            final(self).wf(),
            backspace_next(*old(self), *final(self), fx_views(fx@)),
    {
        proof {
            reveal(backspace_next);
        }
        let fx = self.backspace_key();
        proof {
            if old(self).cursor == 0 {
                assert(fx_views(fx@) =~= Seq::<EffectView>::empty());
            }
        }
        fx
    }

    fn delete(&mut self) -> (fx: Vec<Effect>)
        requires
            old(self).wf(),
        ensures
            final(self).wf(),
            delete_next(*old(self), *final(self), fx_views(fx@)),
    {
        proof {
            reveal(delete_next);
        }
        let fx = self.delete_key();
        proof {
            if old(self).cursor >= old(self).input@.len() {
                assert(fx_views(fx@) =~= Seq::<EffectView>::empty());
            }
        }
        fx
    }

    fn caret(&mut self, code: KeyCode)
        requires
            old(self).wf(),
            code == KeyCode::Left || code == KeyCode::Right || code == KeyCode::Home || code == KeyCode::End,
        ensures
            final(self).wf(),
            caret_next(*old(self), *final(self), code),
    {
        proof {
            reveal(caret_next);
        }
        self.cursor_key(code);
    }

    fn alt_move(&mut self, up: bool) -> (fx: Vec<Effect>)
        requires
            old(self).wf(),
        ensures
            final(self).wf(),
            alt_next(*old(self), *final(self), up, fx_views(fx@)),
    {
        proof {
            reveal(alt_next);
        }
        if self.select_session_step(up) {
            self.dirty = true;
            one_effect(Effect::Sync)
        } else {
            no_effects()
        }
    }

    fn arrow(&mut self, up: bool, alt: bool) -> (fx: Vec<Effect>)
        requires
            old(self).wf(),
        ensures
            final(self).wf(),
            arrow_next(*old(self), *final(self), up, alt, fx_views(fx@)),
    {
        proof {
            reveal(arrow_next);
        }
        if alt {
            return self.alt_move(up);
        }
        let n = self.comp.candidates.len();
        if n > 0 {
            let k = cycle(self.comp.idx, up, n);
            self.apply_completion(k);
        } else if up {
            self.history_up();
        } else {
            self.history_down();
        }
        no_effects()
    }

    fn tab(&mut self, back: bool) -> (fx: Vec<Effect>)
        requires
            old(self).wf(),
        ensures
            final(self).wf(),
            tab_next(*old(self), *final(self), back, fx_views(fx@)),
    {
        proof {
            reveal(tab_next);
        }
        if is_blank(self.input.as_str()) {
            self.turn_page(back);
            return no_effects();
        }
        let n = self.comp.candidates.len();
        if n == 0 {
            return one_effect(Effect::Complete(
                if back {
                    CompleteThen::Last
                } else {
                    CompleteThen::First
                },
            ));
        }
        let k = cycle(self.comp.idx, back, n);
        self.apply_completion(k);
        no_effects()
    }

    /// The next (or, `back`, the previous) log page, from the bottom.
    fn turn_page(&mut self, back: bool)
        ensures
            *final(self) == (App {
                filter: filter_at(
                    if back {
                        (filter_pos(old(self).filter) + FILTER_COUNT - 1) % (FILTER_COUNT as int)
                    } else {
                        (filter_pos(old(self).filter) + 1) % (FILTER_COUNT as int)
                    },
                ),
                scroll: 0,
                dirty: true,
                ..*old(self)
            }),
    {
        let f = if back {
            self.filter.prev()
        } else {
            self.filter.next()
        };
        self.filter = f;
        self.scroll = 0;
        self.dirty = true;
    }

    #[verifier::spinoff_prover]
    #[verifier::rlimit(50)]
    fn esc(&mut self) -> (fx: Vec<Effect>)
        requires
            old(self).wf(),
        ensures
            final(self).wf(),
            esc_next(*old(self), *final(self), fx_views(fx@)),
    {
        proof {
            reveal(esc_next);
        }
        if self.comp.candidates.len() > 0 {
            self.comp = CompState::empty();
            self.dirty = true;
        } else {
            self.input = String::new();
            self.cursor = 0;
            self.dirty = true;
        }
        no_effects()
    }

    fn page(&mut self, up: bool)
        ensures
            up ==> *final(self) == (App { scroll: sat_add(old(self).scroll, 10), dirty: true, ..*old(self) }),
            !up ==> *final(self) == (App { scroll: sat_sub(old(self).scroll, 10), dirty: true, ..*old(self) }),
    {
        let v = if up {
            sadd(self.scroll, 10)
        } else {
            ssub(self.scroll, 10)
        };
        self.scroll = v;
        self.dirty = true;
    }

    /// A key at the command line (see [`input_next`]).
    fn on_input_key(&mut self, key: KeyInput, now: u64) -> (fx: Vec<Effect>)
        requires
            old(self).wf(),
        ensures
            final(self).wf(),
            input_next(*old(self), *final(self), key, now, fx_views(fx@)),
    {
        match key.code {
            KeyCode::F(n) => self.fkey(n),
            KeyCode::Char(c) => self.char_key(key, c, now),
            KeyCode::Backspace => self.backspace(),
            KeyCode::Delete => self.delete(),
            KeyCode::Left => {
                self.caret(KeyCode::Left);
                no_effects()
            },
            KeyCode::Right => {
                self.caret(KeyCode::Right);
                no_effects()
            },
            KeyCode::Home => {
                self.caret(KeyCode::Home);
                no_effects()
            },
            KeyCode::End => {
                self.caret(KeyCode::End);
                no_effects()
            },
            KeyCode::Up => self.arrow(true, key.alt),
            KeyCode::Down => self.arrow(false, key.alt),
            KeyCode::Tab => self.tab(false),
            KeyCode::BackTab => self.tab(true),
            KeyCode::Enter => self.submit(),
            KeyCode::Esc => self.esc(),
            KeyCode::PageUp => {
                self.page(true);
                no_effects()
            },
            KeyCode::PageDown => {
                self.page(false);
                no_effects()
            },
            _ => no_effects(),
        }
    }
}

/// A key on the login form: `Esc` cancels a form opened for a session
/// (back to the console) or quits; Ctrl+C quits; other keys go to the form,
/// and a submitted form is handed on (to its session, or to the main
/// thread).
#[verifier::opaque]
pub open spec fn wizard_next(a: App, b: App, key: KeyInput, fx: Seq<EffectView>) -> bool {
    match a.wizard {
        None => b == a && fx == Seq::<EffectView>::empty(),
        Some(w) => if key.code == KeyCode::Esc {
            fx == Seq::<EffectView>::empty() && if a.wizard_target is Some {
                b == App { wizard: None, wizard_target: None, stage: STAGE_RUNNING, dirty: true, ..a }
            } else {
                b == App { force_quit: true, ..a }
            }
        } else if is_ctrl_c(key) {
            b == App { force_quit: true, ..a } && fx == Seq::<EffectView>::empty()
        } else {
            let (w2, done) = crate::wizard::spec_on_key(w@, key);
            &&& b == App { wizard: b.wizard, ..a }
            &&& b.wizard matches Some(x) && x@ == w2
            &&& fx == if done && w2.result is Some {
                if a.wizard_target is Some {
                    seq![EffectView::Request(RequestView::ApplyWizard(w2.result->0))]
                } else {
                    seq![EffectView::Submitted(w2.result->0)]
                }
            } else {
                Seq::<EffectView>::empty()
            }
        },
    }
}

/// A key once the bot has finished: scrolling, switching sessions, help,
/// the board, F3/F4, and Ctrl+C (remembered without redrawing).
#[verifier::opaque]
pub open spec fn finished_next(a: App, b: App, key: KeyInput, now: u64, fx: Seq<EffectView>) -> bool {
    match key.code {
        KeyCode::PageUp => b == App { scroll: sat_add(a.scroll, 10), dirty: true, ..a } && fx
            == Seq::<EffectView>::empty(),
        KeyCode::PageDown => b == App { scroll: sat_sub(a.scroll, 10), dirty: true, ..a } && fx
            == Seq::<EffectView>::empty(),
        KeyCode::Up => if key.alt {
            alt_next(a, b, true, fx)
        } else {
            b == App { scroll: sat_add(a.scroll, 1), dirty: true, ..a } && fx == Seq::<EffectView>::empty()
        },
        KeyCode::Down => if key.alt {
            alt_next(a, b, false, fx)
        } else {
            b == App { scroll: sat_sub(a.scroll, 1), dirty: true, ..a } && fx == Seq::<EffectView>::empty()
        },
        KeyCode::F(n) => if n == 1 {
            b == App { help_open: !a.help_open, help_scroll: 0, dirty: true, ..a } && fx == Seq::<EffectView>::empty()
        } else if n == 2 {
            fx == Seq::<EffectView>::empty() && if a.sessions is Some {
                b == App { board_open: !a.board_open, board_scroll: 0, dirty: true, ..a }
            } else {
                b == a
            }
        } else if n == 3 {
            b == a && fx == seq![EffectView::Request(RequestView::ManualRestart)]
        } else if n == 4 {
            b == a && fx == seq![EffectView::Request(RequestView::Toggle)]
        } else {
            b == a && fx == Seq::<EffectView>::empty()
        },
        _ => if is_ctrl_c(key) {
            b == App { ctrl_c: Some(now), ..a } && fx == Seq::<EffectView>::empty()
        } else {
            b == a && fx == Seq::<EffectView>::empty()
        },
    }
}

/// A key press (see the `*_next` functions for each situation): releases
/// are ignored; the login form takes the keys at its stage; while running,
/// an open chooser, popup or page takes them in the order login chooser,
/// NPC options, shop, board, help, inventory, else the command line; after
/// the bot finished see [`finished_next`].
pub open spec fn key_next(a: App, b: App, key: KeyInput, now: u64, fx: Seq<EffectView>) -> bool {
    if key.release {
        b == a && fx == Seq::<EffectView>::empty()
    } else if a.stage == STAGE_WIZARD {
        wizard_next(a, b, key, fx)
    } else if a.stage == STAGE_RUNNING {
        if !(a.picker is Closed) {
            picker_next(a, b, key, now, fx)
        } else if a.npc_pick_open {
            npc_next(a, b, key, now, fx)
        } else if a.shop_pick_open {
            shop_next(a, b, key, now, fx)
        } else if a.board_open {
            board_next(a, b, key.code) && fx == Seq::<EffectView>::empty()
        } else if a.help_open {
            help_next(a, b, key.code) && fx == Seq::<EffectView>::empty()
        } else if a.bag_open {
            bag_next(a, b, key.code) && fx == bag_fx(a, key.code)
        } else {
            input_next(a, b, key, now, fx)
        }
    } else {
        finished_next(a, b, key, now, fx)
    }
}

impl App {
    fn wizard_key(&mut self, key: KeyInput) -> (fx: Vec<Effect>)
        requires
            old(self).wf(),
        ensures
            final(self).wf(),
            wizard_next(*old(self), *final(self), key, fx_views(fx@)),
    {
        if self.wizard.is_none() {
            proof {
                reveal(wizard_next);
            }
            return no_effects();
        }
        if key.code == KeyCode::Esc {
            return self.wizard_esc(key);
        }
        if key.ctrl && key.code == KeyCode::Char('c') {
            proof {
                reveal(wizard_next);
            }
            self.quit_now();
            return no_effects();
        }
        self.wizard_typed(key)
    }

    fn wizard_esc(&mut self, key: KeyInput) -> (fx: Vec<Effect>)
        requires
            old(self).wf(),
            old(self).wizard is Some,
            key.code == KeyCode::Esc,
        ensures
            final(self).wf(),
            wizard_next(*old(self), *final(self), key, fx_views(fx@)),
    {
        proof {
            reveal(wizard_next);
        }
        if self.wizard_target.is_some() {
            self.close_wizard();
        } else {
            self.quit_now();
        }
        no_effects()
    }

    fn wizard_typed(&mut self, key: KeyInput) -> (fx: Vec<Effect>)
        requires
            old(self).wf(),
            old(self).wizard is Some,
            key.code != KeyCode::Esc,
            !is_ctrl_c(key),
        ensures
            final(self).wf(),
            wizard_next(*old(self), *final(self), key, fx_views(fx@)),
    {
        proof {
            reveal(wizard_next);
        }
        let r = self.wizard_type(key);
        match r {
            None => no_effects(),
            Some(res) => {
                if self.wizard_target.is_some() {
                    one_effect(Effect::Request(Request::ApplyWizard(res)))
                } else {
                    one_effect(Effect::Submitted(res))
                }
            },
        }
    }

    fn close_wizard(&mut self)
        ensures
            *final(self) == (App {
                wizard: None,
                wizard_target: None,
                stage: STAGE_RUNNING,
                dirty: true,
                ..*old(self)
            }),
    {
        self.wizard = None;
        self.wizard_target = None;
        self.stage = STAGE_RUNNING;
        self.dirty = true;
    }

    /// Gives the key to the login form; returns the form's result when the
    /// key submitted it.
    fn wizard_type(&mut self, key: KeyInput) -> (r: Option<WizardResult>)
        requires
            old(self).wizard is Some,
        ensures
            *final(self) == (App { wizard: final(self).wizard, ..*old(self) }),
            ({
                let (w2, done) = crate::wizard::spec_on_key(old(self).wizard->0@, key);
                &&& final(self).wizard matches Some(x) && x@ == w2
                &&& match r {
                    Some(res) => done && w2.result == Some(result_view(res)),
                    None => !(done && w2.result is Some),
                }
            }),
    {
        let mut w = self.wizard.take().unwrap();
        let done = w.on_key(key);
        let r = if done {
            match &w.result {
                Some(res) => Some(copy_result(res)),
                None => None,
            }
        } else {
            None
        };
        self.wizard = Some(w);
        r
    }

    fn finished_key(&mut self, key: KeyInput, now: u64) -> (fx: Vec<Effect>)
        requires
            old(self).wf(),
        ensures
            final(self).wf(),
            finished_next(*old(self), *final(self), key, now, fx_views(fx@)),
    {
        match key.code {
            KeyCode::PageUp | KeyCode::PageDown | KeyCode::Up | KeyCode::Down => self.finished_scroll(key, now),
            KeyCode::F(n) => self.finished_fkey(key, n, now),
            _ => self.finished_other(key, now),
        }
    }

    fn finished_scroll(&mut self, key: KeyInput, now: u64) -> (fx: Vec<Effect>)
        requires
            old(self).wf(),
            key.code == KeyCode::PageUp || key.code == KeyCode::PageDown || key.code == KeyCode::Up || key.code
                == KeyCode::Down,
        ensures
            final(self).wf(),
            finished_next(*old(self), *final(self), key, now, fx_views(fx@)),
    {
        proof {
            reveal(finished_next);
        }
        if key.code == KeyCode::PageUp {
            self.page(true);
            no_effects()
        } else if key.code == KeyCode::PageDown {
            self.page(false);
            no_effects()
        } else if key.alt {
            self.alt_move(key.code == KeyCode::Up)
        } else {
            self.scroll_by_one(key.code == KeyCode::Up);
            no_effects()
        }
    }

    fn finished_fkey(&mut self, key: KeyInput, n: u8, now: u64) -> (fx: Vec<Effect>)
        requires
            old(self).wf(),
            key.code == KeyCode::F(n),
        ensures
            final(self).wf(),
            finished_next(*old(self), *final(self), key, now, fx_views(fx@)),
    {
        proof {
            reveal(finished_next);
        }
        if n == 1 {
            self.help_open = !self.help_open;
            self.help_scroll = 0;
            self.dirty = true;
            no_effects()
        } else if n == 2 {
            self.toggle_board_if_any();
            no_effects()
        } else if n == 3 {
            one_effect(Effect::Request(Request::ManualRestart))
        } else if n == 4 {
            one_effect(Effect::Request(Request::Toggle))
        } else {
            no_effects()
        }
    }

    fn toggle_board_if_any(&mut self)
        ensures
            old(self).sessions is Some ==> *final(self) == (App {
                board_open: !old(self).board_open,
                board_scroll: 0,
                dirty: true,
                ..*old(self)
            }),
            old(self).sessions is None ==> *final(self) == *old(self),
    {
        if self.sessions.is_some() {
            self.board_open = !self.board_open;
            self.board_scroll = 0;
            self.dirty = true;
        }
    }

    fn finished_other(&mut self, key: KeyInput, now: u64) -> (fx: Vec<Effect>)
        requires
            old(self).wf(),
            !(key.code is PageUp || key.code is PageDown || key.code is Up || key.code is Down || key.code is F),
        ensures
            final(self).wf(),
            finished_next(*old(self), *final(self), key, now, fx_views(fx@)),
    {
        proof {
            reveal(finished_next);
        }
        if key.ctrl && key.code == KeyCode::Char('c') {
            self.ctrl_c = Some(now);
        }
        no_effects()
    }

    fn scroll_by_one(&mut self, up: bool)
        ensures
            up ==> *final(self) == (App { scroll: sat_add(old(self).scroll, 1), dirty: true, ..*old(self) }),
            !up ==> *final(self) == (App { scroll: sat_sub(old(self).scroll, 1), dirty: true, ..*old(self) }),
    {
        let v = if up {
            sadd(self.scroll, 1)
        } else {
            ssub(self.scroll, 1)
        };
        self.scroll = v;
        self.dirty = true;
    }

    /// A key while running, before the command line: the chooser, popups
    /// and pages take it in turn.
    fn running_key(&mut self, key: KeyInput, now: u64) -> (fx: Vec<Effect>)
        requires
            old(self).wf(),
            old(self).stage == STAGE_RUNNING,
        ensures
            final(self).wf(),
            key_next(*old(self), *final(self), key, now, fx_views(fx@)) || key.release,
    {
        if !(self.picker == Picker::Closed) {
            return self.picker_key(key, now);
        }
        if self.npc_pick_open {
            return self.npc_key(key, now);
        }
        if self.shop_pick_open {
            return self.shop_key(key, now);
        }
        if self.board_open {
            self.board_key(key.code);
            return no_effects();
        }
        if self.help_open {
            self.help_key(key.code);
            return no_effects();
        }
        if self.bag_open {
            return self.bag_key(key.code);
        }
        self.on_input_key(key, now)
    }

    /// Handles a key press (see [`key_next`]); `now` is the time in
    /// milliseconds (for Ctrl+C pressed twice).
    pub fn on_key(&mut self, key: KeyInput, now: u64) -> (fx: Vec<Effect>)
        requires
            old(self).wf(),
        ensures
            final(self).wf(),
            key_next(*old(self), *final(self), key, now, fx_views(fx@)),
    {
        if key.release {
            return no_effects();
        }
        if self.stage == STAGE_WIZARD {
            self.wizard_key(key)
        } else if self.stage == STAGE_RUNNING {
            self.running_key(key, now)
        } else {
            self.finished_key(key, now)
        }
    }
}

// ------------------------------------------------------------------ polling

/// The login chooser opens by itself (for a console with the login form)
/// when the bot waits for a gender, a world (with worlds listed) or a
/// character (with characters listed).
pub open spec fn auto_picker_next(a: App) -> App {
    if !a.interactive || a.stage != STAGE_RUNNING || a.wizard is Some || !(a.picker is Closed) {
        a
    } else if a.snap.phase == Phase::GenderPick {
        App { picker: Picker::Gender { sel: 0 }, ..a }
    } else if a.snap.phase == Phase::WorldSelect && a.snap.world_channels@.len() > 0 {
        App { picker: Picker::World { sel: 0 }, ..a }
    } else if a.snap.phase == Phase::CharSelect && a.snap.characters > 0 {
        App { picker: Picker::Char { sel: 0 }, ..a }
    } else {
        a
    }
}

/// The NPC option chooser follows the bot's dialog pages while running
/// without the login form: a scripted task closes it and leaves the page
/// unhandled; switched off nothing happens; a new page opens it (cursor at
/// the top) when it has options and closes it when it has none.
pub open spec fn auto_npc_next(a: App, b: App) -> bool {
    if a.stage != STAGE_RUNNING || a.wizard is Some {
        b == a
    } else if a.snap.task_busy {
        if a.npc_pick_open {
            b == App { npc_pick_open: false, dirty: true, ..a }
        } else {
            b == a
        }
    } else if !a.npmenu || a.snap.npc_options_seq == a.npc_seen_seq {
        b == a
    } else if a.snap.npc_options@.len() == 0 {
        b == App { npc_seen_seq: a.snap.npc_options_seq, npc_pick_open: false, dirty: true, ..a }
    } else {
        b == App {
            npc_seen_seq: a.snap.npc_options_seq,
            npc_pick_open: true,
            npc_pick_cursor: 0,
            npc_pick_scroll: 0,
            dirty: true,
            ..a
        }
    }
}

/// The shop chooser follows the bot's shop lists the same way; its typed
/// quantity is dropped whenever it opens or closes by itself.
pub open spec fn auto_shop_next(a: App, b: App) -> bool {
    if a.stage != STAGE_RUNNING || a.wizard is Some {
        b == a
    } else if a.snap.task_busy {
        if a.shop_pick_open {
            b == App { shop_pick_open: false, shop_qty: b.shop_qty, dirty: true, ..a } && b.shop_qty@.len() == 0
        } else {
            b == a
        }
    } else if !a.shop_menu || a.snap.shop_seq == a.shop_seen_seq {
        b == a
    } else if a.snap.shop_items@.len() == 0 {
        &&& b == App { shop_seen_seq: a.snap.shop_seq, shop_pick_open: false, shop_qty: b.shop_qty, dirty: true, ..a }
        &&& b.shop_qty@.len() == 0
    } else {
        &&& b == App {
            shop_seen_seq: a.snap.shop_seq,
            shop_pick_open: true,
            shop_pick_cursor: 0,
            shop_pick_scroll: 0,
            shop_qty: b.shop_qty,
            dirty: true,
            ..a
        }
        &&& b.shop_qty@.len() == 0
    }
}

/// The completions computed for the input: blank input has none;
/// otherwise they replace the old ones with the first highlighted, and
/// `First` / `Last` put the first / last one into the input.
#[verifier::opaque]
pub open spec fn completions_next(a: App, b: App, cands: Seq<(String, String)>, then: CompleteThen) -> bool {
    if crate::text::trim(a.input@).len() == 0 {
        b == App { comp: b.comp, ..a } && comp_empty(b.comp)
    } else {
        let c = App { comp: CompState { candidates: b.comp.candidates, idx: 0 }, ..a };
        &&& b.comp.candidates@ == cands
        &&& if cands.len() == 0 || then == CompleteThen::Show {
            b == c
        } else {
            applied(c, b, if then == CompleteThen::First { 0 } else { (cands.len() - 1) as usize })
        }
    }
}

impl App {
    /// The completions of the input, as asked for by
    /// [`Effect::Complete`] (see [`completions_next`]).
    pub fn set_completions(&mut self, cands: Vec<(String, String)>, then: CompleteThen)
        requires
            old(self).wf(),
        ensures
            final(self).wf(),
            completions_next(*old(self), *final(self), cands@, then),
    {
        proof {
            reveal(completions_next);
        }
        if is_blank(self.input.as_str()) {
            self.comp = CompState::empty();
        } else {
            self.store_completions(cands, then);
        }
    }

    fn store_completions(&mut self, cands: Vec<(String, String)>, then: CompleteThen)
        requires
            old(self).wf(),
        ensures
            final(self).wf(),
            ({
                let a = *old(self);
                let b = *final(self);
                let c = App { comp: CompState { candidates: b.comp.candidates, idx: 0 }, ..a };
                &&& b.comp.candidates@ == cands@
                &&& if cands@.len() == 0 || then == CompleteThen::Show {
                    b == c
                } else {
                    applied(c, b, if then == CompleteThen::First { 0 } else { (cands@.len() - 1) as usize })
                }
            }),
    {
        let n = cands.len();
        self.comp = CompState { candidates: cands, idx: 0 };
        if n > 0 {
            self.take_completion(then, n);
        }
    }

    fn take_completion(&mut self, then: CompleteThen, n: usize)
        requires
            old(self).wf(),
            n == old(self).comp.candidates@.len(),
            n > 0,
        ensures
            final(self).wf(),
            then == CompleteThen::Show ==> *final(self) == *old(self),
            final(self).comp.candidates == old(self).comp.candidates,
            then == CompleteThen::First ==> applied(*old(self), *final(self), 0),
            then == CompleteThen::Last ==> applied(*old(self), *final(self), (n - 1) as usize),
    {
        proof {
            reveal(applied);
        }
        match then {
            CompleteThen::Show => {},
            CompleteThen::First => self.apply_completion(0),
            CompleteThen::Last => self.apply_completion(n - 1),
        }
    }

    /// Opens the login chooser the bot waits for (see [`auto_picker_next`]).
    pub fn auto_picker(&mut self)
        ensures
            *final(self) == auto_picker_next(*old(self)),
    {
        if !self.interactive || self.stage != STAGE_RUNNING || self.wizard.is_some() || !(self.picker
            == Picker::Closed) {
            return;
        }
        let p = if self.snap.phase == Phase::GenderPick {
            Picker::Gender { sel: 0 }
        } else if self.snap.phase == Phase::WorldSelect && self.snap.world_channels.len() > 0 {
            Picker::World { sel: 0 }
        } else if self.snap.phase == Phase::CharSelect && self.snap.characters > 0 {
            Picker::Char { sel: 0 }
        } else {
            return;
        };
        self.picker = p;
    }

    /// Opens or closes the NPC option chooser (see [`auto_npc_next`]).
    pub fn auto_npc_pick(&mut self)
        ensures
            auto_npc_next(*old(self), *final(self)),
    {
        if self.stage != STAGE_RUNNING || self.wizard.is_some() {
            return;
        }
        if self.snap.task_busy {
            if self.npc_pick_open {
                self.npc_pick_open = false;
                self.dirty = true;
            }
            return;
        }
        if !self.npmenu || self.snap.npc_options_seq == self.npc_seen_seq {
            return;
        }
        if self.snap.npc_options.len() == 0 {
            self.npc_seen(false);
        } else {
            self.npc_seen(true);
        }
    }

    fn npc_seen(&mut self, open: bool)
        ensures
            !open ==> *final(self) == (App {
                npc_seen_seq: old(self).snap.npc_options_seq,
                npc_pick_open: false,
                dirty: true,
                ..*old(self)
            }),
            open ==> *final(self) == (App {
                npc_seen_seq: old(self).snap.npc_options_seq,
                npc_pick_open: true,
                npc_pick_cursor: 0,
                npc_pick_scroll: 0,
                dirty: true,
                ..*old(self)
            }),
    {
        let c = if open {
            0
        } else {
            self.npc_pick_cursor
        };
        let sc = if open {
            0
        } else {
            self.npc_pick_scroll
        };
        self.npc_seen_seq = self.snap.npc_options_seq;
        self.npc_pick_open = open;
        self.npc_pick_cursor = c;
        self.npc_pick_scroll = sc;
        self.dirty = true;
    }

    /// Opens or closes the shop chooser (see [`auto_shop_next`]).
    pub fn auto_shop_pick(&mut self)
        ensures
            auto_shop_next(*old(self), *final(self)),
    {
        if self.stage != STAGE_RUNNING || self.wizard.is_some() {
            return;
        }
        if self.snap.task_busy {
            if self.shop_pick_open {
                self.shop_close_quietly();
            }
            return;
        }
        if !self.shop_menu || self.snap.shop_seq == self.shop_seen_seq {
            return;
        }
        let open = self.snap.shop_items.len() > 0;
        self.shop_seen(open);
    }

    fn shop_close_quietly(&mut self)
        ensures
            *final(self) == (App { shop_pick_open: false, shop_qty: final(self).shop_qty, dirty: true, ..*old(self) }),
            final(self).shop_qty@.len() == 0,
    {
        self.shop_pick_open = false;
        self.shop_qty = String::new();
        self.dirty = true;
    }

    fn shop_seen(&mut self, open: bool)
        ensures
            !open ==> *final(self) == (App {
                shop_seen_seq: old(self).snap.shop_seq,
                shop_pick_open: false,
                shop_qty: final(self).shop_qty,
                dirty: true,
                ..*old(self)
            }),
            open ==> *final(self) == (App {
                shop_seen_seq: old(self).snap.shop_seq,
                shop_pick_open: true,
                shop_pick_cursor: 0,
                shop_pick_scroll: 0,
                shop_qty: final(self).shop_qty,
                dirty: true,
                ..*old(self)
            }),
            final(self).shop_qty@.len() == 0,
    {
        let c = if open {
            0
        } else {
            self.shop_pick_cursor
        };
        let sc = if open {
            0
        } else {
            self.shop_pick_scroll
        };
        self.shop_seen_seq = self.snap.shop_seq;
        self.shop_pick_open = open;
        self.shop_pick_cursor = c;
        self.shop_pick_scroll = sc;
        self.shop_qty = String::new();
        self.dirty = true;
    }

    /// A fresh snapshot of the selected bot (`None` when it could not be
    /// taken): a new phase closes the login chooser; then the choosers
    /// follow the snapshot.
    pub fn take_snapshot(&mut self, snap: Option<SnapView>)
        requires
            old(self).wf(),
        ensures
            final(self).wf(),
            exists|m: App|
                auto_npc_next(auto_picker_next(snapshot_taken(*old(self), snap)), m) && #[trigger] auto_shop_next(
                    m,
                    *final(self),
                ),
    {
        self.take_view(snap);
        let ghost a1 = *self;
        self.auto_picker();
        let ghost a2 = *self;
        self.auto_npc_pick();
        let ghost mid = *self;
        self.auto_shop_pick();
        proof {
            assert(a2 == auto_picker_next(a1));
            assert(auto_npc_next(a2, mid));
            assert(auto_shop_next(mid, *self));
        }
    }

    /// Takes in a snapshot (see [`snapshot_taken`]).
    fn take_view(&mut self, snap: Option<SnapView>)
        requires
            old(self).wf(),
        ensures
            final(self).wf(),
            *final(self) == snapshot_taken(*old(self), snap),
    {
        match snap {
            Some(sv) => {
                let changed = sv.phase != self.snap.phase;
                self.snap = sv;
                if changed {
                    self.picker = Picker::Closed;
                    self.dirty = true;
                }
            },
            None => {},
        }
    }

    /// The stage the selected bot reports (single-session console): a new
    /// stage is taken; reaching the running stage closes the form and the
    /// login chooser, leaving it closes the NPC and shop choosers. Returns
    /// whether the login form must be opened again (at the form stage
    /// without a form).
    pub fn on_stage(&mut self, stage: u8) -> (reopen: bool)
        requires
            old(self).wf(),
        ensures
            final(self).wf(),
            final(self).stage == stage,
            stage != old(self).stage ==> final(self).dirty,
            stage != old(self).stage && stage == STAGE_RUNNING ==> final(self).wizard is None
                && final(self).picker == Picker::Closed,
            stage != old(self).stage && stage != STAGE_RUNNING ==> !final(self).npc_pick_open
                && !final(self).shop_pick_open && final(self).shop_qty@.len() == 0,
            stage == old(self).stage ==> *final(self) == *old(self),
            reopen == (stage == STAGE_WIZARD && final(self).wizard is None),
    {
        if stage != self.stage {
            self.stage = stage;
            self.dirty = true;
            if stage == STAGE_RUNNING {
                self.wizard = None;
                self.picker = Picker::Closed;
            } else {
                self.npc_pick_open = false;
                self.shop_pick_open = false;
                self.shop_qty = String::new();
            }
        }
        self.stage == STAGE_WIZARD && self.wizard.is_none()
    }

    /// Opens the login form again with these values; the login chooser and
    /// the help page close.
    pub fn reopen_wizard(&mut self, ip: String, port: u16, account: String, password: String, aes_key: String)
        requires
            old(self).wf(),
        ensures
            final(self).wf(),
            final(self).wizard matches Some(w) && w@.ip == ip@ && w@.port == decimal(port as nat) && w@.account
                == account@ && w@.password == password@ && w@.aes_key == aes_key@ && w@.result is None,
            *final(self) == (App {
                wizard: final(self).wizard,
                picker: Picker::Closed,
                help_open: false,
                dirty: true,
                ..*old(self)
            }),
    {
        self.wizard = Some(Wizard::new(ip, port, account, password, aes_key));
        self.picker = Picker::Closed;
        self.help_open = false;
        self.dirty = true;
    }

    /// Whether the program ends: Ctrl+C twice, or after the bot finished
    /// when it quit or ran its time (`outcome`) or Ctrl+C was pressed (a
    /// dropped connection keeps the screen for reading).
    pub fn should_exit(&self, outcome: Option<RunOutcome>) -> (r: bool)
        ensures
            r == (self.force_quit || (self.stage == STAGE_FINISHED && (outcome == Some(RunOutcome::Quit)
                || outcome == Some(RunOutcome::DurationElapsed) || self.ctrl_c is Some))),
    {
        if self.force_quit {
            return true;
        }
        if self.stage == STAGE_FINISHED {
            let ended = match outcome {
                Some(RunOutcome::Quit) | Some(RunOutcome::DurationElapsed) => true,
                _ => false,
            };
            ended || self.ctrl_c.is_some()
        } else {
            false
        }
    }

    /// Keeps the log scroll within the log: `total` display lines, `height`
    /// shown.
    pub fn clamp_scroll(&mut self, total: usize, height: usize)
        ensures
            old(self).scroll > sat_sub(total, height) ==> *final(self) == (App {
                scroll: sat_sub(total, height),
                dirty: true,
                ..*old(self)
            }),
            old(self).scroll <= sat_sub(total, height) ==> *final(self) == *old(self),
    {
        let max_off = ssub(total, height);
        if self.scroll > max_off {
            self.scroll = max_off;
            self.dirty = true;
        }
    }

    /// Takes over the sessions: the side bar shows with several, `started`
    /// of them are about to log in (they count as alive), and the view
    /// follows the selected one.
    pub fn attach_sessions(&mut self, set: SessionSet, has_runtime: bool, started: usize) -> (fx: Vec<Effect>)
        requires
            old(self).wf(),
        ensures
            final(self).wf(),
            *final(self) == (App {
                sessions: Some(set),
                show_sidebar: set.spec_sessions().len() > 1,
                has_runtime,
                last_live: started,
                ..*old(self)
            }),
            fx_views(fx@) == seq![EffectView::Sync],
    {
        self.show_sidebar = set.len() > 1;
        self.sessions = Some(set);
        self.has_runtime = has_runtime;
        self.last_live = started;
        one_effect(Effect::Sync)
    }
}

/// A copy of a login form's result.
fn copy_result(r: &WizardResult) -> (c: WizardResult)
    ensures
        result_view(c) == result_view(*r),
{
    WizardResult {
        ip: copy_str(r.ip.as_str()),
        port: r.port,
        account: copy_str(r.account.as_str()),
        password: copy_str(r.password.as_str()),
        aes_key: copy_str(r.aes_key.as_str()),
    }
}

/// `drop <item> <qty> slot <slot>` for an inventory slot.
fn drop_text(it: (u8, i16, i32, i16)) -> (s: String)
    ensures
        s@ == drop_cmd(it),
{
    let mut s = copy_str("drop ");
    s.append(signed_string(it.2 as i64).as_str());
    s.append(" ");
    let q: i16 = if it.3 < 1 {
        1
    } else {
        it.3
    };
    s.append(signed_string(q as i64).as_str());
    s.append(" slot ");
    s.append(signed_string(it.1 as i64).as_str());
    s
}

/// `sell <item> <qty> slot <slot>` for an inventory slot.
fn sell_one_text(it: (u8, i16, i32, i16)) -> (s: String)
    ensures
        s@ == "sell "@ + signed_decimal(it.2 as int) + " "@ + signed_decimal(at_least_one(it.3) as int) + " slot "@
            + signed_decimal(it.1 as int),
{
    let mut s = copy_str("sell ");
    s.append(signed_string(it.2 as i64).as_str());
    s.append(" ");
    let q: i16 = if it.3 < 1 {
        1
    } else {
        it.3
    };
    s.append(signed_string(q as i64).as_str());
    s.append(" slot ");
    s.append(signed_string(it.1 as i64).as_str());
    s
}

/// The command sent, then its echo in the log.
fn sent_and_echoed(cmd: String) -> (fx: Vec<Effect>)
    ensures
        fx_views(fx@) == send_echo(cmd@),
{
    let mut echo = copy_str("> ");
    echo.append(cmd.as_str());
    let mut fx: Vec<Effect> = Vec::new();
    fx.push(Effect::Send(cmd));
    fx.push(Effect::Log(LogKind::Cmd, echo));
    proof {
        assert(fx_views(fx@) =~= send_echo(cmd@));
    }
    fx
}


// ------------------------------------------------------------------ laws

/// Enter on the login chooser's world list opens the channel list of the
/// world under the cursor (first channel highlighted) and sends nothing;
/// Enter again logs in to that world on its first channel.
pub proof fn law_world_then_channel_logs_in_there(
    a: App,
    b: App,
    c: App,
    key: KeyInput,
    now: u64,
    later: u64,
    fx1: Seq<EffectView>,
    fx2: Seq<EffectView>,
    w: usize,
)
    requires
        a.stage == STAGE_RUNNING,
        a.picker == (Picker::World { sel: w }),
        !key.release,
        key.code == KeyCode::Enter,
        key_next(a, b, key, now, fx1),
        key_next(b, c, key, later, fx2),
    ensures
        b.picker == (Picker::Channel { world: w, sel: 0 }),
        fx1.len() == 0,
        fx2 == seq![EffectView::Send("login world "@ + decimal(w as nat) + " 1"@)],
{
    reveal_strlit("1");
    reveal_strlit(" ");
    reveal_strlit(" 1");
    assert(decimal(1) =~= "1"@);
    assert(b.stage == STAGE_RUNNING && b.picker == (Picker::Channel { world: w, sel: 0 }));
    let pre = "login world "@ + decimal(w as nat);
    assert(pre + " "@ + decimal((0usize + 1) as nat) =~= pre + " 1"@);
}

/// Enter on the channel list logs in to the chosen world on the channel
/// under the cursor, channels counted from one; the chooser stays.
pub proof fn law_channel_enter_logs_in(
    a: App,
    b: App,
    key: KeyInput,
    now: u64,
    fx: Seq<EffectView>,
    w: usize,
    ch: usize,
)
    requires
        a.stage == STAGE_RUNNING,
        a.picker == (Picker::Channel { world: w, sel: ch }),
        !key.release,
        key.code == KeyCode::Enter,
        key_next(a, b, key, now, fx),
    ensures
        b.picker == a.picker,
        fx == seq![EffectView::Send("login world "@ + decimal(w as nat) + " "@ + decimal(ch as nat + 1))],
{
}

/// Enter on the gender or character list sends the choice under the cursor
/// (`login gender <n>`, `login char <n>`, counted from zero); the chooser
/// stays.
pub proof fn law_gender_and_character_enter_send_the_choice(
    a: App,
    b: App,
    key: KeyInput,
    now: u64,
    fx: Seq<EffectView>,
    k: usize,
)
    requires
        a.stage == STAGE_RUNNING,
        a.picker == (Picker::Gender { sel: k }) || a.picker == (Picker::Char { sel: k }),
        !key.release,
        key.code == KeyCode::Enter,
        key_next(a, b, key, now, fx),
    ensures
        b.picker == a.picker,
        a.picker is Gender ==> fx == seq![EffectView::Send("login gender "@ + decimal(k as nat))],
        a.picker is Char ==> fx == seq![EffectView::Send("login char "@ + decimal(k as nat))],
{
}

/// A line without surrounding whitespace is its own trimmed form.
proof fn lemma_trim_plain(s: Seq<char>)
    requires
        s.len() > 0,
        !crate::text::is_ws(s[0]),
        !crate::text::is_ws(s.last()),
    ensures
        crate::text::trim(s) == s,
{
    assert(crate::text::trim_start(s) == s);
    assert(crate::text::trim_end(s) == s);
}

/// Entering `clear` or `cls` (whatever whitespace surrounds it) empties the
/// log locally and says so: nothing goes to the bot.
pub proof fn law_clear_is_local(a: App, b: App, fx: Seq<EffectView>)
    requires
        crate::text::trim(a.input@) == "clear"@ || crate::text::trim(a.input@) == "cls"@,
        submit_next(a, b, fx),
    ensures
        fx == seq![EffectView::ClearLog, EffectView::Log(LogKind::Info, "[system] log cleared"@)],
        forall|i: int| 0 <= i < fx.len() ==> !(#[trigger] fx[i] is Send),
{
    reveal_strlit("clear");
    reveal_strlit("cls");
    reveal_strlit("start");
    reveal_strlit("stop");
    reveal_strlit("profiles");
    reveal_strlit("accounts");
    let line = crate::text::trim(a.input@);
    assert(!crate::text::is_ws(line[0]));
    assert(!crate::text::is_ws(line.last()));
    lemma_trim_plain(line);
    assert(line != "start"@);
    assert(line != "stop"@);
    assert(!crate::text::has_prefix(line, "profiles"@));
    assert(!crate::text::has_prefix(line, "accounts"@));
    assert(crate::sessions::spec_builtin_for(line) is None);
}

/// Page `p` of the inventory (1 to 5; a larger page counts as 5) lists
/// exactly the slots of tab `p`, in inventory order: every slot it lists is
/// of that tab and every slot of that tab is listed. Page 0 lists them all.
pub proof fn law_bag_page_lists_its_tab(inv: Seq<(u8, i16, i32, i16)>, panel: usize)
    ensures
        panel == 0 ==> bag_items_of(inv, panel) == inv,
        ({
            let p: int = if panel < 5 { panel as int } else { 5 };
            panel > 0 ==> {
                &&& forall|k: int| 0 <= k < bag_items_of(inv, panel).len() ==> #[trigger] bag_items_of(inv, panel)[k].0 == p
                &&& forall|j: int| 0 <= j < inv.len() && inv[j].0 == p ==> bag_items_of(inv, panel).contains(#[trigger] inv[j])
                &&& forall|k: int| 0 <= k < bag_items_of(inv, panel).len() ==> inv.contains(#[trigger] bag_items_of(inv, panel)[k])
            }
        }),
    decreases inv.len(),
{
    if inv.len() > 0 {
        let q = inv.drop_last();
        law_bag_page_lists_its_tab(q, panel);
        let r = bag_items_of(q, panel);
        let t = bag_items_of(inv, panel);
        if panel == 0 {
            assert(inv =~= q.push(inv.last()));
        } else {
            let p: int = if panel < 5 { panel as int } else { 5 };
            assert forall|j: int| 0 <= j < inv.len() && inv[j].0 == p implies t.contains(#[trigger] inv[j]) by {
                if j < inv.len() - 1 {
                    assert(q[j] == inv[j]);
                    let k = choose|k: int| 0 <= k < r.len() && r[k] == q[j];
                    assert(t[k] == r[k]);
                } else {
                    assert(t[t.len() - 1] == inv[j]);
                }
            }
            assert forall|k: int| 0 <= k < t.len() implies inv.contains(#[trigger] t[k]) by {
                if k < r.len() {
                    assert(t[k] == r[k]);
                    let j = choose|j: int| 0 <= j < q.len() && q[j] == r[k];
                    assert(inv[j] == q[j]);
                } else {
                    assert(t[k] == inv[inv.len() - 1]);
                }
            }
            assert forall|k: int| 0 <= k < t.len() implies #[trigger] t[k].0 == p by {
                if k < r.len() {
                    assert(t[k] == r[k]);
                }
            }
        }
    }
}

} // verus!
