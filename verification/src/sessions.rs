//! A set of sessions, the current selection and batch command targeting.
//!
//! Command target syntax:
//!
//! ```text
//! hunt on                      -> the selected session
//! @serverA_100000003 hunt on   -> the named profile (a prefix works too)
//! @serverA hunt on             -> every profile whose name starts so
//! @all hunt on                 -> every session
//! ```

use vstd::prelude::*;

use crate::credentials::{opt_str_view, spec_password, spec_record, Credentials, Remember};
use crate::session::{
    exit_step, failure_message, failure_text, manual_restart_step, new_cmd_channel, restart_step,
    spec_profile_name, start_step, BotSession, RestartStep, SendFailure, SessionModel,
    SessionSpec, SessionTemplate, CMD_CHANNEL_CAP,
};
use crate::watcher::RestartPolicy;
use crate::text::{chars_eq, decimal, decimal_string, has_prefix, str_eq, starts_with_at,
    chars_of, copy_str, is_whitespace, is_ws, lemma_token_len_bound, lemma_trim_edges, lower_seq, string_of,
    string_of_all, to_ascii_lower, views_of, token_end, token_len, trim, trim_bounds, has_item,
};

verus! {

/// Console commands that the console runs itself (never sent to a bot).
#[derive(Debug, Clone, PartialEq, Eq)]
pub enum Builtin {
    /// Start the targeted sessions (`start`).
    Start,
    /// Stop the targeted sessions (`stop`).
    Stop,
    /// Hang up a new account (`profiles add <path>`).
    AddProfile(String),
    /// Take an account off (`profiles remove <name>`).
    RemoveProfile(String),
    /// List the accounts and their states (`profiles list`).
    ListProfiles,
}

/// The mathematical value of a [`Builtin`].
pub enum BuiltinModel {
    Start,
    Stop,
    AddProfile(Seq<char>),
    RemoveProfile(Seq<char>),
    ListProfiles,
}

impl View for Builtin {
    type V = BuiltinModel;

    open spec fn view(&self) -> BuiltinModel {
        match self {
            Builtin::Start => BuiltinModel::Start,
            Builtin::Stop => BuiltinModel::Stop,
            Builtin::AddProfile(p) => BuiltinModel::AddProfile(p@),
            Builtin::RemoveProfile(p) => BuiltinModel::RemoveProfile(p@),
            Builtin::ListProfiles => BuiltinModel::ListProfiles,
        }
    }
}

/// What the user reads for a console command.
pub open spec fn builtin_text(b: BuiltinModel) -> Seq<char> {
    match b {
        BuiltinModel::Start => "启动"@,
        BuiltinModel::Stop => "停止"@,
        BuiltinModel::AddProfile(_) => "挂上账号"@,
        BuiltinModel::RemoveProfile(_) => "摘掉账号"@,
        BuiltinModel::ListProfiles => "账号列表"@,
    }
}

pub open spec fn opt_builtin_view(b: Option<Builtin>) -> Option<BuiltinModel> {
    match b {
        Some(x) => Some(x@),
        None => None,
    }
}

impl Builtin {
    /// What the user reads in the log.
    pub fn describe(&self) -> (s: &'static str)
        ensures
            s@ == builtin_text(self@),
            self is Start ==> s@ == "启动"@,
            self is Stop ==> s@ == "停止"@,
            self is AddProfile ==> s@ == "挂上账号"@,
            self is RemoveProfile ==> s@ == "摘掉账号"@,
            self is ListProfiles ==> s@ == "账号列表"@,
    {
        match self {
            Builtin::Start => "启动",
            Builtin::Stop => "停止",
            Builtin::AddProfile(_) => "挂上账号",
            Builtin::RemoveProfile(_) => "摘掉账号",
            Builtin::ListProfiles => "账号列表",
        }
    }

    /// Whether the command runs once per targeted session (`start`, `stop`);
    /// the profile commands act on the set itself.
    pub fn is_per_session(&self) -> (r: bool)
        ensures
            r == (self is Start || self is Stop),
    {
        match self {
            Builtin::Start | Builtin::Stop => true,
            _ => false,
        }
    }
}

// ------------------------------------------------------------ quoted words

/// One step of the quote-aware word splitter over `(words, current, quoted)`.
pub open spec fn sq_step(st: (Seq<Seq<char>>, Seq<char>, bool), c: char) -> (
    Seq<Seq<char>>,
    Seq<char>,
    bool,
) {
    let (out, cur, q) = st;
    if c == '"' {
        (out, cur, !q)
    } else if is_ws(c) && !q {
        if cur.len() > 0 {
            (out.push(cur), Seq::empty(), q)
        } else {
            (out, cur, q)
        }
    } else {
        (out, cur.push(c), q)
    }
}

/// The splitter's state after reading all of `s`.
pub open spec fn sq_state(s: Seq<char>) -> (Seq<Seq<char>>, Seq<char>, bool)
    decreases s.len(),
{
    if s.len() == 0 {
        (Seq::empty(), Seq::empty(), false)
    } else {
        sq_step(sq_state(s.drop_last()), s.last())
    }
}

/// Splits on whitespace outside double quotes; the quotes themselves are
/// dropped and empty words are skipped.
pub open spec fn spec_split_quoted(s: Seq<char>) -> Seq<Seq<char>> {
    let (out, cur, _) = sq_state(s);
    if cur.len() > 0 {
        out.push(cur)
    } else {
        out
    }
}

/// Whitespace word splitting that respects double quotes, so that
/// `profiles add "profiles/a b.json"` keeps the path in one piece.
pub fn split_quoted(s: &str) -> (r: Vec<String>)
    ensures
        views_of(r@) == spec_split_quoted(s@),
{
    let v = chars_of(s);
    let mut out: Vec<String> = Vec::new();
    let mut cur: Vec<char> = Vec::new();
    let mut in_quote = false;
    let n = v.len();
    for i in 0..n
        invariant
            n == v.len(),
            v@ == s@,
            (views_of(out@), cur@, in_quote) == sq_state(v@.take(i as int)),
    {
        let c = v[i];
        proof {
            assert(v@.take(i + 1).drop_last() =~= v@.take(i as int));
        }
        if c == '"' {
            in_quote = !in_quote;
        } else if is_whitespace(c) && !in_quote {
            if cur.len() > 0 {
                let w = string_of_all(&cur);
                out.push(w);
                cur = Vec::new();
                proof {
                    assert(views_of(out@) =~= views_of(out@.drop_last()).push(w@));
                }
            }
        } else {
            cur.push(c);
        }
    }
    proof {
        assert(v@.take(n as int) =~= v@);
    }
    if cur.len() > 0 {
        let w = string_of_all(&cur);
        out.push(w);
        proof {
            assert(views_of(out@) =~= views_of(out@.drop_last()).push(w@));
        }
    }
    out
}

// ------------------------------------------------------------ console commands

/// The profile command named by the words after `profiles` / `accounts`:
/// nothing, `list` or `ls` lists; `add` / `open` adds the second word (empty
/// when missing); `remove` / `rm` / `del` removes the second word; anything
/// else is no console command.
pub open spec fn builtin_from_words(toks: Seq<Seq<char>>) -> Option<BuiltinModel> {
    let arg = if toks.len() > 1 {
        toks[1]
    } else {
        Seq::empty()
    };
    if toks.len() == 0 || toks[0] == "list"@ || toks[0] == "ls"@ {
        Some(BuiltinModel::ListProfiles)
    } else if toks[0] == "add"@ || toks[0] == "open"@ {
        Some(BuiltinModel::AddProfile(arg))
    } else if toks[0] == "remove"@ || toks[0] == "rm"@ || toks[0] == "del"@ {
        Some(BuiltinModel::RemoveProfile(arg))
    } else {
        None
    }
}

/// The console command a (trimmed) line is, if any: exactly `start` or
/// `stop`, or `profiles` / `accounts` followed by a profile command.
pub open spec fn spec_builtin_for(cmd: Seq<char>) -> Option<BuiltinModel> {
    let t = trim(cmd);
    if t == "start"@ {
        Some(BuiltinModel::Start)
    } else if t == "stop"@ {
        Some(BuiltinModel::Stop)
    } else if has_prefix(t, "profiles"@) {
        builtin_from_words(spec_split_quoted(trim(t.skip("profiles"@.len() as int))))
    } else if has_prefix(t, "accounts"@) {
        builtin_from_words(spec_split_quoted(trim(t.skip("accounts"@.len() as int))))
    } else {
        None
    }
}

/// The profile command of a word list.
fn builtin_of_words(toks: &Vec<String>) -> (r: Option<Builtin>)
    ensures
        opt_builtin_view(r) == builtin_from_words(views_of(toks@)),
{
    let ghost w = views_of(toks@);
    if toks.len() == 0 {
        return Some(Builtin::ListProfiles);
    }
    let first = toks[0].as_str();
    let arg = if toks.len() > 1 {
        copy_str(toks[1].as_str())
    } else {
        String::new()
    };
    proof {
        assert(first@ == w[0]);
        if toks@.len() > 1 {
            assert(arg@ == w[1]);
        }
    }
    if str_eq(first, "list") || str_eq(first, "ls") {
        Some(Builtin::ListProfiles)
    } else if str_eq(first, "add") || str_eq(first, "open") {
        Some(Builtin::AddProfile(arg))
    } else if str_eq(first, "remove") || str_eq(first, "rm") || str_eq(first, "del") {
        Some(Builtin::RemoveProfile(arg))
    } else {
        None
    }
}

/// The profile command after the `len` characters of a prefix of `t`.
fn builtin_after(t: &Vec<char>, len: usize) -> (r: Option<Builtin>)
    requires
        len <= t.len(),
    ensures
        opt_builtin_view(r) == builtin_from_words(spec_split_quoted(trim(t@.skip(len as int)))),
{
    let tail = sub_vec(t, len, t.len());
    let (c, d) = trim_bounds(&tail);
    let rest = string_of(&tail, c, d);
    proof {
        assert(tail@ =~= t@.skip(len as int));
    }
    let toks = split_quoted(rest.as_str());
    builtin_of_words(&toks)
}

// ------------------------------------------------------------ targets

/// Whom a command goes to.
#[derive(Debug, Clone, PartialEq, Eq)]
pub enum Target {
    /// The selected session.
    Selected,
    /// Every session.
    All,
    /// Every session whose profile name starts with this (ASCII case-insensitive).
    Prefix(String),
}

/// The mathematical value of a [`Target`].
pub enum TargetModel {
    Selected,
    All,
    Prefix(Seq<char>),
}

impl View for Target {
    type V = TargetModel;

    open spec fn view(&self) -> TargetModel {
        match self {
            Target::Selected => TargetModel::Selected,
            Target::All => TargetModel::All,
            Target::Prefix(p) => TargetModel::Prefix(p@),
        }
    }
}

/// `@all` in any ASCII case is everyone, a bare `@` is nothing, `@x` is the
/// prefix `x`; a token without a leading `@` is no target.
pub open spec fn spec_target_parse(tok: Seq<char>) -> Option<TargetModel> {
    if tok.len() == 0 || tok[0] != '@' {
        None
    } else {
        let rest = tok.drop_first();
        if lower_seq(rest) == seq!['a', 'l', 'l'] {
            Some(TargetModel::All)
        } else if rest.len() == 0 {
            None
        } else {
            Some(TargetModel::Prefix(rest))
        }
    }
}

pub open spec fn opt_target_view(t: Option<Target>) -> Option<TargetModel> {
    match t {
        Some(x) => Some(x@),
        None => None,
    }
}

/// `Target::parse` on the characters `v[a..b]`.
fn parse_target_chars(v: &Vec<char>, a: usize, b: usize) -> (r: Option<Target>)
    requires
        a <= b <= v.len(),
    ensures
        opt_target_view(r) == spec_target_parse(v@.subrange(a as int, b as int)),
{
    let ghost tok = v@.subrange(a as int, b as int);
    if a == b || v[a] != '@' {
        return None;
    }
    proof {
        assert(tok.drop_first() =~= v@.subrange(a + 1, b as int));
    }
    if b - a == 4 {
        let c1 = to_ascii_lower(v[a + 1]);
        let c2 = to_ascii_lower(v[a + 2]);
        let c3 = to_ascii_lower(v[a + 3]);
        if c1 == 'a' && c2 == 'l' && c3 == 'l' {
            proof {
                assert(lower_seq(tok.drop_first()) =~= seq!['a', 'l', 'l']);
            }
            return Some(Target::All);
        }
        proof {
            assert(lower_seq(tok.drop_first())[0] == c1);
            assert(lower_seq(tok.drop_first())[1] == c2);
            assert(lower_seq(tok.drop_first())[2] == c3);
        }
    } else {
        proof {
            assert(lower_seq(tok.drop_first()).len() != 3);
        }
    }
    if b - a == 1 {
        return None;
    }
    Some(Target::Prefix(string_of(v, a + 1, b)))
}

impl Target {
    /// Parses a target token (`None` when it is not one).
    pub fn parse(token: &str) -> (r: Option<Target>)
        ensures
            opt_target_view(r) == spec_target_parse(token@),
    {
        let v = chars_of(token);
        proof {
            assert(v@.subrange(0, v@.len() as int) =~= v@);
        }
        parse_target_chars(&v, 0, v.len())
    }

    /// What the user reads.
    pub fn describe(&self) -> (s: String)
        ensures
            s@ == target_text(self@),
            self is Selected ==> s@ == "当前会话"@,
            self is All ==> s@ == "全部会话"@,
            self matches Target::Prefix(p) ==> s@ == "档案名前缀 @"@ + p@,
    {
        match self {
            Target::Selected => copy_str("当前会话"),
            Target::All => copy_str("全部会话"),
            Target::Prefix(p) => {
                let mut s = copy_str("档案名前缀 @");
                s.append(p.as_str());
                s
            },
        }
    }
}

/// What [`split_target`] answers for a line.
pub open spec fn spec_split_target(line: Seq<char>) -> Result<(TargetModel, Seq<char>), Seq<char>> {
    let t = trim(line);
    if t.len() == 0 {
        Ok((TargetModel::Selected, Seq::empty()))
    } else {
        let first = t.take(token_len(t) as int);
        if first[0] != '@' {
            Ok((TargetModel::Selected, t))
        } else {
            match spec_target_parse(first) {
                None => Err("目标 `"@ + first + "` 无效 (写法: @all / @<档案名前缀>)"@),
                Some(tm) => Ok((tm, trim(t.skip(first.len() as int)))),
            }
        }
    }
}

pub open spec fn split_target_view(r: Result<(Target, String), String>) -> Result<
    (TargetModel, Seq<char>),
    Seq<char>,
> {
    match r {
        Ok((t, c)) => Ok((t@, c@)),
        Err(e) => Err(e@),
    }
}

/// Splits a line into `(target, remaining command)`: no `@` first word means
/// the selected session and the whole (trimmed) line; `@x` is parsed as a
/// target and removed; an unusable `@` word is an error. Only the first word
/// counts (an `@` inside the command is left alone).
pub fn split_target(line: &str) -> (r: Result<(Target, String), String>)
    ensures
        split_target_view(r) == spec_split_target(line@),
{
    let v = chars_of(line);
    let (a, b) = trim_bounds(&v);
    let ghost t = v@.subrange(a as int, b as int);
    if a == b {
        return Ok((Target::Selected, String::new()));
    }
    let e = token_end(&v, a, b);
    proof {
        assert(t.take(token_len(t) as int) =~= v@.subrange(a as int, e as int));
        lemma_token_len_bound(t);
        lemma_trim_edges(v@);
    }
    if v[a] != '@' {
        return Ok((Target::Selected, string_of(&v, a, b)));
    }
    match parse_target_chars(&v, a, e) {
        None => {
            let mut msg = copy_str("目标 `");
            let first = string_of(&v, a, e);
            msg.append(first.as_str());
            msg.append("` 无效 (写法: @all / @<档案名前缀>)");
            Err(msg)
        },
        Some(target) => {
            let tail: Vec<char> = sub_vec(&v, e, b);
            let (c, d) = trim_bounds(&tail);
            proof {
                assert(t.skip((e - a) as int) =~= tail@);
            }
            Ok((target, string_of(&tail, c, d)))
        },
    }
}

/// A copy of `v[a..b]`.
pub fn sub_vec(v: &Vec<char>, a: usize, b: usize) -> (r: Vec<char>)
    requires
        a <= b <= v.len(),
    ensures
        r@ == v@.subrange(a as int, b as int),
{
    let mut r: Vec<char> = Vec::new();
    let mut i = a;
    while i < b
        invariant
            a <= i <= b <= v.len(),
            r@ == v@.subrange(a as int, i as int),
        decreases b - i,
    {
        r.push(v[i]);
        proof {
            assert(v@.subrange(a as int, i + 1) =~= v@.subrange(a as int, i as int).push(
                v@[i as int],
            ));
        }
        i += 1;
    }
    r
}


// ------------------------------------------------------------ the set

/// The profile names of a list of sessions.
pub open spec fn names_of(ss: Seq<BotSession>) -> Seq<Seq<char>> {
    ss.map_values(|s: BotSession| s.spec_profile())
}

/// A selection index is valid: 0 for an empty set, in range otherwise.
pub open spec fn selection_ok(n: nat, sel: usize) -> bool {
    if n == 0 {
        sel == 0
    } else {
        sel < n
    }
}

/// The session's profile name starts with `p`, ASCII case-insensitively.
pub open spec fn prefix_match(s: BotSession, p: Seq<char>) -> bool {
    has_prefix(lower_seq(s.spec_profile()), lower_seq(p))
}

/// The indices (ascending) of the sessions whose name starts with `p`.
pub open spec fn prefix_hits(ss: Seq<BotSession>, p: Seq<char>) -> Seq<usize>
    decreases ss.len(),
{
    if ss.len() == 0 {
        Seq::empty()
    } else {
        let prev = prefix_hits(ss.drop_last(), p);
        if prefix_match(ss.last(), p) {
            prev.push((ss.len() - 1) as usize)
        } else {
            prev
        }
    }
}

/// The indices (ascending) of the running sessions.
pub open spec fn running_indices(ss: Seq<BotSession>) -> Seq<usize>
    decreases ss.len(),
{
    if ss.len() == 0 {
        Seq::empty()
    } else {
        let prev = running_indices(ss.drop_last());
        if ss.last().spec_running() {
            prev.push((ss.len() - 1) as usize)
        } else {
            prev
        }
    }
}

/// `0, 1, .., n - 1`.
pub open spec fn all_indices(n: nat) -> Seq<usize> {
    Seq::new(n, |i: int| i as usize)
}

/// The sessions a target reaches: the selected one (none in an empty set),
/// all of them, or those whose name starts with the prefix -- never the
/// selected one as a fallback.
pub open spec fn spec_resolve(ss: Seq<BotSession>, sel: usize, t: TargetModel) -> Seq<usize> {
    match t {
        TargetModel::Selected => if ss.len() == 0 {
            Seq::empty()
        } else {
            seq![sel]
        },
        TargetModel::All => all_indices(ss.len()),
        TargetModel::Prefix(p) => prefix_hits(ss, p),
    }
}

/// How many sessions are waiting for a restart.
pub open spec fn count_waiting(ss: Seq<BotSession>) -> nat
    decreases ss.len(),
{
    if ss.len() == 0 {
        0
    } else {
        count_waiting(ss.drop_last()) + if ss.last().spec_waiting() { 1nat } else { 0nat }
    }
}

/// How many sessions need a person.
pub open spec fn count_attention(ss: Seq<BotSession>) -> nat
    decreases ss.len(),
{
    if ss.len() == 0 {
        0
    } else {
        count_attention(ss.drop_last()) + if ss.last().spec_needs_attention() {
            1nat
        } else {
            0nat
        }
    }
}

/// How many sessions were never started.
pub open spec fn count_never_started(ss: Seq<BotSession>) -> nat
    decreases ss.len(),
{
    if ss.len() == 0 {
        0
    } else {
        count_never_started(ss.drop_last()) + if ss.last().spec_never_started() {
            1nat
        } else {
            0nat
        }
    }
}

/// How many sessions will still move by themselves (not settled).
pub open spec fn count_live(ss: Seq<BotSession>) -> nat
    decreases ss.len(),
{
    if ss.len() == 0 {
        0
    } else {
        count_live(ss.drop_last()) + if ss.last().spec_settled() { 0nat } else { 1nat }
    }
}

/// The selection after moving by `d` places, cyclically (Euclidean
/// remainder); an empty set keeps 0.
pub open spec fn spec_moved(sel: usize, n: nat, d: i32) -> usize {
    if n == 0 {
        sel
    } else {
        ((sel + d) % (n as int)) as usize
    }
}

/// The sum of the sessions' drop counters.
pub open spec fn dropped_sum(ss: Seq<BotSession>) -> int
    decreases ss.len(),
{
    if ss.len() == 0 {
        0
    } else {
        dropped_sum(ss.drop_last()) + ss.last().spec_dropped()
    }
}

pub proof fn lemma_dropped_sum_nonneg(ss: Seq<BotSession>)
    ensures
        dropped_sum(ss) >= 0,
    decreases ss.len(),
{
    if ss.len() > 0 {
        lemma_dropped_sum_nonneg(ss.drop_last());
    }
}

/// The views of a list of `(name, reason)` pairs.
pub open spec fn pair_views(v: Seq<(String, String)>) -> Seq<(Seq<char>, Seq<char>)> {
    v.map_values(|p: (String, String)| (p.0@, p.1@))
}

/// The failure entry of an index that names no session.
pub open spec fn missing_entry(i: usize) -> (Seq<char>, Seq<char>) {
    ("#"@ + decimal(i as nat), "会话不存在"@)
}

/// What sending to `idxs` reports, given what each send that reached a
/// session answered (`res[k]` for `idxs[k]`; unused for an index out of
/// range): `(delivered, failures)`, a failure being `(name, reason)` in the
/// order of `idxs`.
pub open spec fn send_report(
    ss: Seq<BotSession>,
    idxs: Seq<usize>,
    res: Seq<Result<(), SendFailure>>,
) -> (nat, Seq<(Seq<char>, Seq<char>)>)
    decreases idxs.len(),
{
    if idxs.len() == 0 {
        (0, Seq::empty())
    } else {
        let k = idxs.len() - 1;
        let (ok, errs) = send_report(ss, idxs.take(k), res);
        let i = idxs[k];
        if i >= ss.len() {
            (ok, errs.push(missing_entry(i)))
        } else {
            match res[k] {
                Ok(()) => (ok + 1, errs),
                Err(f) => (ok, errs.push((ss[i as int].spec_profile(), failure_text(f)))),
            }
        }
    }
}

/// Reports over a longer outcome list agree on the indices they share.
pub proof fn lemma_send_report_prefix(
    ss: Seq<BotSession>,
    idxs: Seq<usize>,
    res: Seq<Result<(), SendFailure>>,
    more: Seq<Result<(), SendFailure>>,
)
    requires
        res.len() >= idxs.len(),
        more.len() >= idxs.len(),
        forall|k: int| 0 <= k < idxs.len() ==> res[k] == more[k],
    ensures
        send_report(ss, idxs, res) == send_report(ss, idxs, more),
    decreases idxs.len(),
{
    if idxs.len() > 0 {
        lemma_send_report_prefix(ss, idxs.take(idxs.len() - 1), res, more);
    }
}

/// What [`Target::describe`] says.
pub open spec fn target_text(t: TargetModel) -> Seq<char> {
    match t {
        TargetModel::Selected => "当前会话"@,
        TargetModel::All => "全部会话"@,
        TargetModel::Prefix(p) => "档案名前缀 @"@ + p,
    }
}

/// Why [`SessionSet::dispatch_line`] refuses a line, if it does: a bad
/// target, no command, no sessions, or nobody reached.
pub open spec fn dispatch_line_error(ss: Seq<BotSession>, sel: usize, line: Seq<char>) -> Option<
    Seq<char>,
> {
    match spec_split_target(line) {
        Err(e) => Some(e),
        Ok((t, cmd)) => if cmd.len() == 0 {
            Some("没有指令内容"@)
        } else if ss.len() == 0 {
            Some("没有会话"@)
        } else if spec_resolve(ss, sel, t).len() == 0 {
            Some(target_text(t) + " 没有匹配的会话"@)
        } else {
            None
        },
    }
}

/// The models of a list of sessions.
/// The names of the sessions that start now (see [`crate::will_autostart`])
/// and whose template has an empty password, in order.
pub open spec fn missing_names(ms: Seq<SessionModel>, autostart: bool, only: Seq<String>) -> Seq<Seq<char>>
    decreases ms.len(),
{
    if ms.len() == 0 {
        Seq::empty()
    } else {
        let m = ms.last();
        missing_names(ms.drop_last(), autostart, only) + (if (m.template matches Some(t) && t.1.len() == 0)
            && autostart && (only.len() == 0 || has_item(only, m.profile)) {
            seq![m.profile]
        } else {
            Seq::empty()
        })
    }
}

pub open spec fn models_of(ss: Seq<BotSession>) -> Seq<SessionModel> {
    ss.map_values(|s: BotSession| s@)
}

/// The credential store's usable password for a profile.
pub open spec fn stored_pw(creds: Option<&Credentials>, profile: Seq<char>) -> Option<Seq<char>> {
    match creds {
        Some(c) => spec_password(c.spec_map(), profile),
        None => None,
    }
}

/// The line that reports a scheduled restart: `掉线, <s> 秒后自动拉起`,
/// `<s>` the whole seconds left.
pub open spec fn exit_note(m: SessionModel, now: u64) -> Seq<char> {
    let ms: u64 = match m.watcher.spec_remaining(now) {
        Some(x) => x,
        None => 0,
    };
    "掉线, "@ + decimal((ms / 1000) as nat) + " 秒后自动拉起"@
}

/// The sessions whose ending was registered as a scheduled restart
/// (ascending), with the line that reports it.
pub open spec fn exit_reports(ms: Seq<SessionModel>, now: u64) -> Seq<(usize, Seq<char>)>
    decreases ms.len(),
{
    if ms.len() == 0 {
        Seq::empty()
    } else {
        let prev = exit_reports(ms.drop_last(), now);
        let (m1, r) = exit_step(ms.last(), now);
        if r {
            prev.push(((ms.len() - 1) as usize, exit_note(m1, now)))
        } else {
            prev
        }
    }
}

/// The restarts that are due: `(index, password)` of each relaunched
/// session, ascending.
pub open spec fn due_launches(ms: Seq<SessionModel>, now: u64, creds: Option<&Credentials>) -> Seq<
    (usize, Seq<char>),
>
    decreases ms.len(),
{
    if ms.len() == 0 {
        Seq::empty()
    } else {
        let prev = due_launches(ms.drop_last(), now, creds);
        let m = ms.last();
        match restart_step(m, now, stored_pw(creds, m.profile)).2 {
            Some(p) => prev.push(((ms.len() - 1) as usize, p)),
            None => prev,
        }
    }
}

/// The due restarts that could not be made (no template), as report lines.
pub open spec fn due_failures(ms: Seq<SessionModel>, now: u64, creds: Option<&Credentials>) -> Seq<
    Seq<char>,
>
    decreases ms.len(),
{
    if ms.len() == 0 {
        Seq::empty()
    } else {
        let prev = due_failures(ms.drop_last(), now, creds);
        let m = ms.last();
        let st = restart_step(m, now, stored_pw(creds, m.profile));
        if st.1 && st.2 is None {
            prev.push(m.profile + ": 档案未能加载, 放弃自动拉起"@)
        } else {
            prev
        }
    }
}

/// What a per-session console command does to one session: `(model,
/// Ok(password of a launch, if any) or Err(reason))`.
pub open spec fn builtin_step(m: SessionModel, b: BuiltinModel, creds: Option<&Credentials>) -> (
    SessionModel,
    Result<Option<Seq<char>>, Seq<char>>,
) {
    match b {
        BuiltinModel::Start => {
            let (m2, r) = start_step(m, stored_pw(creds, m.profile));
            (
                m2,
                match r {
                    Ok(p) => Ok(Some(p)),
                    Err(e) => Err(e),
                },
            )
        },
        BuiltinModel::Stop => if m.nothing_to_stop() {
            (m, Err(m.profile + ": 本来就没在运行"@))
        } else {
            (m.stopped_by_user(), Ok(None))
        },
        _ => (m, Ok(None)),
    }
}

/// Running a per-session console command on `idxs` in order: `(models,
/// successes, failures as (name, reason), launches as (index, password))`.
pub open spec fn batch(
    ms: Seq<SessionModel>,
    idxs: Seq<usize>,
    b: BuiltinModel,
    creds: Option<&Credentials>,
) -> (Seq<SessionModel>, nat, Seq<(Seq<char>, Seq<char>)>, Seq<(usize, Seq<char>)>)
    decreases idxs.len(),
{
    if idxs.len() == 0 {
        (ms, 0, Seq::empty(), Seq::empty())
    } else {
        let (ms1, ok, errs, ls) = batch(ms, idxs.drop_last(), b, creds);
        let i = idxs.last();
        if i >= ms1.len() {
            (ms1, ok, errs.push(missing_entry(i)), ls)
        } else {
            let (m2, r) = builtin_step(ms1[i as int], b, creds);
            let ms2 = ms1.update(i as int, m2);
            match r {
                Ok(Some(p)) => (ms2, ok + 1, errs, ls.push((i, p))),
                Ok(None) => (ms2, ok + 1, errs, ls),
                Err(e) => (ms2, ok, errs.push((ms1[i as int].profile, e)), ls),
            }
        }
    }
}

/// The sessions a batch `stop` stopped, in order: each reached session
/// that was running (or waiting to reconnect).
pub open spec fn batch_stopped(
    ms: Seq<SessionModel>,
    idxs: Seq<usize>,
    b: BuiltinModel,
    creds: Option<&Credentials>,
) -> Seq<usize>
    decreases idxs.len(),
{
    if idxs.len() == 0 {
        Seq::empty()
    } else {
        let prev = batch_stopped(ms, idxs.drop_last(), b, creds);
        let ms1 = batch(ms, idxs.drop_last(), b, creds).0;
        let i = idxs.last();
        if b is Stop && i < ms1.len() && builtin_step(ms1[i as int], b, creds).1 is Ok {
            prev.push(i)
        } else {
            prev
        }
    }
}

/// A command's effect does not depend on the session's command channel.
pub proof fn lemma_builtin_step_sender(
    m: SessionModel,
    t: tokio::sync::mpsc::Sender<String>,
    b: BuiltinModel,
    creds: Option<&Credentials>,
)
    ensures
        builtin_step(m.with_sender(t), b, creds).0 == builtin_step(m, b, creds).0.with_sender(t),
        builtin_step(m.with_sender(t), b, creds).1 == builtin_step(m, b, creds).1,
{
    let mt = m.with_sender(t);
    assert(mt.prepared() == m.prepared().with_sender(t));
    assert(mt.prepared().failed_start() == m.prepared().failed_start().with_sender(t));
    assert(mt.prepared().relaunched(stored_pw(creds, m.profile)) == m.prepared().relaunched(
        stored_pw(creds, m.profile),
    ).with_sender(t));
    assert(mt.stopped_by_user() == m.stopped_by_user().with_sender(t));
}

/// A batch keeps the number of sessions.
pub proof fn lemma_batch_len(
    ms: Seq<SessionModel>,
    idxs: Seq<usize>,
    b: BuiltinModel,
    creds: Option<&Credentials>,
)
    ensures
        batch(ms, idxs, b, creds).0.len() == ms.len(),
    decreases idxs.len(),
{
    if idxs.len() > 0 {
        lemma_batch_len(ms, idxs.drop_last(), b, creds);
    }
}

/// Some session already has `path` among its profile paths.
pub open spec fn path_known(ss: Seq<BotSession>, path: Seq<char>) -> bool {
    exists|j: int, k: int|
        0 <= j < ss.len() && 0 <= k < ss[j].spec_config_paths().len() && (#[trigger] ss[j].spec_config_paths()[k])
            == path
}

/// Some session already has the name `name`.
pub open spec fn name_known(ss: Seq<BotSession>, name: Seq<char>) -> bool {
    exists|j: int| 0 <= j < ss.len() && (#[trigger] ss[j]).spec_profile() == name
}

/// Why a profile file cannot be added, if it cannot: it is already in the
/// set, or a session of the same name is.
pub open spec fn add_error(ss: Seq<BotSession>, path: Seq<char>) -> Option<Seq<char>> {
    if path_known(ss, path) {
        Some(path + ": 已经挂上了"@)
    } else if name_known(ss, spec_profile_name(path)) {
        Some(spec_profile_name(path) + ": 已有同名档案在列表里"@)
    } else {
        None
    }
}

/// The launches' `(index, password)`.
pub open spec fn launch_views(v: Seq<Launch>) -> Seq<(usize, Seq<char>)> {
    v.map_values(|l: Launch| (l.index, l.password@))
}

/// The credential store's usable password for `profile`.
fn stored_password<'a>(creds: Option<&'a Credentials>, profile: &str) -> (r: Option<&'a str>)
    ensures
        opt_str_view(r) == stored_pw(creds, profile@),
{
    match creds {
        Some(c) => c.password_for(profile),
        None => None,
    }
}

/// A bot task the front end must start now: session `index`, logging in
/// with `password`, reading its commands from `rx`.
pub struct Launch {
    pub index: usize,
    pub password: String,
    pub rx: tokio::sync::mpsc::Receiver<String>,
}

/// What a batch console command (`@target start` / `stop`) came to.
pub struct BatchReport {
    /// Sessions reached.
    pub hit: usize,
    /// Sessions where it worked.
    pub ok: usize,
    /// `(name, reason)` for each session where it did not.
    pub errs: Vec<(String, String)>,
    /// Tasks to start.
    pub launches: Vec<Launch>,
    /// Stopped sessions whose task did not take `quit` (to be aborted).
    pub stuck: Vec<usize>,
    /// The sessions a `stop` stopped, in order.
    pub stopped: Vec<usize>,
}

/// The state word `profiles list` shows for a session.
pub open spec fn status_word(s: BotSession) -> Seq<char> {
    if s.spec_manually_stopped() {
        "已停止(手动)"@
    } else if s.spec_start_failed() {
        "启动失败"@
    } else if s.spec_never_started() {
        "未启动"@
    } else if s.spec_running() {
        "运行中"@
    } else if s.spec_waiting() {
        "等重连"@
    } else if s.spec_finished() {
        "已结束"@
    } else {
        "?"@
    }
}

/// The `profiles list` line of a session: `"  <name> — <state>"`.
pub open spec fn status_line(s: BotSession) -> Seq<char> {
    "  "@ + s.spec_profile() + " — "@ + status_word(s)
}

/// All of the paths of the sessions, in order.
pub open spec fn all_paths(ss: Seq<BotSession>) -> Seq<Seq<char>>
    decreases ss.len(),
{
    if ss.len() == 0 {
        Seq::empty()
    } else {
        all_paths(ss.drop_last()) + ss.last().spec_config_paths()
    }
}

/// A session as [`SessionSet::from_specs_with_policy`] makes it from a
/// description: named and pathed after it, never started, with the policy.
pub open spec fn made_from(
    s: BotSession,
    spec: SessionSpec,
    enabled: bool,
    max_attempts: u32,
    backoff: Seq<u64>,
) -> bool {
    &&& s.spec_profile() == spec.name@
    &&& s.spec_config_paths() == seq![spec.config_path@]
    &&& s.spec_never_started()
    &&& s.spec_watcher().spec_policy().enabled == enabled
    &&& s.spec_watcher().spec_policy().max_attempts == max_attempts
    &&& s.spec_watcher().spec_policy().backoff_secs@ == backoff
}

/// A batch of sessions, the current selection, and the command receivers
/// that belong to the sessions (same order).
pub struct SessionSet {
    sessions: Vec<BotSession>,
    selected: usize,
    rxs: Vec<tokio::sync::mpsc::Receiver<String>>,
}

impl SessionSet {
    #[verifier::type_invariant]
    closed spec fn selection_valid(self) -> bool {
        selection_ok(self.sessions@.len(), self.selected)
    }

    pub closed spec fn spec_sessions(self) -> Seq<BotSession> {
        self.sessions@
    }

    pub closed spec fn spec_selected(self) -> usize {
        self.selected
    }

    /// How many receivers the set still holds.
    pub closed spec fn spec_rx_len(self) -> nat {
        self.rxs@.len()
    }

    pub open spec fn well_formed(self) -> bool {
        selection_ok(self.spec_sessions().len(), self.spec_selected())
    }

    /// An empty set.
    pub fn new() -> (s: SessionSet)
        ensures
            s.spec_sessions().len() == 0,
            s.spec_selected() == 0,
            s.spec_rx_len() == 0,
    {
        SessionSet { sessions: Vec::new(), selected: 0, rxs: Vec::new() }
    }

    /// One unstarted session per description (name = the description's
    /// name, paths = its file); restarting off. The receivers are kept.
    pub fn from_specs(specs: &[SessionSpec]) -> (s: SessionSet)
        ensures
            s.spec_sessions().len() == specs@.len(),
            s.spec_selected() == 0,
            s.spec_rx_len() == specs@.len(),
            forall|i: int|
                0 <= i < specs@.len() ==> made_from(
                    #[trigger] s.spec_sessions()[i],
                    specs@[i],
                    false,
                    3,
                    seq![5u64, 15u64, 45u64],
                ),
    {
        let p = RestartPolicy::disabled();
        Self::from_specs_with_policy(specs, p)
    }

    /// As [`Self::from_specs`], with the given restart policy.
    pub fn from_specs_with_policy(specs: &[SessionSpec], policy: RestartPolicy) -> (s: SessionSet)
        ensures
            s.spec_sessions().len() == specs@.len(),
            s.spec_selected() == 0,
            s.spec_rx_len() == specs@.len(),
            forall|i: int|
                0 <= i < specs@.len() ==> made_from(
                    #[trigger] s.spec_sessions()[i],
                    specs@[i],
                    policy.enabled,
                    policy.max_attempts,
                    policy.backoff_secs@,
                ),
    {
        let mut sessions: Vec<BotSession> = Vec::new();
        let mut rxs: Vec<tokio::sync::mpsc::Receiver<String>> = Vec::new();
        let n = specs.len();
        for i in 0..n
            invariant
                n == specs@.len(),
                sessions@.len() == i,
                rxs@.len() == i,
                forall|j: int|
                    0 <= j < i ==> made_from(
                        #[trigger] sessions@[j],
                        specs@[j],
                        policy.enabled,
                        policy.max_attempts,
                        policy.backoff_secs@,
                    ),
        {
            let spec = &specs[i];
            let mut paths: Vec<String> = Vec::new();
            paths.push(copy_str(spec.config_path.as_str()));
            proof {
                assert(views_of(paths@) =~= seq![spec.config_path@]);
            }
            let (s, rx) = BotSession::new_with_policy(spec.name.as_str(), paths, policy.duplicate());
            sessions.push(s);
            rxs.push(rx);
        }
        SessionSet { sessions, selected: 0, rxs }
    }

    /// Takes out the receiver of session `i` (a closed placeholder stays in
    /// its place, so the others keep their positions); `None` when there is
    /// none at `i`.
    pub fn take_receiver(&mut self, i: usize) -> (r: Option<tokio::sync::mpsc::Receiver<String>>)
        ensures
            r is Some <==> i < old(self).spec_rx_len(),
            final(self).spec_rx_len() == old(self).spec_rx_len(),
            final(self).spec_sessions() == old(self).spec_sessions(),
            final(self).spec_selected() == old(self).spec_selected(),
    {
        proof {
            use_type_invariant(&*self);
        }
        if i < self.rxs.len() {
            let (_tx, mut spare) = new_cmd_channel(1);
            std::mem::swap(&mut spare, &mut self.rxs[i]);
            Some(spare)
        } else {
            None
        }
    }

    /// Takes out every receiver (same order as the sessions; placeholders
    /// stay behind).
    pub fn pull_receivers(&mut self) -> (r: Vec<tokio::sync::mpsc::Receiver<String>>)
        ensures
            r@.len() == old(self).spec_rx_len(),
            final(self).spec_rx_len() == old(self).spec_rx_len(),
            final(self).spec_sessions() == old(self).spec_sessions(),
            final(self).spec_selected() == old(self).spec_selected(),
    {
        proof {
            use_type_invariant(&*self);
        }
        let mut out: Vec<tokio::sync::mpsc::Receiver<String>> = Vec::new();
        let n = self.rxs.len();
        for i in 0..n
            invariant
                n == self.rxs@.len(),
                out@.len() == i,
                self.spec_sessions() == old(self).spec_sessions(),
                self.spec_selected() == old(self).spec_selected(),
                selection_ok(self.spec_sessions().len(), self.spec_selected()),
        {
            let (_tx, mut spare) = new_cmd_channel(1);
            std::mem::swap(&mut spare, &mut self.rxs[i]);
            out.push(spare);
        }
        out
    }

    /// A set made of the given sessions, the first one selected, no
    /// receivers.
    pub fn from_sessions(sessions: Vec<BotSession>) -> (s: SessionSet)
        ensures
            s.spec_sessions() == sessions@,
            s.spec_selected() == 0,
            s.spec_rx_len() == 0,
    {
        SessionSet { sessions, selected: 0, rxs: Vec::new() }
    }

    pub fn len(&self) -> (n: usize)
        ensures
            n == self.spec_sessions().len(),
    {
        self.sessions.len()
    }

    /// How many receivers the set still holds (one per session it made).
    pub fn receivers_held(&self) -> (n: usize)
        ensures
            n == self.spec_rx_len(),
    {
        self.rxs.len()
    }

    pub fn is_empty(&self) -> (r: bool)
        ensures
            r == (self.spec_sessions().len() == 0),
    {
        self.sessions.len() == 0
    }

    /// The session at `i`.
    pub fn get(&self, i: usize) -> (r: Option<&BotSession>)
        ensures
            i < self.spec_sessions().len() ==> r == Some(&self.spec_sessions()[i as int]),
            i >= self.spec_sessions().len() ==> r is None,
    {
        if i < self.sessions.len() {
            Some(&self.sessions[i])
        } else {
            None
        }
    }

    /// The session at `i`, for changing it.
    pub fn session_mut(&mut self, i: usize) -> (r: &mut BotSession)
        requires
            i < old(self).spec_sessions().len(),
        ensures
            *r == old(self).spec_sessions()[i as int],
            final(self).spec_sessions() == old(self).spec_sessions().update(i as int, *final(r)),
            final(self).spec_selected() == old(self).spec_selected(),
            final(self).spec_rx_len() == old(self).spec_rx_len(),
    {
        proof {
            use_type_invariant(&*self);
        }
        &mut self.sessions[i]
    }

    /// Index of the selected session (0 for an empty set).
    pub fn selected_index(&self) -> (i: usize)
        ensures
            i == self.spec_selected(),
            self.well_formed(),
    {
        proof {
            use_type_invariant(self);
        }
        self.selected
    }

    /// The selected session (`None` for an empty set).
    pub fn selected(&self) -> (r: Option<&BotSession>)
        ensures
            self.spec_sessions().len() == 0 ==> r is None,
            self.spec_sessions().len() > 0 ==> r == Some(
                &self.spec_sessions()[self.spec_selected() as int],
            ),
    {
        proof {
            use_type_invariant(self);
        }
        if self.sessions.len() == 0 {
            None
        } else {
            Some(&self.sessions[self.selected])
        }
    }

    /// Selects session `i`; an index out of range changes nothing.
    pub fn select(&mut self, i: usize)
        ensures
            final(self).spec_selected() == if i < old(self).spec_sessions().len() {
                i
            } else {
                old(self).spec_selected()
            },
            final(self).spec_sessions() == old(self).spec_sessions(),
            final(self).spec_rx_len() == old(self).spec_rx_len(),
    {
        if i < self.sessions.len() {
            self.selected = i;
        }
    }

    /// Moves the selection by `d` places (negative moves back), wrapping
    /// around; nothing happens in an empty set.
    pub fn select_move(&mut self, d: i32)
        ensures
            final(self).spec_selected() == spec_moved(
                old(self).spec_selected(),
                old(self).spec_sessions().len(),
                d,
            ),
            final(self).spec_sessions() == old(self).spec_sessions(),
            final(self).spec_rx_len() == old(self).spec_rx_len(),
    {
        proof {
            use_type_invariant(&*self);
        }
        let n = self.sessions.len();
        if n == 0 {
            return;
        }
        let cur = self.selected as i128;
        let m = (cur + d as i128).checked_rem_euclid(n as i128);
        match m {
            Some(v) => {
                proof {
                    assert(0 <= v < n);
                }
                self.selected = v as usize;
            },
            None => {},
        }
    }

    /// The first session named exactly `name`.
    pub fn find(&self, name: &str) -> (r: Option<usize>)
        ensures
            match r {
                Some(i) => i < self.spec_sessions().len() && self.spec_sessions()[i as int].spec_profile()
                    == name@ && forall|j: int|
                    0 <= j < i ==> #[trigger] self.spec_sessions()[j].spec_profile() != name@,
                None => forall|j: int|
                    0 <= j < self.spec_sessions().len() ==> #[trigger] self.spec_sessions()[j].spec_profile()
                        != name@,
            },
    {
        let n = self.sessions.len();
        for i in 0..n
            invariant
                n == self.spec_sessions().len(),
                forall|j: int| 0 <= j < i ==> #[trigger] self.spec_sessions()[j].spec_profile() != name@,
        {
            if crate::text::str_eq(self.sessions[i].name(), name) {
                return Some(i);
            }
        }
        None
    }

    /// Same as [`Self::find`].
    pub fn index_of(&self, name: &str) -> (r: Option<usize>)
        ensures
            match r {
                Some(i) => i < self.spec_sessions().len() && self.spec_sessions()[i as int].spec_profile()
                    == name@ && forall|j: int|
                    0 <= j < i ==> #[trigger] self.spec_sessions()[j].spec_profile() != name@,
                None => forall|j: int|
                    0 <= j < self.spec_sessions().len() ==> #[trigger] self.spec_sessions()[j].spec_profile()
                        != name@,
            },
    {
        self.find(name)
    }

    /// Gives session `i` its login template. A template without a password
    /// takes the one stored for the profile, if any; a template with a
    /// password has it recorded in the store when the store remembers.
    pub fn adopt_template(&mut self, i: usize, t: SessionTemplate, creds: &mut Credentials)
        requires
            i < old(self).spec_sessions().len(),
        ensures
            ({
                let name = old(self).spec_sessions()[i as int].spec_profile();
                let pw = if t.password@.len() == 0 {
                    match spec_password(old(creds).spec_map(), name) {
                        Some(p) => p,
                        None => t.password@,
                    }
                } else {
                    t.password@
                };
                &&& final(self).spec_sessions() == old(self).spec_sessions().update(
                    i as int,
                    final(self).spec_sessions()[i as int],
                )
                &&& final(self).spec_sessions()[i as int]@ == (SessionModel {
                    template: Some((t.account@, pw, t.ip@, t.port)),
                    ..old(self).spec_sessions()[i as int]@
                })
            }),
            (t.password@.len() > 0 && old(creds).spec_remember() == Remember::Yes) ==> final(creds).spec_map()
                == spec_record(old(creds).spec_map(), old(self).spec_sessions()[i as int].spec_profile(), t.account@, t.password@),
            !(t.password@.len() > 0 && old(creds).spec_remember() == Remember::Yes) ==> *final(creds) == *old(creds),
            final(self).spec_selected() == old(self).spec_selected(),
            final(self).spec_rx_len() == old(self).spec_rx_len(),
            final(creds).spec_path() == old(creds).spec_path(),
            final(creds).spec_remember() == old(creds).spec_remember(),
            final(creds).spec_load_error() == old(creds).spec_load_error(),
    {
        let name = copy_str(self.get(i).unwrap().name());
        let mut t = t;
        if t.password.as_str().is_empty() {
            match creds.password_for(name.as_str()) {
                Some(pw) => {
                    t.password = copy_str(pw);
                },
                None => {},
            }
        } else if creds.remember().is_yes() {
            creds.record(name.as_str(), t.account.as_str(), t.password.as_str());
        }
        self.session_mut(i).set_template(t);
    }

    /// The sessions that start now but have no password in their template,
    /// by name, in order (their passwords are asked before the start).
    pub fn missing_passwords(&self, autostart: bool, only: &[String]) -> (r: Vec<String>)
        ensures
            views_of(r@) == missing_names(models_of(self.spec_sessions()), autostart, only@),
    {
        let mut r: Vec<String> = Vec::new();
        let n = self.len();
        for i in 0..n
            invariant
                n == self.spec_sessions().len(),
                views_of(r@) == missing_names(models_of(self.spec_sessions()).take(i as int), autostart, only@),
        {
            let ghost ms = models_of(self.spec_sessions());
            proof {
                assert(ms.take(i + 1).drop_last() =~= ms.take(i as int));
            }
            let s = self.get(i).unwrap();
            let empty = match s.template() {
                Some(t) => t.password.as_str().is_empty(),
                None => false,
            };
            if empty && crate::will_autostart(s.name(), autostart, only) {
                let ghost before = views_of(r@);
                r.push(copy_str(s.name()));
                proof {
                    assert(views_of(r@) =~= before.push(s.spec_profile()));
                }
            }
        }
        proof {
            assert(models_of(self.spec_sessions()).take(n as int) =~= models_of(self.spec_sessions()));
        }
        r
    }

    /// Gives the first session named `name` the password `pw` in its
    /// template and records it in the store. An empty password (the
    /// question skipped), an unknown name or a session without a template
    /// changes nothing (`None`); otherwise the session's index is returned.
    pub fn give_password(&mut self, name: &str, pw: &str, creds: &mut Credentials) -> (r: Option<usize>)
        ensures
            final(self).spec_selected() == old(self).spec_selected(),
            final(self).spec_rx_len() == old(self).spec_rx_len(),
            final(creds).spec_path() == old(creds).spec_path(),
            final(creds).spec_remember() == old(creds).spec_remember(),
            final(creds).spec_load_error() == old(creds).spec_load_error(),
            r is None ==> final(self).spec_sessions() == old(self).spec_sessions() && *final(creds)
                == *old(creds),
            r is None ==> pw@.len() == 0 || (forall|j: int|
                0 <= j < old(self).spec_sessions().len() ==> #[trigger] old(self).spec_sessions()[j].spec_profile() != name@) || (exists|j: int|
                0 <= j < old(self).spec_sessions().len() && old(self).spec_sessions()[j].spec_profile()
                    == name@ && old(self).spec_sessions()[j]@.template is None && forall|k: int|
                    0 <= k < j ==> #[trigger] old(self).spec_sessions()[k].spec_profile() != name@),
            r matches Some(i) ==> ({
                let ss = old(self).spec_sessions();
                let t = ss[i as int]@.template->0;
                &&& pw@.len() > 0
                &&& i < ss.len()
                &&& ss[i as int].spec_profile() == name@
                &&& forall|k: int| 0 <= k < i ==> #[trigger] ss[k].spec_profile() != name@
                &&& ss[i as int]@.template is Some
                &&& final(self).spec_sessions() == ss.update(i as int, final(self).spec_sessions()[i as int])
                &&& final(self).spec_sessions()[i as int]@ == (SessionModel {
                    template: Some((t.0, pw@, t.2, t.3)),
                    ..ss[i as int]@
                })
                &&& final(creds).spec_map() == spec_record(old(creds).spec_map(), name@, t.0, pw@)
            }),
    {
        if pw.is_empty() {
            return None;
        }
        let i = match self.index_of(name) {
            None => {
                return None;
            },
            Some(i) => i,
        };
        let mut t = match self.get(i).unwrap().template() {
            None => {
                return None;
            },
            Some(t) => t,
        };
        let account = copy_str(t.account.as_str());
        t.password = copy_str(pw);
        self.session_mut(i).set_template(t);
        creds.record(name, account.as_str(), pw);
        Some(i)
    }

    /// Every session whose name starts with `prefix`, ASCII
    /// case-insensitively, in order (an exact name matches too).
    pub fn find_prefix(&self, prefix: &str) -> (r: Vec<usize>)
        ensures
            r@ == prefix_hits(self.spec_sessions(), prefix@),
    {
        let p = chars_of(prefix);
        let mut out: Vec<usize> = Vec::new();
        let n = self.sessions.len();
        let ghost ss = self.spec_sessions();
        for i in 0..n
            invariant
                n == ss.len(),
                ss == self.spec_sessions(),
                p@ == prefix@,
                out@ == prefix_hits(ss.take(i as int), prefix@),
        {
            let name = chars_of(self.sessions[i].name());
            let hit = starts_with_at(&name, 0, &p, true);
            proof {
                assert(name@.skip(0) =~= name@);
                assert(ss.take(i + 1).drop_last() =~= ss.take(i as int));
                assert(ss.take(i + 1).last() == ss[i as int]);
            }
            if hit {
                out.push(i);
            }
        }
        proof {
            assert(ss.take(n as int) =~= ss);
        }
        out
    }

    /// The sessions a target reaches, ascending, without repeats: the
    /// selected one, all, or the name-prefix matches. A prefix without
    /// matches reaches nobody (never the selected session instead).
    pub fn resolve(&self, target: &Target) -> (r: Vec<usize>)
        ensures
            r@ == spec_resolve(self.spec_sessions(), self.spec_selected(), target@),
    {
        match target {
            Target::Selected => {
                if self.sessions.len() == 0 {
                    Vec::new()
                } else {
                    let mut v: Vec<usize> = Vec::new();
                    v.push(self.selected);
                    proof {
                        assert(v@ =~= seq![self.selected]);
                    }
                    v
                }
            },
            Target::All => {
                let n = self.sessions.len();
                let mut v: Vec<usize> = Vec::new();
                for i in 0..n
                    invariant
                        n == self.spec_sessions().len(),
                        v@ == all_indices(i as nat),
                {
                    v.push(i);
                    proof {
                        assert(v@ =~= all_indices((i + 1) as nat));
                    }
                }
                v
            },
            Target::Prefix(p) => self.find_prefix(p.as_str()),
        }
    }

    /// The running sessions, ascending.
    pub fn running(&self) -> (r: Vec<usize>)
        ensures
            r@ == running_indices(self.spec_sessions()),
    {
        let mut out: Vec<usize> = Vec::new();
        let n = self.sessions.len();
        let ghost ss = self.spec_sessions();
        for i in 0..n
            invariant
                n == ss.len(),
                ss == self.spec_sessions(),
                out@ == running_indices(ss.take(i as int)),
        {
            proof {
                assert(ss.take(i + 1).drop_last() =~= ss.take(i as int));
            }
            if self.sessions[i].is_running() {
                out.push(i);
            }
        }
        proof {
            assert(ss.take(n as int) =~= ss);
        }
        out
    }

    /// The total of the sessions' drop counters (saturating).
    pub fn dropped_total(&self) -> (t: u64)
        ensures
            t == if dropped_sum(self.spec_sessions()) > u64::MAX {
                u64::MAX as int
            } else {
                dropped_sum(self.spec_sessions())
            },
    {
        let mut t: u64 = 0;
        let n = self.sessions.len();
        let ghost ss = self.spec_sessions();
        for i in 0..n
            invariant
                n == ss.len(),
                ss == self.spec_sessions(),
                t == if dropped_sum(ss.take(i as int)) > u64::MAX {
                    u64::MAX as int
                } else {
                    dropped_sum(ss.take(i as int))
                },
        {
            proof {
                assert(ss.take(i + 1).drop_last() =~= ss.take(i as int));
                lemma_dropped_sum_nonneg(ss.take(i as int));
            }
            t = t.saturating_add(self.sessions[i].dropped());
        }
        proof {
            assert(ss.take(n as int) =~= ss);
        }
        t
    }

    /// The profile names, in order.
    pub fn profile_names(&self) -> (r: Vec<String>)
        ensures
            views_of(r@) == names_of(self.spec_sessions()),
    {
        let mut out: Vec<String> = Vec::new();
        let n = self.sessions.len();
        let ghost ss = self.spec_sessions();
        for i in 0..n
            invariant
                n == ss.len(),
                ss == self.spec_sessions(),
                views_of(out@) == names_of(ss.take(i as int)),
        {
            out.push(copy_str(self.sessions[i].name()));
            proof {
                assert(names_of(ss.take(i + 1)) =~= names_of(ss.take(i as int)).push(
                    ss[i as int].spec_profile(),
                ));
                assert(views_of(out@) =~= views_of(out@.drop_last()).push(out@.last()@));
            }
        }
        proof {
            assert(ss.take(n as int) =~= ss);
        }
        out
    }

    /// Every profile path of every session, in order.
    pub fn config_paths(&self) -> (r: Vec<String>)
        ensures
            views_of(r@) == all_paths(self.spec_sessions()),
    {
        let mut out: Vec<String> = Vec::new();
        let n = self.sessions.len();
        let ghost ss = self.spec_sessions();
        for i in 0..n
            invariant
                n == ss.len(),
                ss == self.spec_sessions(),
                views_of(out@) == all_paths(ss.take(i as int)),
        {
            let ps = self.sessions[i].paths();
            let m = ps.len();
            let ghost before = views_of(out@);
            for k in 0..m
                invariant
                    m == ps@.len(),
                    views_of(out@) == before + views_of(ps@).take(k as int),
            {
                let ghost prev = views_of(out@);
                out.push(copy_str(ps[k].as_str()));
                proof {
                    assert(views_of(out@) =~= prev.push(ps@[k as int]@));
                    assert(views_of(ps@).take(k + 1) =~= views_of(ps@).take(k as int).push(
                        ps@[k as int]@,
                    ));
                    assert((before + views_of(ps@).take(k as int)).push(ps@[k as int]@)
                        =~= before + views_of(ps@).take(k + 1));
                }
            }
            proof {
                assert(views_of(ps@).take(m as int) =~= views_of(ps@));
                assert(ss.take(i + 1).drop_last() =~= ss.take(i as int));
            }
        }
        proof {
            assert(ss.take(n as int) =~= ss);
        }
        out
    }

    /// Every session is stopped by the user or was never started (and there
    /// is at least one).
    pub fn all_stopped_by_user(&self) -> (r: bool)
        ensures
            r == (self.spec_sessions().len() > 0 && forall|j: int|
                0 <= j < self.spec_sessions().len() ==> (#[trigger] self.spec_sessions()[j]).spec_manually_stopped()
                    || self.spec_sessions()[j].spec_never_started()),
    {
        let n = self.sessions.len();
        if n == 0 {
            return false;
        }
        for i in 0..n
            invariant
                n == self.spec_sessions().len(),
                forall|j: int|
                    0 <= j < i ==> (#[trigger] self.spec_sessions()[j]).spec_manually_stopped()
                        || self.spec_sessions()[j].spec_never_started(),
        {
            let s = &self.sessions[i];
            if !(s.is_manually_stopped() || s.never_started()) {
                return false;
            }
        }
        true
    }

    /// How many sessions were never started.
    pub fn never_started_count(&self) -> (c: usize)
        ensures
            c == count_never_started(self.spec_sessions()),
    {
        let mut c: usize = 0;
        let n = self.sessions.len();
        let ghost ss = self.spec_sessions();
        for i in 0..n
            invariant
                n == ss.len(),
                ss == self.spec_sessions(),
                c == count_never_started(ss.take(i as int)),
                c <= i,
        {
            proof {
                assert(ss.take(i + 1).drop_last() =~= ss.take(i as int));
            }
            if self.sessions[i].never_started() {
                c += 1;
            }
        }
        proof {
            assert(ss.take(n as int) =~= ss);
        }
        c
    }

    /// Whether some session was never started (it may still be started, so
    /// the program must not wind up).
    pub fn has_never_started(&self) -> (r: bool)
        ensures
            r == exists|j: int|
                0 <= j < self.spec_sessions().len() && (#[trigger] self.spec_sessions()[j]).spec_never_started(),
    {
        let n = self.sessions.len();
        for i in 0..n
            invariant
                n == self.spec_sessions().len(),
                forall|j: int| 0 <= j < i ==> !(#[trigger] self.spec_sessions()[j]).spec_never_started(),
        {
            if self.sessions[i].never_started() {
                return true;
            }
        }
        false
    }

    /// One line per session: name and state (`profiles list`).
    pub fn status_lines(&self) -> (r: Vec<String>)
        ensures
            r@.len() == self.spec_sessions().len(),
            forall|j: int|
                0 <= j < r@.len() ==> #[trigger] r@[j]@ == status_line(self.spec_sessions()[j]),
    {
        let mut out: Vec<String> = Vec::new();
        let n = self.sessions.len();
        for i in 0..n
            invariant
                n == self.spec_sessions().len(),
                out@.len() == i,
                forall|j: int|
                    0 <= j < i ==> #[trigger] out@[j]@ == status_line(self.spec_sessions()[j]),
        {
            let s = &self.sessions[i];
            let st = if s.is_manually_stopped() {
                "已停止(手动)"
            } else if s.start_failed() {
                "启动失败"
            } else if s.never_started() {
                "未启动"
            } else if s.is_running() {
                "运行中"
            } else if s.is_waiting_restart() {
                "等重连"
            } else if s.is_finished() {
                "已结束"
            } else {
                "?"
            };
            let mut line = copy_str("  ");
            line.append(s.name());
            line.append(" — ");
            line.append(st);
            proof {
                assert(st@ == status_word(self.spec_sessions()[i as int]));
            }
            out.push(line);
        }
        out
    }

    /// How many sessions wait for a restart.
    pub fn waiting_restart(&self) -> (c: usize)
        ensures
            c == count_waiting(self.spec_sessions()),
    {
        let mut c: usize = 0;
        let n = self.sessions.len();
        let ghost ss = self.spec_sessions();
        for i in 0..n
            invariant
                n == ss.len(),
                ss == self.spec_sessions(),
                c == count_waiting(ss.take(i as int)),
                c <= i,
        {
            proof {
                assert(ss.take(i + 1).drop_last() =~= ss.take(i as int));
            }
            if self.sessions[i].is_waiting_restart() {
                c += 1;
            }
        }
        proof {
            assert(ss.take(n as int) =~= ss);
        }
        c
    }

    /// How many sessions need a person.
    pub fn needing_attention(&self) -> (c: usize)
        ensures
            c == count_attention(self.spec_sessions()),
    {
        let mut c: usize = 0;
        let n = self.sessions.len();
        let ghost ss = self.spec_sessions();
        for i in 0..n
            invariant
                n == ss.len(),
                ss == self.spec_sessions(),
                c == count_attention(ss.take(i as int)),
                c <= i,
        {
            proof {
                assert(ss.take(i + 1).drop_last() =~= ss.take(i as int));
            }
            if self.sessions[i].needs_attention() {
                c += 1;
            }
        }
        proof {
            assert(ss.take(n as int) =~= ss);
        }
        c
    }

    /// How many sessions will still move by themselves: running, or
    /// finished and waiting for a restart. Never-started sessions and failed
    /// starts do not count.
    pub fn live_count(&self) -> (c: usize)
        ensures
            c == count_live(self.spec_sessions()),
    {
        let mut c: usize = 0;
        let n = self.sessions.len();
        let ghost ss = self.spec_sessions();
        for i in 0..n
            invariant
                n == ss.len(),
                ss == self.spec_sessions(),
                c == count_live(ss.take(i as int)),
                c <= i,
        {
            proof {
                assert(ss.take(i + 1).drop_last() =~= ss.take(i as int));
            }
            if !self.sessions[i].is_settled() {
                c += 1;
            }
        }
        proof {
            assert(ss.take(n as int) =~= ss);
        }
        c
    }

    /// No session will move by itself any more, and there is at least one:
    /// the program may wind up.
    pub fn all_stopped(&self) -> (r: bool)
        ensures
            r == (self.spec_sessions().len() > 0 && count_live(self.spec_sessions()) == 0),
    {
        !self.is_empty() && self.live_count() == 0
    }

    /// Sends `cmd` to each session of `idxs`; returns how many took it and,
    /// in order, `(name, reason)` for each that did not (`#<i>` for an index
    /// that names no session).
    pub fn send_to(&self, idxs: &[usize], cmd: &str) -> (r: (usize, Vec<(String, String)>))
        ensures
            exists|res: Seq<Result<(), SendFailure>>|
                res.len() == idxs@.len() && (r.0 as nat, pair_views(r.1@)) == send_report(
                    self.spec_sessions(),
                    idxs@,
                    res,
                ),
    {
        let mut ok: usize = 0;
        let mut errs: Vec<(String, String)> = Vec::new();
        let ghost mut res: Seq<Result<(), SendFailure>> = Seq::empty();
        let n = idxs.len();
        let ghost ss = self.spec_sessions();
        for k in 0..n
            invariant
                n == idxs@.len(),
                ss == self.spec_sessions(),
                res.len() == k,
                ok <= k,
                (ok as nat, pair_views(errs@)) == send_report(ss, idxs@.take(k as int), res),
        {
            let i = idxs[k];
            proof {
                assert(idxs@.take(k + 1).take(k as int) =~= idxs@.take(k as int));
                assert(idxs@.take(k + 1)[k as int] == i);
            }
            let ghost before = pair_views(errs@);
            if i < self.sessions.len() {
                let s = &self.sessions[i];
                let out = s.try_send(cmd);
                let ghost old_res = res;
                proof {
                    res = res.push(out);
                    lemma_send_report_prefix(ss, idxs@.take(k as int), old_res, res);
                    assert(idxs@.take(k + 1).len() == k + 1);
                    assert(res[k as int] == out);
                }
                match out {
                    Ok(()) => {
                        ok = ok + 1;
                    },
                    Err(f) => {
                        errs.push((copy_str(s.name()), failure_message(f)));
                        proof {
                            assert(pair_views(errs@) =~= before.push((ss[i as int].spec_profile(), failure_text(f))));
                        }
                    },
                }
            } else {
                let mut name = copy_str("#");
                let digits = decimal_string(i as u64);
                name.append(digits.as_str());
                errs.push((name, copy_str("会话不存在")));
                let ghost old_res = res;
                proof {
                    res = res.push(Ok(()));
                    lemma_send_report_prefix(ss, idxs@.take(k as int), old_res, res);
                    assert(pair_views(errs@) =~= before.push(missing_entry(i)));
                }
            }
        }
        proof {
            assert(idxs@.take(n as int) =~= idxs@);
        }
        (ok, errs)
    }

    /// Resolves `target` and sends `cmd` there; returns `(reached, took it,
    /// failures)`.
    pub fn dispatch(&self, target: &Target, cmd: &str) -> (r: (usize, usize, Vec<(String, String)>))
        ensures
            r.0 == spec_resolve(self.spec_sessions(), self.spec_selected(), target@).len(),
            exists|res: Seq<Result<(), SendFailure>>|
                res.len() == r.0 && (r.1 as nat, pair_views(r.2@)) == send_report(
                    self.spec_sessions(),
                    spec_resolve(self.spec_sessions(), self.spec_selected(), target@),
                    res,
                ),
    {
        let idxs = self.resolve(target);
        let (ok, errs) = self.send_to(idxs.as_slice(), cmd);
        (idxs.len(), ok, errs)
    }

    /// Parses a line (`[@target] command`) and sends the command to its
    /// targets; returns `(reached, took it, failures)`. A bad target, an
    /// empty command, an empty set and a target that reaches nobody are
    /// errors (sending to nobody silently would look like success).
    pub fn dispatch_line(&self, line: &str) -> (r: Result<(usize, usize, Vec<(String, String)>), String>)
        ensures
            match dispatch_line_error(self.spec_sessions(), self.spec_selected(), line@) {
                Some(e) => r matches Err(m) && m@ == e,
                None => r matches Ok(x) && spec_split_target(line@) matches Ok((t, _)) && {
                    let idxs = spec_resolve(self.spec_sessions(), self.spec_selected(), t);
                    &&& x.0 == idxs.len()
                    &&& exists|res: Seq<Result<(), SendFailure>>|
                        res.len() == idxs.len() && (x.1 as nat, pair_views(x.2@)) == send_report(
                            self.spec_sessions(),
                            idxs,
                            res,
                        )
                },
            },
    {
        let (target, cmd) = match split_target(line) {
            Ok(x) => x,
            Err(e) => {
                return Err(e);
            },
        };
        if cmd.as_str().is_empty() {
            return Err(copy_str("没有指令内容"));
        }
        if self.sessions.len() == 0 {
            return Err(copy_str("没有会话"));
        }
        let idxs = self.resolve(&target);
        if idxs.len() == 0 {
            let mut msg = target.describe();
            msg.append(" 没有匹配的会话");
            return Err(msg);
        }
        let (ok, errs) = self.send_to(idxs.as_slice(), cmd.as_str());
        Ok((idxs.len(), ok, errs))
    }

    /// The console command a line is, if any (`start`, `stop`, `profiles
    /// ...` / `accounts ...`); such commands are run by the console and
    /// never sent to a bot.
    pub fn builtin_for_target(cmd: &str) -> (r: Option<Builtin>)
        ensures
            opt_builtin_view(r) == spec_builtin_for(cmd@),
    {
        let v = chars_of(cmd);
        let (a, b) = trim_bounds(&v);
        let t = sub_vec(&v, a, b);
        if chars_eq(&t, &chars_of("start")) {
            return Some(Builtin::Start);
        }
        if chars_eq(&t, &chars_of("stop")) {
            return Some(Builtin::Stop);
        }
        let pro = chars_of("profiles");
        if starts_with_at(&t, 0, &pro, false) {
            proof {
                assert(t@.skip(0) =~= t@);
            }
            return builtin_after(&t, pro.len());
        }
        let acc = chars_of("accounts");
        if starts_with_at(&t, 0, &acc, false) {
            proof {
                assert(t@.skip(0) =~= t@);
            }
            return builtin_after(&t, acc.len());
        }
        proof {
            assert(t@.skip(0) =~= t@);
        }
        None
    }

    /// The user starts session `i` (see [`BotSession::start`]); the
    /// password comes from the session's template or the credential store.
    /// On success the returned launch says which task to start with which
    /// password.
    pub fn start_session(&mut self, i: usize, creds: Option<&Credentials>) -> (r: Result<Launch, String>)
        ensures
            final(self).spec_selected() == old(self).spec_selected(),
            final(self).spec_rx_len() == old(self).spec_rx_len(),
            final(self).spec_sessions().len() == old(self).spec_sessions().len(),
            i >= old(self).spec_sessions().len() ==> final(self).spec_sessions() == old(self).spec_sessions(),
            i >= old(self).spec_sessions().len() ==> (r matches Err(e) && e@ == "会话不存在"@),
            forall|j: int|
                0 <= j < old(self).spec_sessions().len() && j != i ==> #[trigger] final(self).spec_sessions()[j] == old(self).spec_sessions()[j],
            i < old(self).spec_sessions().len() ==> final(self).spec_sessions()[i as int]@.with_sender(
                old(self).spec_sessions()[i as int]@.sender,
            ) == start_step(
                old(self).spec_sessions()[i as int]@,
                stored_pw(creds, old(self).spec_sessions()[i as int]@.profile),
            ).0,
            i < old(self).spec_sessions().len() ==> match start_step(
                old(self).spec_sessions()[i as int]@,
                stored_pw(creds, old(self).spec_sessions()[i as int]@.profile),
            ).1 {
                Ok(p) => (r matches Ok(l) && l.index == i && l.password@ == p),
                Err(e) => (r matches Err(x) && x@ == e),
            },
    {
        proof {
            use_type_invariant(&*self);
        }
        if i >= self.sessions.len() {
            return Err(copy_str("会话不存在"));
        }
        let name = copy_str(self.sessions[i].name());
        let pw = stored_password(creds, name.as_str());
        match self.sessions[i].start(pw) {
            Ok((password, rx)) => Ok(Launch { index: i, password, rx }),
            Err(e) => Err(e),
        }
    }

    /// The user stops session `i` (see [`BotSession::stop`]). `Ok(true)`
    /// says the task did not take `quit` and must be aborted.
    pub fn stop_session(&mut self, i: usize) -> (r: Result<bool, String>)
        ensures
            final(self).spec_selected() == old(self).spec_selected(),
            final(self).spec_rx_len() == old(self).spec_rx_len(),
            final(self).spec_sessions().len() == old(self).spec_sessions().len(),
            i >= old(self).spec_sessions().len() ==> final(self).spec_sessions() == old(self).spec_sessions(),
            i >= old(self).spec_sessions().len() ==> (r matches Err(e) && e@ == "会话不存在"@),
            forall|j: int|
                0 <= j < old(self).spec_sessions().len() && j != i ==> #[trigger] final(self).spec_sessions()[j] == old(self).spec_sessions()[j],
            i < old(self).spec_sessions().len() ==> final(self).spec_sessions()[i as int]@.with_sender(
                old(self).spec_sessions()[i as int]@.sender,
            ) == builtin_step(old(self).spec_sessions()[i as int]@, BuiltinModel::Stop, None).0,
            i < old(self).spec_sessions().len() ==> match builtin_step(
                old(self).spec_sessions()[i as int]@,
                BuiltinModel::Stop,
                None,
            ).1 {
                Ok(_) => (r matches Ok(stuck) && (stuck ==> old(self).spec_sessions()[i as int]@.task_present)),
                Err(e) => (r matches Err(x) && x@ == e),
            },
    {
        proof {
            use_type_invariant(&*self);
        }
        if i >= self.sessions.len() {
            return Err(copy_str("会话不存在"));
        }
        self.sessions[i].stop()
    }

    /// Registers every session that just ended (see
    /// [`BotSession::note_exit`]); returns, ascending, each one for which a
    /// restart was scheduled, with the line that reports it. Calling it
    /// again changes nothing.
    pub fn note_exits(&mut self, now: u64) -> (r: Vec<(usize, String)>)
        ensures
            final(self).spec_selected() == old(self).spec_selected(),
            final(self).spec_rx_len() == old(self).spec_rx_len(),
            final(self).spec_sessions().len() == old(self).spec_sessions().len(),
            forall|j: int|
                0 <= j < old(self).spec_sessions().len() ==> (#[trigger] final(self).spec_sessions()[j])@ == exit_step(old(self).spec_sessions()[j]@, now).0,
            r@.map_values(|x: (usize, String)| (x.0, x.1@)) == exit_reports(
                models_of(old(self).spec_sessions()),
                now,
            ),
    {
        proof {
            use_type_invariant(&*self);
        }
        let mut out: Vec<(usize, String)> = Vec::new();
        let n = self.sessions.len();
        let ghost olds = models_of(self.spec_sessions());
        for i in 0..n
            invariant
                n == self.spec_sessions().len(),
                olds.len() == n,
                selection_ok(self.spec_sessions().len(), self.spec_selected()),
                self.spec_selected() == old(self).spec_selected(),
                self.spec_rx_len() == old(self).spec_rx_len(),
                olds == models_of(old(self).spec_sessions()),
                forall|j: int| 0 <= j < i ==> (#[trigger] self.spec_sessions()[j])@ == exit_step(olds[j], now).0,
                forall|j: int| i <= j < n ==> (#[trigger] self.spec_sessions()[j])@ == olds[j],
                out@.map_values(|x: (usize, String)| (x.0, x.1@)) == exit_reports(olds.take(i as int), now),
        {
            let ghost before = out@.map_values(|x: (usize, String)| (x.0, x.1@));
            proof {
                assert(self.spec_sessions()[i as int]@ == olds[i as int]);
                assert(olds.take(i + 1).drop_last() =~= olds.take(i as int));
                assert(olds.take(i + 1).last() == olds[i as int]);
            }
            let scheduled = self.sessions[i].note_exit(now);
            if scheduled {
                let ms = match self.sessions[i].restart_remaining(now) {
                    Some(x) => x,
                    None => 0,
                };
                let mut line = copy_str("掉线, ");
                let digits = decimal_string(ms / 1000);
                line.append(digits.as_str());
                line.append(" 秒后自动拉起");
                out.push((i, line));
                proof {
                    assert(out@.map_values(|x: (usize, String)| (x.0, x.1@)) =~= before.push(
                        (i, exit_note(exit_step(olds[i as int], now).0, now)),
                    ));
                }
            }
        }
        proof {
            assert(olds.take(n as int) =~= olds);
        }
        out
    }

    /// Runs the restarts that are due (see [`BotSession::restart_if_due`]),
    /// with the credential store's password where the session has one.
    /// Returns the tasks to start and, for each due session without a
    /// template (whose restarting is switched off), a line saying so.
    pub fn advance_watchers(&mut self, now: u64, creds: Option<&Credentials>) -> (r: (Vec<Launch>, Vec<String>))
        ensures
            final(self).spec_selected() == old(self).spec_selected(),
            final(self).spec_rx_len() == old(self).spec_rx_len(),
            final(self).spec_sessions().len() == old(self).spec_sessions().len(),
            forall|j: int|
                0 <= j < old(self).spec_sessions().len() ==> (#[trigger] final(self).spec_sessions()[j])@.with_sender(
                    old(self).spec_sessions()[j]@.sender,
                ) == restart_step(
                    old(self).spec_sessions()[j]@,
                    now,
                    stored_pw(creds, old(self).spec_sessions()[j]@.profile),
                ).0,
            launch_views(r.0@) == due_launches(models_of(old(self).spec_sessions()), now, creds),
            views_of(r.1@) == due_failures(models_of(old(self).spec_sessions()), now, creds),
    {
        proof {
            use_type_invariant(&*self);
        }
        let mut launches: Vec<Launch> = Vec::new();
        let mut errs: Vec<String> = Vec::new();
        let n = self.sessions.len();
        let ghost olds = models_of(self.spec_sessions());
        for i in 0..n
            invariant
                n == self.spec_sessions().len(),
                olds.len() == n,
                selection_ok(self.spec_sessions().len(), self.spec_selected()),
                self.spec_selected() == old(self).spec_selected(),
                self.spec_rx_len() == old(self).spec_rx_len(),
                olds == models_of(old(self).spec_sessions()),
                forall|j: int|
                    0 <= j < i ==> (#[trigger] self.spec_sessions()[j])@.with_sender(olds[j].sender)
                        == restart_step(olds[j], now, stored_pw(creds, olds[j].profile)).0,
                forall|j: int| i <= j < n ==> (#[trigger] self.spec_sessions()[j])@ == olds[j],
                launch_views(launches@) == due_launches(olds.take(i as int), now, creds),
                views_of(errs@) == due_failures(olds.take(i as int), now, creds),
        {
            let ghost lb = launch_views(launches@);
            let ghost eb = views_of(errs@);
            proof {
                assert(self.spec_sessions()[i as int]@ == olds[i as int]);
                assert(olds.take(i + 1).drop_last() =~= olds.take(i as int));
                assert(olds.take(i + 1).last() == olds[i as int]);
            }
            let name = copy_str(self.sessions[i].name());
            let pw = stored_password(creds, name.as_str());
            let step = self.sessions[i].restart_if_due(now, pw);
            match step {
                RestartStep::NotDue => {},
                RestartStep::Launched(password, rx) => {
                    launches.push(Launch { index: i, password, rx });
                    proof {
                        assert(launch_views(launches@) =~= lb.push(
                            (i, launches@.last().password@),
                        ));
                    }
                },
                RestartStep::NoTemplate => {
                    let mut line = copy_str(name.as_str());
                    line.append(": 档案未能加载, 放弃自动拉起");
                    errs.push(line);
                    proof {
                        assert(views_of(errs@) =~= eb.push(errs@.last()@));
                    }
                },
            }
        }
        proof {
            assert(olds.take(n as int) =~= olds);
        }
        (launches, errs)
    }

    /// Manual restart of session `i` (see [`BotSession::manual_restart`]);
    /// `Ok(Some(..))` is a task to start, `Ok(None)` means the task is
    /// still running and only the back-off was reset.
    pub fn manual_restart(&mut self, i: usize, now: u64, creds: Option<&Credentials>) -> (r: Result<
        Option<Launch>,
        String,
    >)
        ensures
            final(self).spec_selected() == old(self).spec_selected(),
            final(self).spec_rx_len() == old(self).spec_rx_len(),
            final(self).spec_sessions().len() == old(self).spec_sessions().len(),
            i >= old(self).spec_sessions().len() ==> final(self).spec_sessions() == old(self).spec_sessions(),
            i >= old(self).spec_sessions().len() ==> (r matches Err(e) && e@ == "会话不存在"@),
            forall|j: int|
                0 <= j < old(self).spec_sessions().len() && j != i ==> #[trigger] final(self).spec_sessions()[j]
                    == old(self).spec_sessions()[j],
            i < old(self).spec_sessions().len() ==> final(self).spec_sessions()[i as int]@.with_sender(
                old(self).spec_sessions()[i as int]@.sender,
            ) == manual_restart_step(
                old(self).spec_sessions()[i as int]@,
                stored_pw(creds, old(self).spec_sessions()[i as int]@.profile),
            ).0,
            i < old(self).spec_sessions().len() ==> match manual_restart_step(
                old(self).spec_sessions()[i as int]@,
                stored_pw(creds, old(self).spec_sessions()[i as int]@.profile),
            ).1 {
                Ok(Some(p)) => (r matches Ok(Some(l)) && l.index == i && l.password@ == p),
                Ok(None) => r matches Ok(None),
                Err(e) => (r matches Err(x) && x@ == e),
            },
    {
        proof {
            use_type_invariant(&*self);
        }
        if i >= self.sessions.len() {
            return Err(copy_str("会话不存在"));
        }
        let name = copy_str(self.sessions[i].name());
        let pw = stored_password(creds, name.as_str());
        match self.sessions[i].manual_restart(pw) {
            Ok(Some((password, rx))) => Ok(Some(Launch { index: i, password, rx })),
            Ok(None) => Ok(None),
            Err(e) => Err(e),
        }
    }

    /// Records how the task of session `i` ended (see
    /// [`crate::session::write_back`]), when `generation` is still that
    /// session's: the ending of a task from before a restart is dropped.
    /// Returns whether it was recorded.
    pub fn record_ending(&mut self, i: usize, generation: u32, res: crate::session::SupervisorResult) -> (done: bool)
        ensures
            done == (i < old(self).spec_sessions().len() && old(self).spec_sessions()[i as int]@.generation
                == generation),
            final(self).spec_selected() == old(self).spec_selected(),
            final(self).spec_rx_len() == old(self).spec_rx_len(),
            done ==> final(self).spec_sessions() == old(self).spec_sessions().update(i as int, final(self).spec_sessions()[i as int])
                && final(self).spec_sessions()[i as int]@ == (SessionModel {
                    outcome: Some(res.outcome),
                    stage: crate::session::STAGE_FINISHED,
                    ..old(self).spec_sessions()[i as int]@
                }),
            !done ==> final(self).spec_sessions() == old(self).spec_sessions(),
    {
        if i >= self.len() {
            return false;
        }
        if self.get(i).unwrap().generation() != generation {
            return false;
        }
        crate::session::write_back(self.session_mut(i), res);
        true
    }

    /// Runs a console command on the sessions a target reaches, in order:
    /// `start` and `stop` per session (see [`Self::start_session`] and
    /// [`Self::stop_session`]); the profile commands act on the set, not on
    /// sessions: they count as one action (one hit) that is not carried out
    /// here (no success; the caller runs it on the set).
    pub fn dispatch_builtin(&mut self, target: &Target, builtin: Builtin, creds: Option<&Credentials>) -> (r: BatchReport)
        ensures
            final(self).spec_selected() == old(self).spec_selected(),
            final(self).spec_rx_len() == old(self).spec_rx_len(),
            !(builtin is Start || builtin is Stop) ==> final(self).spec_sessions() == old(self).spec_sessions()
                && r.hit == 1 && r.ok == 0 && r.errs@.len() == 0 && r.launches@.len() == 0
                && r.stuck@.len() == 0 && r.stopped@.len() == 0,
            builtin is Start ==> r.stopped@.len() == 0 && r.stuck@.len() == 0,
            forall|k: int|
                0 <= k < r.stopped@.len() ==> #[trigger] r.stopped@[k] < old(self).spec_sessions().len()
                    && final(self).spec_sessions()[r.stopped@[k] as int]@.manual_stopped,
            forall|k: int| 0 <= k < r.stuck@.len() ==> r.stopped@.contains(#[trigger] r.stuck@[k]),
            (builtin is Start || builtin is Stop) ==> {
                let idxs = spec_resolve(old(self).spec_sessions(), old(self).spec_selected(), target@);
                let out = batch(models_of(old(self).spec_sessions()), idxs, builtin@, creds);
                &&& r.hit == idxs.len()
                &&& final(self).spec_sessions().len() == old(self).spec_sessions().len()
                &&& forall|j: int|
                    0 <= j < old(self).spec_sessions().len() ==> (#[trigger] final(self).spec_sessions()[j])@.with_sender(
                        old(self).spec_sessions()[j]@.sender,
                    ) == out.0[j]
                &&& r.ok == out.1
                &&& pair_views(r.errs@) == out.2
                &&& launch_views(r.launches@) == out.3
                &&& r.stopped@ == batch_stopped(models_of(old(self).spec_sessions()), idxs, builtin@, creds)
                &&& forall|k: int|
                    0 <= k < r.stuck@.len() ==> #[trigger] r.stuck@[k] < old(self).spec_sessions().len()
                        && final(self).spec_sessions()[r.stuck@[k] as int]@.task_present
            },
    {
        proof {
            use_type_invariant(&*self);
        }
        let per_session = builtin.is_per_session();
        if !per_session {
            return BatchReport {
                hit: 1,
                ok: 0,
                errs: Vec::new(),
                launches: Vec::new(),
                stuck: Vec::new(),
                stopped: Vec::new(),
            };
        }
        let idxs = self.resolve(target);
        let mut ok: usize = 0;
        let mut errs: Vec<(String, String)> = Vec::new();
        let mut launches: Vec<Launch> = Vec::new();
        let mut stuck: Vec<usize> = Vec::new();
        let mut stopped: Vec<usize> = Vec::new();
        let n = self.sessions.len();
        let ghost olds = models_of(self.spec_sessions());
        let ghost b = builtin@;
        let m = idxs.len();
        for k in 0..m
            invariant
                m == idxs@.len(),
                n == self.spec_sessions().len(),
                olds.len() == n,
                olds == models_of(old(self).spec_sessions()),
                b == builtin@,
                b is Start || b is Stop,
                selection_ok(self.spec_sessions().len(), self.spec_selected()),
                self.spec_selected() == old(self).spec_selected(),
                self.spec_rx_len() == old(self).spec_rx_len(),
                batch(olds, idxs@.take(k as int), b, creds).0.len() == n,
                forall|j: int|
                    0 <= j < n ==> (#[trigger] self.spec_sessions()[j])@.with_sender(olds[j].sender)
                        == batch(olds, idxs@.take(k as int), b, creds).0[j],
                ok as nat == batch(olds, idxs@.take(k as int), b, creds).1,
                ok <= k,
                pair_views(errs@) == batch(olds, idxs@.take(k as int), b, creds).2,
                launch_views(launches@) == batch(olds, idxs@.take(k as int), b, creds).3,
                forall|q: int|
                    0 <= q < stuck@.len() ==> #[trigger] stuck@[q] < n && self.spec_sessions()[stuck@[q] as int]@.task_present,
                forall|q: int|
                    0 <= q < stopped@.len() ==> #[trigger] stopped@[q] < n && self.spec_sessions()[stopped@[q] as int]@.manual_stopped,
                b is Start ==> stopped@.len() == 0 && stuck@.len() == 0,
                stopped@ == batch_stopped(olds, idxs@.take(k as int), b, creds),
                forall|q: int| 0 <= q < stuck@.len() ==> stopped@.contains(#[trigger] stuck@[q]),
        {
            let i = idxs[k];
            let ghost prev = batch(olds, idxs@.take(k as int), b, creds);
            let ghost eb = pair_views(errs@);
            let ghost lb = launch_views(launches@);
            proof {
                assert(idxs@.take(k + 1).drop_last() =~= idxs@.take(k as int));
                assert(idxs@.take(k + 1).last() == i);
                lemma_batch_len(olds, idxs@.take(k + 1), b, creds);
            }
            if i >= self.sessions.len() {
                let mut name = copy_str("#");
                let digits = decimal_string(i as u64);
                name.append(digits.as_str());
                errs.push((name, copy_str("会话不存在")));
                proof {
                    assert(pair_views(errs@) =~= eb.push(missing_entry(i)));
                }
            } else {
                let name = copy_str(self.sessions[i].name());
                let ghost cur = self.spec_sessions()[i as int]@;
                proof {
                    assert(cur.with_sender(olds[i as int].sender) == prev.0[i as int]);
                    lemma_builtin_step_sender(cur, olds[i as int].sender, b, creds);
                    assert(cur.profile == prev.0[i as int].profile);
                }
                match builtin {
                    Builtin::Start => {
                        match self.start_session(i, creds) {
                            Ok(l) => {
                                ok = ok + 1;
                                launches.push(l);
                                proof {
                                    assert(launch_views(launches@) =~= lb.push(
                                        (i, launches@.last().password@),
                                    ));
                                }
                            },
                            Err(e) => {
                                errs.push((name, e));
                                proof {
                                    assert(pair_views(errs@) =~= eb.push(
                                        (cur.profile, errs@.last().1@),
                                    ));
                                }
                            },
                        }
                    },
                    Builtin::Stop => {
                        let ghost stopped_before = stopped@;
                        let ghost stuck_before = stuck@;
                        match self.stop_session(i) {
                            Ok(st) => {
                                ok = ok + 1;
                                stopped.push(i);
                                proof {
                                    assert(stopped@ == stopped_before.push(i));
                                    assert forall|q: int| 0 <= q < stuck_before.len() implies stopped@.contains(
                                        #[trigger] stuck_before[q],
                                    ) by {
                                        let w = choose|x: int| 0 <= x < stopped_before.len() && stopped_before[x] == stuck_before[q];
                                        assert(stopped@[w] == stuck_before[q]);
                                    }
                                    assert(stopped@[stopped@.len() - 1] == i);
                                }
                                if st {
                                    stuck.push(i);
                                    proof {
                                        assert(stuck@ == stuck_before.push(i));
                                    }
                                }
                            },
                            Err(e) => {
                                errs.push((name, e));
                                proof {
                                    assert(pair_views(errs@) =~= eb.push(
                                        (cur.profile, errs@.last().1@),
                                    ));
                                }
                            },
                        }
                    },
                    _ => {},
                }
                proof {
                    let now_b = batch(olds, idxs@.take(k + 1), b, creds);
                    assert forall|j: int| 0 <= j < n implies (#[trigger] self.spec_sessions()[j])@.with_sender(
                        olds[j].sender,
                    ) == now_b.0[j] by {
                        if j != i {
                            assert(now_b.0[j] == prev.0[j]);
                        }
                    }
                }
            }
        }
        proof {
            assert(idxs@.take(m as int) =~= idxs@);
        }
        BatchReport { hit: idxs.len(), ok, errs, launches, stuck, stopped }
    }

    /// Whether some session has `path` among its profile paths.
    fn has_path(&self, path: &str) -> (r: bool)
        ensures
            r == path_known(self.spec_sessions(), path@),
    {
        let n = self.sessions.len();
        for i in 0..n
            invariant
                n == self.spec_sessions().len(),
                forall|j: int, k: int|
                    0 <= j < i && 0 <= k < self.spec_sessions()[j].spec_config_paths().len() ==> (
                    #[trigger] self.spec_sessions()[j].spec_config_paths()[k]) != path@,
        {
            let ps = self.sessions[i].paths();
            let m = ps.len();
            for k in 0..m
                invariant
                    m == ps@.len(),
                    i < n,
                    n == self.spec_sessions().len(),
                    views_of(ps@) == self.spec_sessions()[i as int].spec_config_paths(),
                    forall|q: int| 0 <= q < k ==> #[trigger] ps@[q]@ != path@,
            {
                if str_eq(ps[k].as_str(), path) {
                    proof {
                        assert(self.spec_sessions()[i as int].spec_config_paths()[k as int] == path@);
                    }
                    return true;
                }
            }
            proof {
                assert forall|q: int| 0 <= q < m implies self.spec_sessions()[i as int].spec_config_paths()[q] != path@ by {
                    assert(views_of(ps@)[q] == ps@[q]@);
                }
            }
        }
        false
    }

    /// The checks that come before adding a profile file: it must not be
    /// in the set already, nor a session of the same name. Returns the name
    /// the new session would get (the file stem).
    pub fn check_new_profile(&self, path: &str) -> (r: Result<String, String>)
        ensures
            match add_error(self.spec_sessions(), path@) {
                Some(e) => (r matches Err(m) && m@ == e),
                None => (r matches Ok(name) && name@ == spec_profile_name(path@)),
            },
    {
        if self.has_path(path) {
            let mut msg = copy_str(path);
            msg.append(": 已经挂上了");
            return Err(msg);
        }
        let profile = BotSession::profile_from_path(path);
        match self.find(profile.as_str()) {
            Some(_) => {
                let mut msg = copy_str(profile.as_str());
                msg.append(": 已有同名档案在列表里");
                Err(msg)
            },
            None => Ok(profile),
        }
    }

    /// Adds a session for the profile file `path`, whose configuration was
    /// read into `template`: after the checks of [`Self::check_new_profile`]
    /// it is appended unstarted (restarting off) and its receiver kept.
    /// Returns its index.
    pub fn add_profile(&mut self, path: &str, template: SessionTemplate) -> (r: Result<usize, String>)
        ensures
            final(self).spec_selected() == old(self).spec_selected(),
            add_error(old(self).spec_sessions(), path@) matches Some(e) ==> (r matches Err(m) && m@ == e)
                && final(self).spec_sessions() == old(self).spec_sessions() && final(self).spec_rx_len()
                == old(self).spec_rx_len(),
            add_error(old(self).spec_sessions(), path@) is None ==> {
                let n = old(self).spec_sessions().len();
                let s = final(self).spec_sessions()[n as int];
                &&& r == Ok::<usize, String>(n as usize)
                &&& final(self).spec_sessions().len() == n + 1
                &&& final(self).spec_sessions().take(n as int) == old(self).spec_sessions()
                &&& final(self).spec_rx_len() == old(self).spec_rx_len() + 1
                &&& s.spec_profile() == spec_profile_name(path@)
                &&& s.spec_config_paths() == seq![path@]
                &&& s.spec_never_started()
                &&& !s.spec_watcher().spec_policy().enabled
                &&& s@.template == Some((template.account@, template.password@, template.ip@, template.port))
            },
    {
        proof {
            use_type_invariant(&*self);
        }
        let profile = match self.check_new_profile(path) {
            Err(e) => {
                return Err(e);
            },
            Ok(p) => p,
        };
        let mut paths: Vec<String> = Vec::new();
        paths.push(copy_str(path));
        proof {
            assert(views_of(paths@) =~= seq![path@]);
        }
        let (mut s, rx) = BotSession::new(profile.as_str(), paths);
        s.set_template(template);
        let ghost n = self.spec_sessions().len();
        let sel = self.selected;
        self.selected = 0;
        let mut sessions: Vec<BotSession> = Vec::new();
        std::mem::swap(&mut sessions, &mut self.sessions);
        sessions.push(s);
        std::mem::swap(&mut sessions, &mut self.sessions);
        let mut rxs: Vec<tokio::sync::mpsc::Receiver<String>> = Vec::new();
        std::mem::swap(&mut rxs, &mut self.rxs);
        rxs.push(rx);
        std::mem::swap(&mut rxs, &mut self.rxs);
        self.selected = sel;
        proof {
            assert(self.spec_sessions().take(n as int) =~= old(self).spec_sessions());
        }
        Ok(self.sessions.len() - 1)
    }

    /// Takes the session named `name` off (the first one of that name).
    /// Only a settled session may go (a running one would keep running
    /// unseen); its receiver goes with it and the selection stays in range.
    /// Returns its index and name.
    pub fn remove_profile(&mut self, name: &str) -> (r: Result<(usize, String), String>)
        ensures
            match r {
                Ok((idx, p)) => {
                    let n = old(self).spec_sessions().len();
                    &&& idx < n
                    &&& old(self).spec_sessions()[idx as int].spec_profile() == name@
                    &&& forall|j: int| 0 <= j < idx ==> #[trigger] old(self).spec_sessions()[j].spec_profile() != name@
                    &&& old(self).spec_sessions()[idx as int].spec_settled()
                    &&& p@ == name@
                    &&& final(self).spec_sessions() == old(self).spec_sessions().remove(idx as int)
                    &&& final(self).spec_rx_len() == if idx < old(self).spec_rx_len() {
                        (old(self).spec_rx_len() - 1) as nat
                    } else {
                        old(self).spec_rx_len()
                    }
                    &&& final(self).spec_selected() == if old(self).spec_selected() >= n - 1 {
                        if n - 1 == 0 { 0 } else { (n - 2) as usize }
                    } else {
                        old(self).spec_selected()
                    }
                },
                Err(e) => {
                    &&& final(self).spec_sessions() == old(self).spec_sessions()
                    &&& final(self).spec_rx_len() == old(self).spec_rx_len()
                    &&& final(self).spec_selected() == old(self).spec_selected()
                    &&& ((forall|j: int| 0 <= j < old(self).spec_sessions().len() ==> #[trigger] old(self).spec_sessions()[j].spec_profile() != name@)
                        && e@ == name@ + ": 没有这个档案"@) || (exists|idx: int|
                        0 <= idx < old(self).spec_sessions().len() && (#[trigger] old(self).spec_sessions()[idx]).spec_profile()
                            == name@ && (forall|j: int| 0 <= j < idx ==> #[trigger] old(self).spec_sessions()[j].spec_profile() != name@)
                            && !old(self).spec_sessions()[idx].spec_settled() && e@ == name@
                            + ": 还在运行 —— 先 stop 它再摘 (否则它会变成看不见的孤儿进程)"@)
                },
            },
    {
        proof {
            use_type_invariant(&*self);
        }
        let idx = match self.find(name) {
            None => {
                let mut msg = copy_str(name);
                msg.append(": 没有这个档案");
                return Err(msg);
            },
            Some(i) => i,
        };
        if !self.sessions[idx].is_settled() {
            let mut msg = copy_str(name);
            msg.append(": 还在运行 —— 先 stop 它再摘 (否则它会变成看不见的孤儿进程)");
            return Err(msg);
        }
        let n = self.sessions.len();
        let new_sel = if self.selected >= n - 1 {
            if n - 1 == 0 {
                0
            } else {
                n - 2
            }
        } else {
            self.selected
        };
        self.selected = 0;
        let mut sessions: Vec<BotSession> = Vec::new();
        std::mem::swap(&mut sessions, &mut self.sessions);
        let s = sessions.remove(idx);
        std::mem::swap(&mut sessions, &mut self.sessions);
        if idx < self.rxs.len() {
            let mut rxs: Vec<tokio::sync::mpsc::Receiver<String>> = Vec::new();
            std::mem::swap(&mut rxs, &mut self.rxs);
            let _rx = rxs.remove(idx);
            std::mem::swap(&mut rxs, &mut self.rxs);
        }
        self.selected = new_sel;
        let p = copy_str(s.name());
        Ok((idx, p))
    }
}

// ------------------------------------------------------------ laws

pub proof fn lemma_prefix_hits(ss: Seq<BotSession>, p: Seq<char>)
    requires
        ss.len() <= usize::MAX,
    ensures
        forall|i: int, j: int|
            0 <= i < j < prefix_hits(ss, p).len() ==> prefix_hits(ss, p)[i] < prefix_hits(ss, p)[j],
        forall|i: int| 0 <= i < prefix_hits(ss, p).len() ==> prefix_hits(ss, p)[i] < ss.len(),
        forall|i: int|
            0 <= i < prefix_hits(ss, p).len() ==> prefix_match(ss[prefix_hits(ss, p)[i] as int], p),
        forall|k: int|
            0 <= k < ss.len() && k <= usize::MAX && prefix_match(#[trigger] ss[k], p) ==> prefix_hits(
                ss,
                p,
            ).contains(k as usize),
    decreases ss.len(),
{
    if ss.len() > 0 {
        let q = ss.drop_last();
        lemma_prefix_hits(q, p);
        let prev = prefix_hits(q, p);
        assert forall|k: int| 0 <= k < ss.len() && k <= usize::MAX && prefix_match(#[trigger] ss[k], p) implies prefix_hits(
            ss,
            p,
        ).contains(k as usize) by {
            if k < q.len() {
                assert(q[k] == ss[k]);
                assert(prev.contains(k as usize));
                let j = choose|j: int| 0 <= j < prev.len() && prev[j] == k as usize;
                if prefix_match(ss.last(), p) {
                    assert(prev.push((ss.len() - 1) as usize)[j] == k as usize);
                }
            } else {
                assert(prev.push((ss.len() - 1) as usize)[prev.len() as int] == k as usize);
            }
        }
        if prefix_match(ss.last(), p) {
            let r = prev.push((ss.len() - 1) as usize);
            assert forall|i: int| 0 <= i < r.len() implies r[i] < ss.len() && prefix_match(ss[r[i] as int], p) by {
                if i < prev.len() {
                    assert(r[i] == prev[i]);
                    assert(q[prev[i] as int] == ss[prev[i] as int]);
                } else {
                    assert(r[i] == ss.len() - 1);
                    assert(ss[ss.len() - 1] == ss.last());
                }
            }
            assert forall|i: int, j: int| 0 <= i < j < r.len() implies r[i] < r[j] by {
                if j == prev.len() {
                    assert(r[i] == prev[i]);
                }
            }
        } else {
            assert forall|i: int| 0 <= i < prev.len() implies prefix_match(ss[prev[i] as int], p) by {
                assert(q[prev[i] as int] == ss[prev[i] as int]);
            }
        }
    }
}

/// A target reaches sessions in ascending order, each once, all of them
/// in the set; a prefix reaches exactly the sessions whose name starts with
/// it (ASCII case-insensitively) and, when none does, nobody -- never the
/// selected session instead.
pub proof fn law_resolve_in_order_and_in_range(set: SessionSet, t: TargetModel)
    requires
        set.well_formed(),
        set.spec_sessions().len() <= usize::MAX,
    ensures
        ({
            let r = spec_resolve(set.spec_sessions(), set.spec_selected(), t);
            &&& forall|i: int, j: int| 0 <= i < j < r.len() ==> r[i] < r[j]
            &&& forall|i: int| 0 <= i < r.len() ==> r[i] < set.spec_sessions().len()
        }),
        t matches TargetModel::Prefix(p) ==> (forall|k: int|
            0 <= k < set.spec_sessions().len() ==> #[trigger] prefix_match(set.spec_sessions()[k], p)
                == spec_resolve(set.spec_sessions(), set.spec_selected(), t).contains(k as usize)),
{
    let ss = set.spec_sessions();
    match t {
        TargetModel::Prefix(p) => {
            lemma_prefix_hits(ss, p);
            let r = prefix_hits(ss, p);
            assert forall|k: int| 0 <= k < ss.len() implies #[trigger] prefix_match(ss[k], p) == r.contains(k as usize) by {
                if r.contains(k as usize) {
                    let j = choose|j: int| 0 <= j < r.len() && r[j] == k as usize;
                    assert(prefix_match(ss[r[j] as int], p));
                }
            }
        },
        _ => {},
    }
}

/// Moving the selection by `d` and then by `-d` comes back to where it
/// was.
pub proof fn law_select_move_round_trip(sel: usize, n: nat, d: i32)
    requires
        selection_ok(n, sel),
        d != i32::MIN,
        n <= usize::MAX,
    ensures
        spec_moved(spec_moved(sel, n, d), n, (-d) as i32) == sel,
{
    if n > 0 {
        let m = n as int;
        let a = (sel + d) % m;
        vstd::arithmetic::div_mod::lemma_add_mod_noop(sel + d, -d, m);
        vstd::arithmetic::div_mod::lemma_add_mod_noop_right(a, -d, m);
        vstd::arithmetic::div_mod::lemma_small_mod(sel as nat, n);
        assert(0 <= a < m) by {
            vstd::arithmetic::div_mod::lemma_mod_bound(sel + d, m);
        }
        assert(spec_moved(sel, n, d) == a);
        assert((a + (-d) % m) % m == (sel + d + (-d)) % m);
    }
}

} // verus!
