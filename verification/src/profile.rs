//! Profile files: naming rules, paths, and the start-up picker.
//!
//! Profiles live in `profiles/*.json` under the working directory, one file
//! per server and account; names starting with `_` are library files. The
//! picker is a state machine over the list of profiles: it moves a cursor,
//! marks entries for a multi-account start, and asks the front end to
//! delete or create files (which it does, reporting back), never touching
//! the disk itself.

use vstd::prelude::*;

use crate::keys::{KeyCode, KeyInput};
use crate::text::{
    seq_less, chars_of, copy_str, decimal, decimal_string, has_prefix, push_char, string_of, trim,
    trim_bounds,
};

verus! {

/// The profile directory (relative to the working directory).
pub const PROFILES_DIR: &'static str = "profiles";

/// The longest profile name accepted, in characters.
pub const MAX_NAME_CHARS: usize = 60;

/// A character that cannot be part of a file name on some system.
pub open spec fn bad_name_char(c: char) -> bool {
    c == '/' || c == '\\' || c == ':' || c == '*' || c == '?' || c == '"' || c == '<' || c
        == '>' || c == '|'
}

/// `char::is_control`: the general category `Cc` (U+0000..U+001F and
/// U+007F..U+009F).
pub open spec fn is_control(c: char) -> bool {
    c <= '\u{1f}' || ('\u{7f}' <= c && c <= '\u{9f}')
}

/// The first character that is not allowed in a name, if any.
pub open spec fn first_offending(t: Seq<char>) -> Option<char>
    decreases t.len(),
{
    if t.len() == 0 {
        None
    } else if bad_name_char(t[0]) || is_control(t[0]) {
        Some(t[0])
    } else {
        first_offending(t.drop_first())
    }
}

/// `s` ends with `p`.
pub open spec fn has_suffix(s: Seq<char>, p: Seq<char>) -> bool {
    p.len() <= s.len() && s.skip(s.len() - p.len()) == p
}

/// What [`validate_profile_name`] answers: the trimmed name must not be
/// empty, longer than 60 characters, or hold a separator, a reserved or a
/// control character; a `.json` ending is dropped; what is left must not be
/// empty or start with `_`.
pub open spec fn spec_validate_name(raw: Seq<char>) -> Result<Seq<char>, Seq<char>> {
    let t = trim(raw);
    if t.len() == 0 {
        Err("档案名不能为空"@)
    } else if t.len() > 60 {
        Err("档案名过长 (最多 60 字符)"@)
    } else {
        match first_offending(t) {
            Some(c) => if bad_name_char(c) {
                Err("档案名不能包含字符: "@ + seq![c])
            } else {
                Err("档案名不能包含控制字符"@)
            },
            None => {
                let stem = if has_suffix(t, ".json"@) {
                    t.take(t.len() - ".json"@.len())
                } else {
                    t
                };
                if stem.len() == 0 || stem[0] == '_' {
                    Err("下划线开头的名字保留为库文件, 请换一个名字"@)
                } else {
                    Ok(stem)
                }
            },
        }
    }
}

pub open spec fn result_view(r: Result<String, String>) -> Result<Seq<char>, Seq<char>> {
    match r {
        Ok(s) => Ok(s@),
        Err(e) => Err(e@),
    }
}

fn is_bad_name_char(c: char) -> (r: bool)
    ensures
        r == bad_name_char(c),
{
    c == '/' || c == '\\' || c == ':' || c == '*' || c == '?' || c == '"' || c == '<' || c == '>'
        || c == '|'
}

fn is_control_char(c: char) -> (r: bool)
    ensures
        r == is_control(c),
{
    c <= '\u{1f}' || ('\u{7f}' <= c && c <= '\u{9f}')
}

/// Whether `v` ends with `p`.
fn ends_with_chars(v: &Vec<char>, p: &Vec<char>) -> (r: bool)
    ensures
        r == has_suffix(v@, p@),
{
    if p.len() > v.len() {
        return false;
    }
    let off = v.len() - p.len();
    let n = p.len();
    for k in 0..n
        invariant
            n == p@.len(),
            off + n == v@.len(),
            v@.len() <= usize::MAX,
            forall|q: int| 0 <= q < k ==> v@[off + q] == #[trigger] p@[q],
    {
        if v[off + k] != p[k] {
            proof {
                assert(v@.skip(off as int)[k as int] != p@[k as int]);
            }
            return false;
        }
    }
    proof {
        assert(v@.skip(off as int) =~= p@);
    }
    true
}

/// Checks a profile name typed by the user and returns the file stem to
/// use (see [`spec_validate_name`]), or the message that says what is
/// wrong.
pub fn validate_profile_name(raw: &str) -> (r: Result<String, String>)
    ensures
        result_view(r) == spec_validate_name(raw@),
{
    let v = chars_of(raw);
    let (a, b) = trim_bounds(&v);
    let ghost t = v@.subrange(a as int, b as int);
    if a == b {
        return Err(copy_str("档案名不能为空"));
    }
    if b - a > MAX_NAME_CHARS {
        return Err(copy_str("档案名过长 (最多 60 字符)"));
    }
    let mut i = a;
    while i < b
        invariant
            a <= i <= b <= v@.len(),
            a < b,
            b - a <= 60,
            t == v@.subrange(a as int, b as int),
            t == trim(raw@),
            first_offending(t) == first_offending(v@.subrange(i as int, b as int)),
        decreases b - i,
    {
        let ch = v[i];
        proof {
            assert(v@.subrange(i as int, b as int)[0] == ch);
            assert(v@.subrange(i as int, b as int).drop_first() =~= v@.subrange(i + 1, b as int));
        }
        if is_bad_name_char(ch) {
            let mut msg = copy_str("档案名不能包含字符: ");
            push_char(&mut msg, ch);
            proof {
                assert(first_offending(t) == Some(ch));
                assert(msg@ =~= "档案名不能包含字符: "@ + seq![ch]);
            }
            return Err(msg);
        }
        if is_control_char(ch) {
            proof {
                assert(first_offending(t) == Some(ch));
            }
            return Err(copy_str("档案名不能包含控制字符"));
        }
        i += 1;
    }
    proof {
        assert(v@.subrange(b as int, b as int) =~= Seq::<char>::empty());
    }
    let tv = crate::sessions::sub_vec(&v, a, b);
    let suffix = chars_of(".json");
    let end = if ends_with_chars(&tv, &suffix) {
        tv.len() - suffix.len()
    } else {
        tv.len()
    };
    proof {
        assert(tv@.subrange(0, end as int) =~= tv@.take(end as int));
        assert(tv@.take(tv@.len() as int) =~= tv@);
    }
    if end == 0 || tv[0] == '_' {
        return Err(copy_str("下划线开头的名字保留为库文件, 请换一个名字"));
    }
    Ok(string_of(&tv, 0, end))
}

/// `profiles/<stem>.json` (`Path::new("profiles").join(..)`: a file name
/// that is itself an absolute path replaces the directory).
pub open spec fn spec_profile_path(stem: Seq<char>) -> Seq<char> {
    let file = stem + ".json"@;
    if file.len() > 0 && file[0] == '/' {
        file
    } else {
        "profiles/"@ + file
    }
}

/// The path of the profile file with the given stem.
pub fn profile_path(stem: &str) -> (p: String)
    ensures
        p@ == spec_profile_path(stem@),
{
    let mut file = copy_str(stem);
    file.append(".json");
    let fv = chars_of(file.as_str());
    if fv.len() > 0 && fv[0] == '/' {
        return file;
    }
    let mut p = copy_str("profiles/");
    p.append(file.as_str());
    p
}

proof fn lemma_no_offending(t: Seq<char>, i: int)
    requires
        first_offending(t) is None,
        0 <= i < t.len(),
    ensures
        !bad_name_char(t[i]),
        !is_control(t[i]),
    decreases t.len(),
{
    if i > 0 {
        lemma_no_offending(t.drop_first(), i - 1);
    }
}

/// A name that passes the naming rules makes a plain `profiles/<name>.json`
/// path, whose file stem (see [`crate::session::BotSession::profile_from_path`])
/// is the name again.
pub proof fn law_valid_name_makes_a_plain_profile_file(raw: Seq<char>, stem: Seq<char>)
    requires
        spec_validate_name(raw) == Ok::<Seq<char>, Seq<char>>(stem),
    ensures
        spec_profile_path(stem) == "profiles/"@ + stem + ".json"@,
        crate::session::plain_profile_file(spec_profile_path(stem), stem),
{
    let t = trim(raw);
    assert(first_offending(t) is None);
    assert forall|i: int| 0 <= i < stem.len() implies #[trigger] stem[i] != '/' && stem[i] != '\\' && stem[i]
        != ':' by {
        lemma_no_offending(t, i);
        if has_suffix(t, ".json"@) {
            assert(stem[i] == t[i]);
        }
    }
    assert(!bad_name_char(stem[0])) by {
        lemma_no_offending(t, 0);
        if has_suffix(t, ".json"@) {
            assert(stem[0] == t[0]);
        }
    }
    assert((stem + ".json"@)[0] == stem[0]);
    assert(stem.len() > 0);
    assert(spec_profile_path(stem) =~= "profiles/"@ + stem + ".json"@);
}

// ------------------------------------------------------------ the picker

/// The legacy root configuration file, listed last and never deleted.
pub open spec fn legacy_config_path() -> Seq<char> {
    "config.json"@
}

/// One profile in the picker's list.
#[derive(Debug)]
pub struct ProfileEntry {
    /// Display name (the file stem; `config.json` for the legacy file).
    pub name: String,
    pub path: String,
    /// One line about the file's login section.
    pub summary: String,
}

impl View for ProfileEntry {
    type V = (Seq<char>, Seq<char>, Seq<char>);

    open spec fn view(&self) -> (Seq<char>, Seq<char>, Seq<char>) {
        (self.name@, self.path@, self.summary@)
    }
}

impl ProfileEntry {
    /// A copy of the entry.
    pub fn duplicate(&self) -> (e: ProfileEntry)
        ensures
            e@ == self@,
    {
        ProfileEntry {
            name: copy_str(self.name.as_str()),
            path: copy_str(self.path.as_str()),
            summary: copy_str(self.summary.as_str()),
        }
    }
}

/// Where a new profile file comes from.
#[derive(Debug)]
pub enum NewFile {
    /// The repository template (or a minimal skeleton).
    FromTemplate,
    /// A copy of this file.
    CopyOf(String),
    /// Nothing is written (a copy was asked for with no entry to copy).
    NoFile,
}

pub enum NewFileModel {
    FromTemplate,
    CopyOf(Seq<char>),
    NoFile,
}

impl View for NewFile {
    type V = NewFileModel;

    open spec fn view(&self) -> NewFileModel {
        match self {
            NewFile::FromTemplate => NewFileModel::FromTemplate,
            NewFile::CopyOf(p) => NewFileModel::CopyOf(p@),
            NewFile::NoFile => NewFileModel::NoFile,
        }
    }
}

/// What the picker asks for after a key.
#[derive(Debug)]
pub enum PickAction {
    /// Use this one profile.
    Select(String),
    /// Use all of these (marked) profiles; they start unstarted.
    SelectMany(Vec<String>),
    /// Leave the program.
    Cancel,
    /// Nothing to do; keep waiting for keys.
    Nothing,
    /// Delete the file of entry `index`, then report with
    /// [`PickerState::finish_delete`].
    Delete { index: usize, path: String },
    /// Write the new profile file, then report with
    /// [`PickerState::finish_create`].
    Create { stem: String, path: String, source: NewFile },
}

pub enum ActionModel {
    Select(Seq<char>),
    SelectMany(Seq<Seq<char>>),
    Cancel,
    Nothing,
    Delete(usize, Seq<char>),
    Create(Seq<char>, Seq<char>, NewFileModel),
}

impl View for PickAction {
    type V = ActionModel;

    open spec fn view(&self) -> ActionModel {
        match self {
            PickAction::Select(p) => ActionModel::Select(p@),
            PickAction::SelectMany(v) => ActionModel::SelectMany(v@.map_values(|s: String| s@)),
            PickAction::Cancel => ActionModel::Cancel,
            PickAction::Nothing => ActionModel::Nothing,
            PickAction::Delete { index, path } => ActionModel::Delete(*index, path@),
            PickAction::Create { stem, path, source } => ActionModel::Create(stem@, path@, source@),
        }
    }
}

/// How the picker ended.
#[derive(Debug)]
pub enum PickOutcome {
    /// One profile (`Enter` without marks).
    One(String),
    /// The marked profiles.
    Many(Vec<String>),
    Cancel,
}

/// The picker: the list, the cursor, the marks (ascending entry indices),
/// the name being typed for a new profile, and the status line.
#[derive(Debug)]
pub struct PickerState {
    pub entries: Vec<ProfileEntry>,
    pub cursor: usize,
    /// Marked entry indices, ascending and distinct.
    pub marked: Vec<usize>,
    /// `Some(text)` while a new profile's name is being typed.
    pub name_input: Option<String>,
    /// The name being typed is for a copy of the entry under the cursor.
    pub pending_copy: bool,
    /// `Some(i)`: `D` was pressed once on entry `i`.
    pub delete_arm: Option<usize>,
    /// Status line (empty: the key help is shown).
    pub status: String,
}

pub struct PickerModel {
    pub entries: Seq<(Seq<char>, Seq<char>, Seq<char>)>,
    pub cursor: usize,
    pub marked: Seq<usize>,
    pub name_input: Option<Seq<char>>,
    pub pending_copy: bool,
    pub delete_arm: Option<usize>,
    pub status: Seq<char>,
}

impl View for PickerState {
    type V = PickerModel;

    open spec fn view(&self) -> PickerModel {
        PickerModel {
            entries: self.entries@.map_values(|e: ProfileEntry| e@),
            cursor: self.cursor,
            marked: self.marked@,
            name_input: match self.name_input {
                Some(s) => Some(s@),
                None => None,
            },
            pending_copy: self.pending_copy,
            delete_arm: self.delete_arm,
            status: self.status@,
        }
    }
}

/// Ascending and distinct.
pub open spec fn marks_ok(ms: Seq<usize>) -> bool {
    forall|i: int, j: int| 0 <= i < j < ms.len() ==> ms[i] < ms[j]
}

/// The paths of the marked entries, in the marks' order (marks past the
/// end of the list are skipped).
pub open spec fn paths_of_marks(es: Seq<(Seq<char>, Seq<char>, Seq<char>)>, ms: Seq<usize>) -> Seq<
    Seq<char>,
>
    decreases ms.len(),
{
    if ms.len() == 0 {
        Seq::empty()
    } else {
        let prev = paths_of_marks(es, ms.drop_last());
        let i = ms.last();
        if i < es.len() {
            prev.push(es[i as int].1)
        } else {
            prev
        }
    }
}

/// `c` put into ascending marks.
pub open spec fn ins_mark(ms: Seq<usize>, c: usize) -> Seq<usize>
    decreases ms.len(),
{
    if ms.len() == 0 || ms.last() < c {
        ms.push(c)
    } else {
        ins_mark(ms.drop_last(), c).push(ms.last())
    }
}

/// The marks without `c`.
pub open spec fn without_mark(ms: Seq<usize>, c: usize) -> Seq<usize>
    decreases ms.len(),
{
    if ms.len() == 0 {
        ms
    } else {
        let p = without_mark(ms.drop_last(), c);
        if ms.last() == c {
            p
        } else {
            p.push(ms.last())
        }
    }
}

/// The marks after entry `idx` was removed: its mark goes, the later ones
/// move down by one.
pub open spec fn reindexed(ms: Seq<usize>, idx: usize) -> Seq<usize>
    decreases ms.len(),
{
    if ms.len() == 0 {
        ms
    } else {
        let p = reindexed(ms.drop_last(), idx);
        let i = ms.last();
        if i == idx {
            p
        } else if i > idx {
            p.push((i - 1) as usize)
        } else {
            p.push(i)
        }
    }
}

/// `0, 1, .., n - 1`.
pub open spec fn all_marks(n: nat) -> Seq<usize> {
    Seq::new(n, |i: int| i as usize)
}

/// The status line after the marks changed to `ms`.
pub open spec fn marks_status(ms: Seq<usize>) -> Seq<char> {
    if ms.len() == 0 {
        "已取消全部勾选 (Enter = 只用光标这一项)"@
    } else {
        "已勾选 "@ + decimal(ms.len()) + " 项 · Enter 一起进入 (它们会停在「未启动」)"@
    }
}

/// `Space`: the entry under the cursor is marked or unmarked.
pub open spec fn toggled(m: PickerModel) -> PickerModel {
    if m.entries.len() == 0 {
        m
    } else {
        let ms = if m.marked.contains(m.cursor) {
            without_mark(m.marked, m.cursor)
        } else {
            ins_mark(m.marked, m.cursor)
        };
        PickerModel { marked: ms, status: marks_status(ms), ..m }
    }
}

/// `A`: mark everything, or nothing when everything is marked.
pub open spec fn toggled_all(m: PickerModel) -> PickerModel {
    if m.marked.len() == m.entries.len() {
        PickerModel { marked: Seq::empty(), status: "已取消全部勾选"@, ..m }
    } else {
        PickerModel {
            marked: all_marks(m.entries.len()),
            status: "已勾选全部 "@ + decimal(m.entries.len()) + " 项"@,
            ..m
        }
    }
}

/// The name with every trailing `_copy` removed.
pub open spec fn copy_base(name: Seq<char>) -> Seq<char>
    decreases name.len(),
{
    if has_suffix(name, seq!['_', 'c', 'o', 'p', 'y']) {
        copy_base(name.take(name.len() - 5))
    } else {
        name
    }
}

/// `k` and `j` move like the arrow keys.
pub open spec fn nav_alias(code: KeyCode) -> KeyCode {
    match code {
        KeyCode::Char(c) => if c == 'k' {
            KeyCode::Up
        } else if c == 'j' {
            KeyCode::Down
        } else {
            code
        },
        _ => code,
    }
}

/// The list keys, outside the name prompt.
pub open spec fn list_key(m: PickerModel, key_code: KeyCode) -> (PickerModel, ActionModel) {
    let code = nav_alias(key_code);
    let n = m.entries.len();
    let m0 = PickerModel { delete_arm: None, ..m };
    match code {
        KeyCode::Esc => (m, ActionModel::Cancel),
        KeyCode::Up => (
            PickerModel {
                cursor: if n == 0 {
                    m.cursor
                } else {
                    ((m.cursor + n - 1) % (n as int)) as usize
                },
                status: Seq::empty(),
                ..m0
            },
            ActionModel::Nothing,
        ),
        KeyCode::Down => (
            PickerModel {
                cursor: if n == 0 {
                    m.cursor
                } else {
                    ((m.cursor + 1) % (n as int)) as usize
                },
                status: Seq::empty(),
                ..m0
            },
            ActionModel::Nothing,
        ),
        KeyCode::Enter => if m.cursor < n {
            if m.marked.len() > 0 {
                let ps = paths_of_marks(m.entries, m.marked);
                if ps.len() == 0 {
                    (
                        PickerModel { status: "勾选项已失效 (列表变了) — 请重新勾选"@, ..m0 },
                        ActionModel::Nothing,
                    )
                } else {
                    (m0, ActionModel::SelectMany(ps))
                }
            } else {
                (m0, ActionModel::Select(m.entries[m.cursor as int].1))
            }
        } else {
            (PickerModel { status: "目录为空: 按 N 新建档案, 或 Esc 退出"@, ..m0 }, ActionModel::Nothing)
        },
        KeyCode::Char(c) => if c == ' ' {
            (toggled(m0), ActionModel::Nothing)
        } else if c == 'a' || c == 'A' {
            (toggled_all(m0), ActionModel::Nothing)
        } else if c == 'n' || c == 'N' {
            (
                PickerModel {
                    name_input: Some(Seq::empty()),
                    pending_copy: false,
                    status: Seq::empty(),
                    ..m0
                },
                ActionModel::Nothing,
            )
        } else if c == 'c' || c == 'C' {
            if m.cursor < n {
                (
                    PickerModel {
                        name_input: Some(copy_base(m.entries[m.cursor as int].0) + "_copy"@),
                        pending_copy: true,
                        status: Seq::empty(),
                        ..m0
                    },
                    ActionModel::Nothing,
                )
            } else {
                (m0, ActionModel::Nothing)
            }
        } else if c == 'd' || c == 'D' {
            if m.cursor < n {
                let e = m.entries[m.cursor as int];
                if e.1 == legacy_config_path() {
                    (PickerModel { status: "旧的根 config.json 不可在此删除"@, ..m }, ActionModel::Nothing)
                } else if m.delete_arm == Some(m.cursor) {
                    (m, ActionModel::Delete(m.cursor, e.1))
                } else {
                    (
                        PickerModel {
                            delete_arm: Some(m.cursor),
                            status: "再按一次 D 确认删除 "@ + e.0,
                            ..m
                        },
                        ActionModel::Nothing,
                    )
                }
            } else {
                (m, ActionModel::Nothing)
            }
        } else {
            (m, ActionModel::Nothing)
        },
        _ => (m, ActionModel::Nothing),
    }
}

/// The keys of the name prompt.
pub open spec fn name_key(m: PickerModel, code: KeyCode) -> (PickerModel, ActionModel) {
    let buf = match m.name_input {
        Some(b) => b,
        None => Seq::empty(),
    };
    match code {
        KeyCode::Esc => (
            PickerModel { name_input: None, pending_copy: false, status: Seq::empty(), ..m },
            ActionModel::Nothing,
        ),
        KeyCode::Enter => {
            let m1 = PickerModel { name_input: None, pending_copy: false, ..m };
            match spec_validate_name(buf) {
                Ok(stem) => {
                    let src = if !m.pending_copy {
                        NewFileModel::FromTemplate
                    } else if m.cursor < m.entries.len() {
                        NewFileModel::CopyOf(m.entries[m.cursor as int].1)
                    } else {
                        NewFileModel::NoFile
                    };
                    (m1, ActionModel::Create(stem, spec_profile_path(stem), src))
                },
                Err(msg) => (PickerModel { status: msg, ..m1 }, ActionModel::Nothing),
            }
        },
        KeyCode::Backspace => (
            PickerModel {
                name_input: Some(
                    if buf.len() > 0 {
                        buf.drop_last()
                    } else {
                        buf
                    },
                ),
                ..m
            },
            ActionModel::Nothing,
        ),
        KeyCode::Char(c) => (
            PickerModel {
                name_input: Some(
                    if buf.len() < 60 {
                        buf.push(c)
                    } else {
                        buf
                    },
                ),
                ..m
            },
            ActionModel::Nothing,
        ),
        _ => (m, ActionModel::Nothing),
    }
}

/// Handling a key: a release does nothing, Ctrl+C leaves from anywhere,
/// the name prompt has its own keys, the list the others.
pub open spec fn spec_pick_key(m: PickerModel, key: KeyInput) -> (PickerModel, ActionModel) {
    if key.release {
        (m, ActionModel::Nothing)
    } else if key.ctrl && key.code == KeyCode::Char('c') {
        (m, ActionModel::Cancel)
    } else if m.name_input is Some {
        name_key(m, key.code)
    } else {
        list_key(m, key.code)
    }
}

// ------------------------------------------------------------ list helpers

/// `x` put into a list sorted by name, after the entries of equal name.
pub open spec fn insert_by_name(
    s: Seq<(Seq<char>, Seq<char>, Seq<char>)>,
    x: (Seq<char>, Seq<char>, Seq<char>),
) -> Seq<(Seq<char>, Seq<char>, Seq<char>)>
    decreases s.len(),
{
    if s.len() == 0 || !seq_less(x.0, s.last().0) {
        s.push(x)
    } else {
        insert_by_name(s.drop_last(), x).push(s.last())
    }
}

/// The list sorted by name, entries of equal name in their former order
/// (what a stable sort gives).
pub open spec fn sorted_by_name(s: Seq<(Seq<char>, Seq<char>, Seq<char>)>) -> Seq<
    (Seq<char>, Seq<char>, Seq<char>),
>
    decreases s.len(),
{
    if s.len() == 0 {
        s
    } else {
        insert_by_name(sorted_by_name(s.drop_last()), s.last())
    }
}

/// Where the first entry with path `p` is (`None` when there is none).
pub open spec fn path_pos(es: Seq<(Seq<char>, Seq<char>, Seq<char>)>, p: Seq<char>) -> Option<nat>
    decreases es.len(),
{
    if es.len() == 0 {
        None
    } else if es[0].1 == p {
        Some(0)
    } else {
        match path_pos(es.drop_first(), p) {
            Some(k) => Some(k + 1),
            None => None,
        }
    }
}

pub open spec fn entry_views(v: Seq<ProfileEntry>) -> Seq<(Seq<char>, Seq<char>, Seq<char>)> {
    v.map_values(|e: ProfileEntry| e@)
}

/// Puts `x` into `out` (sorted by name) after the entries of equal name.
fn insert_entry(out: &mut Vec<ProfileEntry>, x: ProfileEntry)
    ensures
        entry_views(final(out)@) == insert_by_name(entry_views(old(out)@), x@),
{
    let ghost s = entry_views(out@);
    let xn = chars_of(x.name.as_str());
    let mut j = out.len();
    proof {
        assert(s.take(j as int) =~= s);
        assert(s.skip(j as int) =~= Seq::<(Seq<char>, Seq<char>, Seq<char>)>::empty());
        assert(insert_by_name(s, x@) =~= insert_by_name(s.take(j as int), x@) + s.skip(j as int));
    }
    while j > 0
        invariant
            j <= out@.len(),
            s == entry_views(out@),
            xn@ == x.name@,
            insert_by_name(s, x@) == insert_by_name(s.take(j as int), x@) + s.skip(j as int),
            forall|k: int| j <= k < s.len() ==> seq_less(x@.0, #[trigger] s[k].0),
        ensures
            s == entry_views(out@),
            insert_by_name(s, x@) == insert_by_name(s.take(j as int), x@) + s.skip(j as int),
            j == 0 || !seq_less(x@.0, s[j - 1].0),
            j <= s.len(),
        decreases j,
    {
        let yn = chars_of(out[j - 1].name.as_str());
        if !crate::text::chars_less(&xn, &yn) {
            break;
        }
        proof {
            assert(s.take(j as int).drop_last() =~= s.take(j - 1));
            assert(s.take(j as int).last() == s[j - 1]);
            assert(insert_by_name(s.take(j as int), x@) == insert_by_name(s.take(j - 1), x@).push(
                s[j - 1],
            ));
            assert(insert_by_name(s.take(j - 1), x@).push(s[j - 1]) + s.skip(j as int)
                =~= insert_by_name(s.take(j - 1), x@) + s.skip(j - 1));
        }
        j -= 1;
    }
    proof {
        assert(insert_by_name(s.take(j as int), x@) == s.take(j as int).push(x@));
    }
    out.insert(j, x);
    proof {
        assert(entry_views(out@) =~= s.take(j as int).push(x@) + s.skip(j as int));
    }
}

/// The entries sorted by name (stable).
fn sort_entries(v: &Vec<ProfileEntry>) -> (r: Vec<ProfileEntry>)
    ensures
        entry_views(r@) == sorted_by_name(entry_views(v@)),
{
    let mut out: Vec<ProfileEntry> = Vec::new();
    let n = v.len();
    let ghost s = entry_views(v@);
    for i in 0..n
        invariant
            n == v@.len(),
            s == entry_views(v@),
            entry_views(out@) == sorted_by_name(s.take(i as int)),
    {
        proof {
            assert(s.take(i + 1).drop_last() =~= s.take(i as int));
            assert(s.take(i + 1).last() == s[i as int]);
        }
        insert_entry(&mut out, v[i].duplicate());
    }
    proof {
        assert(s.take(n as int) =~= s);
    }
    out
}

/// Where the first entry with path `p` is, 0 when there is none.
fn position_of_path(es: &Vec<ProfileEntry>, p: &str) -> (r: usize)
    ensures
        r == match path_pos(entry_views(es@), p@) {
            Some(k) => k,
            None => 0,
        },
{
    let n = es.len();
    let ghost s = entry_views(es@);
    proof {
        assert(s.skip(0) =~= s);
    }
    for i in 0..n
        invariant
            n == es@.len(),
            s == entry_views(es@),
            path_pos(s, p@) == match path_pos(s.skip(i as int), p@) {
                Some(k) => Some((k + i) as nat),
                None => None,
            },
    {
        proof {
            assert(s.skip(i as int)[0] == s[i as int]);
            assert(s.skip(i as int).drop_first() =~= s.skip(i + 1));
        }
        if crate::text::str_eq(es[i].path.as_str(), p) {
            return i;
        }
    }
    proof {
        assert(s.skip(n as int) =~= Seq::<(Seq<char>, Seq<char>, Seq<char>)>::empty());
    }
    0
}

/// Whether `c` is among the marks.
fn has_mark(ms: &Vec<usize>, c: usize) -> (r: bool)
    ensures
        r == ms@.contains(c),
{
    let n = ms.len();
    for i in 0..n
        invariant
            n == ms@.len(),
            forall|k: int| 0 <= k < i ==> ms@[k] != c,
    {
        if ms[i] == c {
            proof {
                assert(ms@[i as int] == c);
            }
            return true;
        }
    }
    false
}

/// The marks without `c`.
fn marks_without(ms: &Vec<usize>, c: usize) -> (r: Vec<usize>)
    ensures
        r@ == without_mark(ms@, c),
{
    let mut out: Vec<usize> = Vec::new();
    let n = ms.len();
    for i in 0..n
        invariant
            n == ms@.len(),
            out@ == without_mark(ms@.take(i as int), c),
    {
        proof {
            assert(ms@.take(i + 1).drop_last() =~= ms@.take(i as int));
        }
        if ms[i] != c {
            out.push(ms[i]);
        }
    }
    proof {
        assert(ms@.take(n as int) =~= ms@);
    }
    out
}

/// `c` put into the marks.
fn marks_with(ms: &Vec<usize>, c: usize) -> (r: Vec<usize>)
    ensures
        r@ == ins_mark(ms@, c),
{
    let ghost s = ms@;
    let mut j = ms.len();
    proof {
        assert(s.take(j as int) =~= s);
        assert(ins_mark(s, c) =~= ins_mark(s.take(j as int), c) + s.skip(j as int));
    }
    while j > 0
        invariant
            j <= s.len(),
            s == ms@,
            ins_mark(s, c) == ins_mark(s.take(j as int), c) + s.skip(j as int),
        ensures
            ins_mark(s, c) == ins_mark(s.take(j as int), c) + s.skip(j as int),
            j == 0 || s[j - 1] < c,
            j <= s.len(),
        decreases j,
    {
        if ms[j - 1] < c {
            break;
        }
        proof {
            assert(s.take(j as int).drop_last() =~= s.take(j - 1));
            assert(ins_mark(s.take(j as int), c) == ins_mark(s.take(j - 1), c).push(s[j - 1]));
            assert(ins_mark(s.take(j - 1), c).push(s[j - 1]) + s.skip(j as int) =~= ins_mark(
                s.take(j - 1),
                c,
            ) + s.skip(j - 1));
        }
        j -= 1;
    }
    let mut out: Vec<usize> = Vec::new();
    for k in 0..j
        invariant
            j <= s.len(),
            s == ms@,
            out@ == s.take(k as int),
    {
        out.push(ms[k]);
        proof {
            assert(s.take(k + 1) =~= s.take(k as int).push(s[k as int]));
        }
    }
    out.push(c);
    let n = ms.len();
    for k in j..n
        invariant
            n == s.len(),
            j <= k <= n,
            s == ms@,
            out@ == s.take(j as int).push(c) + s.subrange(j as int, k as int),
    {
        out.push(ms[k]);
        proof {
            assert(s.subrange(j as int, k + 1) =~= s.subrange(j as int, k as int).push(s[k as int]));
            assert(out@ =~= s.take(j as int).push(c) + s.subrange(j as int, k + 1));
        }
    }
    proof {
        assert(s.subrange(j as int, n as int) =~= s.skip(j as int));
        assert(ins_mark(s.take(j as int), c) == s.take(j as int).push(c));
    }
    out
}

/// The marks after entry `idx` was removed.
fn marks_reindexed(ms: &Vec<usize>, idx: usize) -> (r: Vec<usize>)
    ensures
        r@ == reindexed(ms@, idx),
{
    let mut out: Vec<usize> = Vec::new();
    let n = ms.len();
    for i in 0..n
        invariant
            n == ms@.len(),
            out@ == reindexed(ms@.take(i as int), idx),
    {
        proof {
            assert(ms@.take(i + 1).drop_last() =~= ms@.take(i as int));
        }
        let m = ms[i];
        if m == idx {
        } else if m > idx {
            out.push(m - 1);
        } else {
            out.push(m);
        }
    }
    proof {
        assert(ms@.take(n as int) =~= ms@);
    }
    out
}

/// The status line for `n` marks.
fn marks_status_text(ms: &Vec<usize>) -> (s: String)
    ensures
        s@ == marks_status(ms@),
{
    if ms.len() == 0 {
        copy_str("已取消全部勾选 (Enter = 只用光标这一项)")
    } else {
        let mut s = copy_str("已勾选 ");
        let d = decimal_string(ms.len() as u64);
        s.append(d.as_str());
        s.append(" 项 · Enter 一起进入 (它们会停在「未启动」)");
        s
    }
}

/// The name with every trailing `_copy` removed.
fn strip_copies(name: &str) -> (r: String)
    ensures
        r@ == copy_base(name@),
{
    let v = chars_of(name);
    let suffix: Vec<char> = vec!['_', 'c', 'o', 'p', 'y'];
    let mut end = v.len();
    proof {
        assert(v@.take(end as int) =~= v@);
    }
    while end >= 5
        invariant
            end <= v@.len(),
            suffix@ == seq!['_', 'c', 'o', 'p', 'y'],
            copy_base(name@) == copy_base(v@.take(end as int)),
            v@ == name@,
        ensures
            copy_base(name@) == copy_base(v@.take(end as int)),
            !has_suffix(v@.take(end as int), suffix@),
        decreases end,
    {
        let t = crate::sessions::sub_vec(&v, 0, end);
        proof {
            assert(t@ =~= v@.take(end as int));
        }
        if !ends_with_chars(&t, &suffix) {
            break;
        }
        proof {
            assert(v@.take(end as int).take(end - 5) =~= v@.take(end - 5));
        }
        end -= 5;
    }
    proof {
        if end < 5 {
            assert(!has_suffix(v@.take(end as int), suffix@));
        }
        assert(copy_base(v@.take(end as int)) == v@.take(end as int));
        assert(v@.subrange(0, end as int) =~= v@.take(end as int));
    }
    string_of(&v, 0, end)
}

// ------------------------------------------------------------ picker state

/// After the file of entry `idx` was deleted (`Ok`) or could not be
/// (`Err(reason)`): the entry leaves the list, the marks follow, the cursor
/// stays in range; the delete confirmation is disarmed either way.
pub open spec fn spec_finish_delete(m: PickerModel, idx: usize, result: Result<(), Seq<char>>) -> PickerModel {
    match result {
        Ok(_) => {
            let es = m.entries.remove(idx as int);
            PickerModel {
                status: "已删除 "@ + m.entries[idx as int].0,
                entries: es,
                marked: reindexed(m.marked, idx),
                cursor: if m.cursor >= es.len() {
                    if es.len() == 0 {
                        0
                    } else {
                        (es.len() - 1) as usize
                    }
                } else {
                    m.cursor
                },
                delete_arm: None,
                ..m
            }
        },
        Err(e) => PickerModel { status: "删除失败: "@ + e, delete_arm: None, ..m },
    }
}

/// After the new profile file was written (`Ok`) or could not be: on
/// success the entry joins the list, the list is sorted by name, the marks
/// are cleared (their indices no longer fit) and the cursor goes to the
/// new entry, which is selected.
pub open spec fn spec_finish_create(
    m: PickerModel,
    stem: Seq<char>,
    path: Seq<char>,
    source: NewFileModel,
    result: Result<(), Seq<char>>,
    summary: Seq<char>,
) -> (PickerModel, ActionModel) {
    match result {
        Err(e) => (
            PickerModel {
                status: (if source is CopyOf {
                    "复制失败: "@
                } else {
                    "新建失败: "@
                }) + e,
                ..m
            },
            ActionModel::Nothing,
        ),
        Ok(_) => {
            let es = sorted_by_name(m.entries.push((stem, path, summary)));
            (
                PickerModel {
                    entries: es,
                    marked: Seq::empty(),
                    cursor: match path_pos(es, path) {
                        Some(k) => k as usize,
                        None => 0,
                    },
                    status: Seq::empty(),
                    ..m
                },
                ActionModel::Select(path),
            )
        },
    }
}

/// The bottom line: the status if any, else the help for the current mode.
pub open spec fn spec_hint(m: PickerModel) -> Seq<char> {
    if m.status.len() > 0 {
        " "@ + m.status + " "@
    } else if m.name_input is Some {
        " 输入档案名 · Enter 确认 · Esc 取消 "@
    } else if m.entries.len() == 0 {
        " 目录为空 — N 新建档案 · Esc 退出"@
    } else {
        " Space 勾选(可多选) · A 全选 · Enter 进入 · ↑↓ 移动 · N 新建 · C 复制 · D 删除 · Esc 退出"@
    }
}

pub open spec fn unit_result_view(r: Result<(), String>) -> Result<(), Seq<char>> {
    match r {
        Ok(_) => Ok(()),
        Err(e) => Err(e@),
    }
}

impl PickerState {
    /// A picker over the given list: cursor on the first entry, nothing
    /// marked.
    pub fn new(entries: Vec<ProfileEntry>) -> (st: PickerState)
        ensures
            st@ == (PickerModel {
                entries: entry_views(entries@),
                cursor: 0,
                marked: Seq::empty(),
                name_input: None,
                pending_copy: false,
                delete_arm: None,
                status: Seq::empty(),
            }),
    {
        let st = PickerState {
            entries,
            cursor: 0,
            marked: Vec::new(),
            name_input: None,
            pending_copy: false,
            delete_arm: None,
            status: String::new(),
        };
        proof {
            assert(st@.entries =~= entry_views(entries@));
        }
        st
    }

    /// The paths of the marked entries, in list order.
    pub fn marked_paths(&self) -> (r: Vec<String>)
        ensures
            r@.map_values(|x: String| x@) == paths_of_marks(self@.entries, self@.marked),
    {
        let mut out: Vec<String> = Vec::new();
        let n = self.marked.len();
        let ghost es = self@.entries;
        for k in 0..n
            invariant
                n == self.marked@.len(),
                es == self@.entries,
                out@.map_values(|x: String| x@) == paths_of_marks(es, self.marked@.take(k as int)),
        {
            let i = self.marked[k];
            let ghost before = out@.map_values(|x: String| x@);
            proof {
                assert(self.marked@.take(k + 1).drop_last() =~= self.marked@.take(k as int));
                assert(self.marked@.take(k + 1).last() == i);
            }
            if i < self.entries.len() {
                out.push(copy_str(self.entries[i].path.as_str()));
                proof {
                    assert(es[i as int] == self.entries@[i as int]@);
                    assert(out@.map_values(|x: String| x@) =~= before.push(es[i as int].1));
                }
            }
        }
        proof {
            assert(self.marked@.take(n as int) =~= self.marked@);
        }
        out
    }

    /// `Space`: marks or unmarks the entry under the cursor.
    fn toggle_mark(&mut self)
        ensures
            final(self)@ == toggled(old(self)@),
    {
        if self.entries.len() == 0 {
            return;
        }
        let ms = if has_mark(&self.marked, self.cursor) {
            marks_without(&self.marked, self.cursor)
        } else {
            marks_with(&self.marked, self.cursor)
        };
        self.status = marks_status_text(&ms);
        self.marked = ms;
    }

    /// `A`: marks everything, or nothing when everything is marked.
    fn toggle_mark_all(&mut self)
        ensures
            final(self)@ == toggled_all(old(self)@),
    {
        let n = self.entries.len();
        if self.marked.len() == n {
            self.marked = Vec::new();
            self.status = copy_str("已取消全部勾选");
            proof {
                assert(self@.marked =~= Seq::<usize>::empty());
            }
        } else {
            let mut ms: Vec<usize> = Vec::new();
            for i in 0..n
                invariant
                    ms@ == all_marks(i as nat),
            {
                ms.push(i);
                proof {
                    assert(ms@ =~= all_marks((i + 1) as nat));
                }
            }
            self.marked = ms;
            let mut st = copy_str("已勾选全部 ");
            let d = decimal_string(n as u64);
            st.append(d.as_str());
            st.append(" 项");
            self.status = st;
        }
    }

    /// The bottom line: the status if any, else the help for the mode.
    pub fn hint(&self) -> (s: String)
        ensures
            s@ == spec_hint(self@),
    {
        if !self.status.as_str().is_empty() {
            let mut s = copy_str(" ");
            s.append(self.status.as_str());
            s.append(" ");
            return s;
        }
        if self.name_input.is_some() {
            return copy_str(" 输入档案名 · Enter 确认 · Esc 取消 ");
        }
        if self.entries.len() == 0 {
            copy_str(" 目录为空 — N 新建档案 · Esc 退出")
        } else {
            copy_str(
                " Space 勾选(可多选) · A 全选 · Enter 进入 · ↑↓ 移动 · N 新建 · C 复制 · D 删除 · Esc 退出",
            )
        }
    }

    /// Reports the deletion asked for by [`PickAction::Delete`].
    pub fn finish_delete(&mut self, index: usize, result: Result<(), String>)
        requires
            index < old(self).entries@.len(),
        ensures
            final(self)@ == spec_finish_delete(old(self)@, index, unit_result_view(result)),
    {
        match result {
            Ok(()) => {
                let ghost es0 = self@.entries;
                let mut st = copy_str("已删除 ");
                st.append(self.entries[index].name.as_str());
                self.status = st;
                let _gone = self.entries.remove(index);
                self.marked = marks_reindexed(&self.marked, index);
                let n = self.entries.len();
                if self.cursor >= n {
                    self.cursor = if n == 0 {
                        0
                    } else {
                        n - 1
                    };
                }
                proof {
                    assert(self@.entries =~= es0.remove(index as int));
                }
            },
            Err(e) => {
                let mut st = copy_str("删除失败: ");
                st.append(e.as_str());
                self.status = st;
            },
        }
        self.delete_arm = None;
    }

    /// Reports the file creation asked for by [`PickAction::Create`]; on
    /// success the new entry is selected.
    pub fn finish_create(
        &mut self,
        stem: &str,
        path: &str,
        source: &NewFile,
        result: Result<(), String>,
        summary: &str,
    ) -> (r: PickAction)
        ensures
            (final(self)@, r@) == spec_finish_create(
                old(self)@,
                stem@,
                path@,
                source@,
                unit_result_view(result),
                summary@,
            ),
    {
        match result {
            Err(e) => {
                let mut st = match source {
                    NewFile::CopyOf(_) => copy_str("复制失败: "),
                    _ => copy_str("新建失败: "),
                };
                st.append(e.as_str());
                self.status = st;
                PickAction::Nothing
            },
            Ok(()) => {
                let mut list: Vec<ProfileEntry> = Vec::new();
                let n = self.entries.len();
                for i in 0..n
                    invariant
                        n == self.entries@.len(),
                        entry_views(list@) == entry_views(self.entries@.take(i as int)),
                {
                    let ghost before = entry_views(list@);
                    let d = self.entries[i].duplicate();
                    list.push(d);
                    proof {
                        assert(entry_views(list@) =~= before.push(d@));
                        assert(entry_views(self.entries@.take(i + 1)) =~= entry_views(
                            self.entries@.take(i as int),
                        ).push(self.entries@[i as int]@));
                    }
                }
                list.push(
                    ProfileEntry {
                        summary: copy_str(summary),
                        name: copy_str(stem),
                        path: copy_str(path),
                    },
                );
                proof {
                    assert(self.entries@.take(n as int) =~= self.entries@);
                    assert(entry_views(list@) =~= self@.entries.push((stem@, path@, summary@)));
                }
                let sorted = sort_entries(&list);
                self.entries = sorted;
                self.marked = Vec::new();
                self.cursor = position_of_path(&self.entries, path);
                self.status = String::new();
                proof {
                    assert(self@.marked =~= Seq::<usize>::empty());
                }
                PickAction::Select(copy_str(path))
            },
        }
    }
}

impl PickerState {
    /// A key in the name prompt.
    fn on_name_input_key(&mut self, code: KeyCode) -> (r: PickAction)
        requires
            old(self).name_input is Some,
        ensures
            (final(self)@, r@) == name_key(old(self)@, code),
    {
        let mut buf: Option<String> = None;
        std::mem::swap(&mut buf, &mut self.name_input);
        let mut text = match buf {
            Some(t) => t,
            None => String::new(),
        };
        match code {
            KeyCode::Esc => {
                self.pending_copy = false;
                self.status = String::new();
                PickAction::Nothing
            },
            KeyCode::Enter => {
                let is_copy = self.pending_copy;
                self.pending_copy = false;
                match validate_profile_name(text.as_str()) {
                    Ok(stem) => {
                        let path = profile_path(stem.as_str());
                        let source = if !is_copy {
                            NewFile::FromTemplate
                        } else if self.cursor < self.entries.len() {
                            NewFile::CopyOf(copy_str(self.entries[self.cursor].path.as_str()))
                        } else {
                            NewFile::NoFile
                        };
                        PickAction::Create { stem, path, source }
                    },
                    Err(msg) => {
                        self.status = msg;
                        PickAction::Nothing
                    },
                }
            },
            KeyCode::Backspace => {
                let _ = crate::text::pop_char(&mut text);
                self.name_input = Some(text);
                PickAction::Nothing
            },
            KeyCode::Char(c) => {
                let count = chars_of(text.as_str()).len();
                if count < MAX_NAME_CHARS {
                    push_char(&mut text, c);
                }
                self.name_input = Some(text);
                PickAction::Nothing
            },
            _ => {
                self.name_input = Some(text);
                PickAction::Nothing
            },
        }
    }

    /// Handles a key (see [`spec_pick_key`]): moves, marks, confirms, or
    /// asks the front end to delete or create a file.
    pub fn on_key(&mut self, key: KeyInput) -> (r: PickAction)
        ensures
            (final(self)@, r@) == spec_pick_key(old(self)@, key),
    {
        if key.release {
            return PickAction::Nothing;
        }
        if key.ctrl && key.code == KeyCode::Char('c') {
            return PickAction::Cancel;
        }
        if self.name_input.is_some() {
            return self.on_name_input_key(key.code);
        }
        let code = match key.code {
            KeyCode::Char(c) => if c == 'k' {
                KeyCode::Up
            } else if c == 'j' {
                KeyCode::Down
            } else {
                key.code
            },
            _ => key.code,
        };
        let n = self.entries.len();
        match code {
            KeyCode::Esc => PickAction::Cancel,
            KeyCode::Up => {
                self.delete_arm = None;
                if n > 0 {
                    let v: u128 = (self.cursor as u128 + n as u128 - 1) % (n as u128);
                    self.cursor = v as usize;
                }
                self.status = String::new();
                PickAction::Nothing
            },
            KeyCode::Down => {
                self.delete_arm = None;
                if n > 0 {
                    let v: u128 = (self.cursor as u128 + 1) % (n as u128);
                    self.cursor = v as usize;
                }
                self.status = String::new();
                PickAction::Nothing
            },
            KeyCode::Enter => {
                self.delete_arm = None;
                if self.cursor < n {
                    if self.marked.len() > 0 {
                        let paths = self.marked_paths();
                        if paths.len() == 0 {
                            self.status = copy_str("勾选项已失效 (列表变了) — 请重新勾选");
                            return PickAction::Nothing;
                        }
                        return PickAction::SelectMany(paths);
                    }
                    PickAction::Select(copy_str(self.entries[self.cursor].path.as_str()))
                } else {
                    self.status = copy_str("目录为空: 按 N 新建档案, 或 Esc 退出");
                    PickAction::Nothing
                }
            },
            KeyCode::Char(c) => {
                if c == ' ' {
                    self.delete_arm = None;
                    self.toggle_mark();
                    PickAction::Nothing
                } else if c == 'a' || c == 'A' {
                    self.delete_arm = None;
                    self.toggle_mark_all();
                    PickAction::Nothing
                } else if c == 'n' || c == 'N' {
                    self.delete_arm = None;
                    self.name_input = Some(String::new());
                    self.pending_copy = false;
                    self.status = String::new();
                    PickAction::Nothing
                } else if c == 'c' || c == 'C' {
                    self.delete_arm = None;
                    if self.cursor < n {
                        let mut base = strip_copies(self.entries[self.cursor].name.as_str());
                        base.append("_copy");
                        self.name_input = Some(base);
                        self.pending_copy = true;
                        self.status = String::new();
                    }
                    PickAction::Nothing
                } else if c == 'd' || c == 'D' {
                    if self.cursor < n {
                        let idx = self.cursor;
                        if crate::text::str_eq(self.entries[idx].path.as_str(), "config.json") {
                            self.status = copy_str("旧的根 config.json 不可在此删除");
                            return PickAction::Nothing;
                        }
                        let armed = match self.delete_arm {
                            Some(a) => a == idx,
                            None => false,
                        };
                        if armed {
                            return PickAction::Delete {
                                index: idx,
                                path: copy_str(self.entries[idx].path.as_str()),
                            };
                        }
                        self.delete_arm = Some(idx);
                        let mut st = copy_str("再按一次 D 确认删除 ");
                        st.append(self.entries[idx].name.as_str());
                        self.status = st;
                    }
                    PickAction::Nothing
                } else {
                    PickAction::Nothing
                }
            },
            _ => PickAction::Nothing,
        }
    }
}

// ------------------------------------------------------------ laws

pub proof fn lemma_ins_mark_contents(ms: Seq<usize>, c: usize)
    requires
        marks_ok(ms),
        !ms.contains(c),
    ensures
        marks_ok(ins_mark(ms, c)),
        ins_mark(ms, c).len() == ms.len() + 1,
        forall|x: usize| ins_mark(ms, c).contains(x) <==> (ms.contains(x) || x == c),
        without_mark(ins_mark(ms, c), c) == ms,
    decreases ms.len(),
{
    if ms.len() == 0 || ms.last() < c {
        assert(ms.push(c).drop_last() =~= ms);
        lemma_without_absent(ms, c);
        assert forall|x: usize| ms.push(c).contains(x) <==> (ms.contains(x) || x == c) by {
            if ms.push(c).contains(x) {
                let k = choose|k: int| 0 <= k < ms.push(c).len() && ms.push(c)[k] == x;
                if k < ms.len() {
                    assert(ms.contains(x));
                }
            }
            if ms.contains(x) {
                let k = choose|k: int| 0 <= k < ms.len() && ms[k] == x;
                assert(ms.push(c)[k] == x);
            }
            if x == c {
                assert(ms.push(c)[ms.len() as int] == x);
            }
        }
    } else {
        let p = ms.drop_last();
        let l = ms.last();
        assert(marks_ok(p));
        assert(!p.contains(c)) by {
            if p.contains(c) {
                let k = choose|k: int| 0 <= k < p.len() && p[k] == c;
                assert(ms[k] == c);
            }
        }
        lemma_ins_mark_contents(p, c);
        let q = ins_mark(p, c);
        assert(ms =~= p.push(l));
        assert forall|x: usize| q.push(l).contains(x) <==> (ms.contains(x) || x == c) by {
            if q.push(l).contains(x) {
                let k = choose|k: int| 0 <= k < q.push(l).len() && q.push(l)[k] == x;
                if k < q.len() {
                    assert(q.push(l)[k] == q[k]);
                    assert(q[k] == x);
                    assert(q.contains(x));
                    if p.contains(x) {
                        let j = choose|j: int| 0 <= j < p.len() && p[j] == x;
                        assert(ms[j] == p[j]);
                        assert(ms.contains(x));
                    }
                } else {
                    assert(ms[ms.len() - 1] == x);
                    assert(ms.contains(x));
                }
            }
            if ms.contains(x) {
                let k = choose|k: int| 0 <= k < ms.len() && ms[k] == x;
                if k < p.len() {
                    assert(p[k] == x);
                    assert(p.contains(x));
                    assert(q.contains(x));
                    let j = choose|j: int| 0 <= j < q.len() && q[j] == x;
                    assert(q.push(l)[j] == x);
                } else {
                    assert(q.push(l)[q.len() as int] == x);
                }
            }
            if x == c {
                assert(q.contains(c));
                let j = choose|j: int| 0 <= j < q.len() && q[j] == c;
                assert(q.push(l)[j] == x);
            }
        }
        assert forall|i: int, j: int| 0 <= i < j < q.push(l).len() implies q.push(l)[i] < q.push(
            l,
        )[j] by {
            if j == q.len() {
                assert(q.contains(q[i]));
                if p.contains(q[i]) {
                    let k = choose|k: int| 0 <= k < p.len() && p[k] == q[i];
                    assert(ms[k] == p[k]);
                    assert(ms[k] < ms[ms.len() - 1]);
                }
            }
        }
        assert(q.push(l).drop_last() =~= q);
        assert(l != c);
    }
}

pub proof fn lemma_without_absent(ms: Seq<usize>, c: usize)
    requires
        !ms.contains(c),
    ensures
        without_mark(ms, c) == ms,
    decreases ms.len(),
{
    if ms.len() > 0 {
        assert(!ms.drop_last().contains(c)) by {
            if ms.drop_last().contains(c) {
                let k = choose|k: int| 0 <= k < ms.drop_last().len() && ms.drop_last()[k] == c;
                assert(ms[k] == c);
            }
        }
        lemma_without_absent(ms.drop_last(), c);
        assert(ms.last() != c) by {
            assert(ms[ms.len() - 1] == ms.last());
        }
        assert(ms.drop_last().push(ms.last()) =~= ms);
    }
}

pub proof fn lemma_without_contents(ms: Seq<usize>, c: usize)
    requires
        marks_ok(ms),
    ensures
        marks_ok(without_mark(ms, c)),
        forall|x: usize| without_mark(ms, c).contains(x) <==> (ms.contains(x) && x != c),
    decreases ms.len(),
{
    if ms.len() > 0 {
        let p = ms.drop_last();
        let l = ms.last();
        assert(marks_ok(p));
        lemma_without_contents(p, c);
        let q = without_mark(p, c);
        assert(ms =~= p.push(l));
        if l != c {
            assert forall|x: usize| q.push(l).contains(x) <==> (ms.contains(x) && x != c) by {
                if q.push(l).contains(x) {
                    let k = choose|k: int| 0 <= k < q.push(l).len() && q.push(l)[k] == x;
                    if k < q.len() {
                        assert(q.push(l)[k] == q[k]);
                        assert(q[k] == x);
                        assert(q.contains(x));
                        assert(p.contains(x));
                        let j = choose|j: int| 0 <= j < p.len() && p[j] == x;
                        assert(ms[j] == p[j]);
                        assert(ms.contains(x));
                    } else {
                        assert(ms[ms.len() - 1] == x);
                        assert(ms.contains(x));
                    }
                }
                if ms.contains(x) && x != c {
                    let k = choose|k: int| 0 <= k < ms.len() && ms[k] == x;
                    if k < p.len() {
                        assert(p[k] == x);
                        assert(p.contains(x));
                        assert(q.contains(x));
                        let j = choose|j: int| 0 <= j < q.len() && q[j] == x;
                        assert(q.push(l)[j] == x);
                    } else {
                        assert(q.push(l)[q.len() as int] == x);
                    }
                }
            }
            assert forall|i: int, j: int| 0 <= i < j < q.push(l).len() implies q.push(l)[i]
                < q.push(l)[j] by {
                if j == q.len() {
                    assert(q.contains(q[i]));
                    assert(p.contains(q[i]));
                    let k = choose|k: int| 0 <= k < p.len() && p[k] == q[i];
                    assert(ms[k] == p[k]);
                    assert(ms[k] < ms[ms.len() - 1]);
                }
            }
        } else {
            assert forall|x: usize| q.contains(x) <==> (ms.contains(x) && x != c) by {
                if ms.contains(x) && x != c {
                    let k = choose|k: int| 0 <= k < ms.len() && ms[k] == x;
                    if k < p.len() {
                        assert(p[k] == x);
                        assert(p.contains(x));
                        assert(q.contains(x));
                    } else {
                        assert(ms[ms.len() - 1] == x);
                        assert(x == c);
                    }
                }
                if q.contains(x) {
                    assert(p.contains(x));
                    let j = choose|j: int| 0 <= j < p.len() && p[j] == x;
                    assert(ms[j] == p[j]);
                    assert(ms.contains(x));
                }
            }
        }
    }
}

/// Two ascending mark lists with the same members are equal.
pub proof fn lemma_marks_ext(a: Seq<usize>, b: Seq<usize>)
    requires
        marks_ok(a),
        marks_ok(b),
        forall|x: usize| a.contains(x) <==> b.contains(x),
    ensures
        a == b,
    decreases a.len() + b.len(),
{
    if a.len() == 0 {
        if b.len() > 0 {
            assert(b.contains(b[0]));
        }
        assert(a =~= b);
    } else if b.len() == 0 {
        assert(a.contains(a[0]));
    } else {
        let la = a.last();
        let lb = b.last();
        assert(a.contains(la));
        assert(b.contains(lb));
        let ka = choose|k: int| 0 <= k < a.len() && a[k] == lb;
        let kb = choose|k: int| 0 <= k < b.len() && b[k] == la;
        assert(la == lb) by {
            if la < lb {
                assert(a[ka] <= a[a.len() - 1]);
            } else if lb < la {
                assert(b[kb] <= b[b.len() - 1]);
            }
        }
        let pa = a.drop_last();
        let pb = b.drop_last();
        assert(marks_ok(pa));
        assert(marks_ok(pb));
        assert forall|x: usize| pa.contains(x) <==> pb.contains(x) by {
            if pa.contains(x) {
                let k = choose|k: int| 0 <= k < pa.len() && pa[k] == x;
                assert(a[k] == x && a[k] < la);
                assert(b.contains(x));
                let j = choose|j: int| 0 <= j < b.len() && b[j] == x;
                if j == b.len() - 1 {
                    assert(x == lb);
                }
                assert(pb[j] == x);
            }
            if pb.contains(x) {
                let k = choose|k: int| 0 <= k < pb.len() && pb[k] == x;
                assert(b[k] == x && b[k] < lb);
                assert(a.contains(x));
                let j = choose|j: int| 0 <= j < a.len() && a[j] == x;
                if j == a.len() - 1 {
                    assert(x == la);
                }
                assert(pa[j] == x);
            }
        }
        lemma_marks_ext(pa, pb);
        assert(a =~= pa.push(la));
        assert(b =~= pb.push(lb));
    }
}

/// Marking an entry and marking it again leaves the marks as they were,
/// and the marks stay ascending: `Space` twice is no change.
pub proof fn law_mark_toggle_twice(m: PickerModel)
    requires
        marks_ok(m.marked),
    ensures
        marks_ok(toggled(m).marked),
        toggled(toggled(m)).marked == m.marked,
{
    if m.entries.len() > 0 {
        let c = m.cursor;
        if m.marked.contains(c) {
            lemma_without_contents(m.marked, c);
            let w = without_mark(m.marked, c);
            assert(!w.contains(c));
            lemma_ins_mark_contents(w, c);
            lemma_marks_ext(ins_mark(w, c), m.marked);
        } else {
            lemma_ins_mark_contents(m.marked, c);
        }
    }
}

/// Moving the cursor (arrows, `j`, `k`) never changes the marks.
pub proof fn law_navigation_keeps_marks(m: PickerModel, key: KeyInput)
    requires
        nav_alias(key.code) is Up || nav_alias(key.code) is Down,
    ensures
        spec_pick_key(m, key).0.marked == m.marked,
{
}

/// Deleting an entry keeps every other marked entry marked: the marked
/// paths are those of before, without the deleted entry's mark.
pub proof fn law_delete_keeps_other_marks(m: PickerModel, idx: usize, ms: Seq<usize>)
    requires
        idx < m.entries.len(),
        ms == m.marked,
    ensures
        paths_of_marks(m.entries.remove(idx as int), reindexed(ms, idx)) == paths_of_marks(
            m.entries,
            without_mark(ms, idx),
        ),
    decreases ms.len(),
{
    if ms.len() > 0 {
        law_delete_keeps_other_marks(PickerModel { marked: ms.drop_last(), ..m }, idx, ms.drop_last());
        let i = ms.last();
        let es2 = m.entries.remove(idx as int);
        if i != idx {
            let r = reindexed(ms.drop_last(), idx);
            let w = without_mark(ms.drop_last(), idx);
            let j: usize = if i > idx {
                (i - 1) as usize
            } else {
                i
            };
            assert(reindexed(ms, idx) == r.push(j));
            assert(without_mark(ms, idx) == w.push(i));
            assert(r.push(j).drop_last() =~= r);
            assert(w.push(i).drop_last() =~= w);
            if i < m.entries.len() {
                assert(j < es2.len());
                assert(es2[j as int] == m.entries[i as int]);
            }
        }
    }
}

/// Where mark `x` goes when entry `idx` is removed (for `x != idx`).
pub open spec fn moved_mark(x: usize, idx: usize) -> usize {
    if x > idx {
        (x - 1) as usize
    } else {
        x
    }
}

pub proof fn lemma_reindexed_ok(ms: Seq<usize>, idx: usize)
    requires
        marks_ok(ms),
    ensures
        marks_ok(reindexed(ms, idx)),
        forall|k: int|
            0 <= k < reindexed(ms, idx).len() ==> exists|j: int|
                0 <= j < ms.len() && ms[j] != idx && #[trigger] reindexed(ms, idx)[k] == moved_mark(
                    ms[j],
                    idx,
                ),
    decreases ms.len(),
{
    if ms.len() > 0 {
        let p = ms.drop_last();
        let l = ms.last();
        assert(marks_ok(p));
        lemma_reindexed_ok(p, idx);
        let r = reindexed(p, idx);
        if l != idx {
            let y = moved_mark(l, idx);
            assert(reindexed(ms, idx) == r.push(y));
            assert forall|a: int, b: int| 0 <= a < b < r.push(y).len() implies r.push(y)[a] < r.push(
                y,
            )[b] by {
                if b == r.len() {
                    let j = choose|j: int| 0 <= j < p.len() && p[j] != idx && r[a] == moved_mark(p[j], idx);
                    assert(ms[j] == p[j]);
                    assert(ms[j] < ms[ms.len() - 1]);
                }
            }
            assert forall|k: int| 0 <= k < r.push(y).len() implies exists|j: int|
                0 <= j < ms.len() && ms[j] != idx && #[trigger] r.push(y)[k] == moved_mark(ms[j], idx) by {
                if k < r.len() {
                    let j = choose|j: int| 0 <= j < p.len() && p[j] != idx && r[k] == moved_mark(p[j], idx);
                    assert(ms[j] == p[j]);
                } else {
                    assert(ms[ms.len() - 1] == l);
                }
            }
        } else {
            assert forall|k: int| 0 <= k < r.len() implies exists|j: int|
                0 <= j < ms.len() && ms[j] != idx && #[trigger] r[k] == moved_mark(ms[j], idx) by {
                let j = choose|j: int| 0 <= j < p.len() && p[j] != idx && r[k] == moved_mark(p[j], idx);
                assert(ms[j] == p[j]);
            }
        }
    }
}

/// Every key, and every delete report, keeps the marks ascending and
/// distinct (the picker's list of marks stays a set).
pub proof fn law_marks_stay_ascending(m: PickerModel, key: KeyInput, idx: usize, result: Result<(), Seq<char>>)
    requires
        marks_ok(m.marked),
        m.entries.len() <= usize::MAX,
    ensures
        marks_ok(spec_pick_key(m, key).0.marked),
        idx < m.entries.len() ==> marks_ok(spec_finish_delete(m, idx, result).marked),
{
    law_mark_toggle_twice(PickerModel { delete_arm: None, ..m });
    assert forall|i: int, j: int| 0 <= i < j < all_marks(m.entries.len()).len() implies all_marks(
        m.entries.len(),
    )[i] < all_marks(m.entries.len())[j] by {
        assert(all_marks(m.entries.len())[i] == i);
        assert(all_marks(m.entries.len())[j] == j);
    }
    assert(marks_ok(Seq::<usize>::empty()));
    lemma_reindexed_ok(m.marked, idx);
}


/// Enter in the name prompt with a valid name asks to create
/// `profiles/<name>.json`: as a copy of the entry under the cursor when the
/// prompt was opened for a copy, from the template otherwise; the prompt
/// closes either way.
pub proof fn law_name_prompt_creates_copy_or_template(m: PickerModel, key: KeyInput, buf: Seq<char>, stem: Seq<char>)
    requires
        !key.release,
        key.code == KeyCode::Enter,
        m.name_input == Some(buf),
        spec_validate_name(buf) == Ok::<Seq<char>, Seq<char>>(stem),
    ensures
        spec_pick_key(m, key).0.name_input is None,
        m.pending_copy && m.cursor < m.entries.len() ==> spec_pick_key(m, key).1 == ActionModel::Create(
            stem,
            spec_profile_path(stem),
            NewFileModel::CopyOf(m.entries[m.cursor as int].1),
        ),
        !m.pending_copy ==> spec_pick_key(m, key).1 == ActionModel::Create(
            stem,
            spec_profile_path(stem),
            NewFileModel::FromTemplate,
        ),
{
}

/// `C` on the list, then Enter on the proposed name, creates a copy of the
/// entry that was under the cursor; `N` then Enter on a typed name creates
/// a profile from the template.
pub proof fn law_copy_key_then_enter_copies_the_entry(m: PickerModel, k1: KeyInput, k2: KeyInput, stem: Seq<char>)
    requires
        m.name_input is None,
        !k1.release,
        !k1.ctrl,
        k1.code == KeyCode::Char('c') || k1.code == KeyCode::Char('C'),
        m.cursor < m.entries.len(),
        !k2.release,
        k2.code == KeyCode::Enter,
        spec_validate_name(spec_pick_key(m, k1).0.name_input->0) == Ok::<Seq<char>, Seq<char>>(stem),
    ensures
        spec_pick_key(m, k1).0.name_input is Some,
        spec_pick_key(spec_pick_key(m, k1).0, k2).1 == ActionModel::Create(
            stem,
            spec_profile_path(stem),
            NewFileModel::CopyOf(m.entries[m.cursor as int].1),
        ),
{
}

} // verus!
