//! Login form (server address / port / account / password / AES key).

use vstd::prelude::*;

use crate::keys::{KeyCode, KeyInput};
use crate::text::{
    chars_of, copy_str, decimal, decimal_string, pop_char, push_char, string_of, trim,
    trim_bounds,
};

verus! {

/// What a successful submit hands over.
#[derive(Debug, Clone)]
pub struct WizardResult {
    pub ip: String,
    pub port: u16,
    pub account: String,
    pub password: String,
    /// Custom AES key (hex); empty means the standard key.
    pub aes_key: String,
}

/// The focused field.
#[derive(Clone, Copy, PartialEq, Eq, Debug, Structural)]
pub enum Field {
    Ip,
    Port,
    Account,
    Password,
    AesKey,
}

impl Field {
    pub open spec fn spec_next(self) -> Field {
        match self {
            Field::Ip => Field::Port,
            Field::Port => Field::Account,
            Field::Account => Field::Password,
            Field::Password => Field::AesKey,
            Field::AesKey => Field::Ip,
        }
    }

    pub open spec fn spec_prev(self) -> Field {
        match self {
            Field::Ip => Field::AesKey,
            Field::Port => Field::Ip,
            Field::Account => Field::Port,
            Field::Password => Field::Account,
            Field::AesKey => Field::Password,
        }
    }

    /// The following field, wrapping around.
    pub fn next(self) -> (f: Field)
        ensures
            f == self.spec_next(),
    {
        match self {
            Field::Ip => Field::Port,
            Field::Port => Field::Account,
            Field::Account => Field::Password,
            Field::Password => Field::AesKey,
            Field::AesKey => Field::Ip,
        }
    }

    /// The preceding field, wrapping around.
    pub fn prev(self) -> (f: Field)
        ensures
            f == self.spec_prev(),
    {
        match self {
            Field::Ip => Field::AesKey,
            Field::Port => Field::Ip,
            Field::Account => Field::Port,
            Field::Password => Field::Account,
            Field::AesKey => Field::Password,
        }
    }

    /// The field's caption.
    pub fn label(self) -> (s: &'static str)
        ensures
            self is Ip ==> s@ == "服务器IP"@,
            self is Port ==> s@ == "端  口"@,
            self is Account ==> s@ == "账  号"@,
            self is Password ==> s@ == "密  码"@,
            self is AesKey ==> s@ == "AES密钥"@,
    {
        match self {
            Field::Ip => "服务器IP",
            Field::Port => "端  口",
            Field::Account => "账  号",
            Field::Password => "密  码",
            Field::AesKey => "AES密钥",
        }
    }
}

/// `next` then `prev` (and the other way round) is the identity.
pub proof fn law_field_next_prev_inverse(f: Field)
    ensures
        f.spec_next().spec_prev() == f,
        f.spec_prev().spec_next() == f,
{
}

// ------------------------------------------------------------ port text

/// All characters are ASCII digits.
pub open spec fn all_digits(s: Seq<char>) -> bool {
    forall|i: int| 0 <= i < s.len() ==> '0' <= #[trigger] s[i] && s[i] <= '9'
}

/// Value of a string of ASCII digits.
pub open spec fn digits_value(s: Seq<char>) -> int
    decreases s.len(),
{
    if s.len() == 0 {
        0
    } else {
        digits_value(s.drop_last()) * 10 + (s.last() as int - 48)
    }
}

/// What `str::parse::<u16>` accepts: an optional `+`, then at least one ASCII
/// digit, with a value of at most 65535.
pub open spec fn spec_parse_u16(s: Seq<char>) -> Option<u16> {
    let d = if s.len() > 0 && s[0] == '+' {
        s.drop_first()
    } else {
        s
    };
    if d.len() > 0 && all_digits(d) && digits_value(d) <= 65535 {
        Some(digits_value(d) as u16)
    } else {
        None
    }
}

/// A longer run of digits is worth at least as much as its beginning.
proof fn lemma_digits_prefix(s: Seq<char>, j: int)
    requires
        all_digits(s),
        0 <= j <= s.len(),
    ensures
        0 <= digits_value(s.take(j)) <= digits_value(s),
    decreases s.len(),
{
    if j < s.len() {
        let p = s.drop_last();
        assert(all_digits(p)) by {
            assert forall|i: int| 0 <= i < p.len() implies '0' <= #[trigger] p[i] && p[i] <= '9' by {
                assert(p[i] == s[i]);
            }
        }
        lemma_digits_prefix(p, j);
        assert(p.take(j) =~= s.take(j));
        lemma_digits_prefix(p, p.len() as int);
        assert(p.take(p.len() as int) =~= p);
    } else {
        assert(s.take(j) =~= s);
        lemma_digits_nonneg(s);
    }
}

proof fn lemma_digits_nonneg(s: Seq<char>)
    requires
        all_digits(s),
    ensures
        digits_value(s) >= 0,
    decreases s.len(),
{
    if s.len() > 0 {
        let p = s.drop_last();
        assert(all_digits(p)) by {
            assert forall|i: int| 0 <= i < p.len() implies '0' <= #[trigger] p[i] && p[i] <= '9' by {
                assert(p[i] == s[i]);
            }
        }
        lemma_digits_nonneg(p);
        assert('0' <= s[s.len() - 1]);
    }
}

/// The value of the characters of `v` from `start` on, when there is at
/// least one, they are all ASCII digits, and the value is at most `limit`.
pub(crate) fn digits_at_most(v: &Vec<char>, start: usize, limit: u64) -> (r: Option<u64>)
    requires
        start <= v@.len(),
        limit <= 0xffff_ffff,
    ensures
        ({
            let d = v@.skip(start as int);
            r == if d.len() > 0 && all_digits(d) && digits_value(d) <= limit {
                Some(digits_value(d) as u64)
            } else {
                None
            }
        }),
        r matches Some(x) ==> x as int == digits_value(v@.skip(start as int)) && x <= limit,
{
    let ghost d = v@.skip(start as int);
    let n = v.len();
    if start == n {
        return None;
    }
    let mut acc: u64 = 0;
    let mut i = start;
    while i < n
        invariant
            start <= i <= n == v@.len(),
            d == v@.skip(start as int),
            all_digits(d.take(i - start)),
            acc as int == digits_value(d.take(i - start)),
            acc <= limit <= 0xffff_ffff,
        decreases n - i,
    {
        let c = v[i];
        if !('0' <= c && c <= '9') {
            proof {
                assert(d[i - start] == c);
            }
            return None;
        }
        let next: u64 = acc * 10 + (c as u64 - 48);
        proof {
            let t = d.take(i - start + 1);
            assert(t.drop_last() =~= d.take(i - start));
            assert(t.last() == c);
            assert(all_digits(t)) by {
                assert forall|k: int| 0 <= k < t.len() implies '0' <= #[trigger] t[k] && t[k] <= '9' by {
                    if k < t.len() - 1 {
                        assert(t[k] == d.take(i - start)[k]);
                    }
                }
            }
            assert(next as int == digits_value(t));
        }
        if next > limit {
            proof {
                let t = d.take(i - start + 1);
                if all_digits(d) {
                    lemma_digits_prefix(d, i - start + 1);
                }
            }
            return None;
        }
        acc = next;
        i += 1;
    }
    proof {
        assert(d.take(n - start) =~= d);
    }
    Some(acc)
}

/// `str::parse::<u16>`, errors mapped to `None`: an optional `+`, then the
/// digits.
fn parse_u16(s: &str) -> (r: Option<u16>)
    ensures
        r == spec_parse_u16(s@),
{
    let v = chars_of(s);
    let start: usize = if v.len() > 0 && v[0] == '+' { 1 } else { 0 };
    proof {
        if start == 1 {
            assert(v@.skip(1) =~= v@.drop_first());
        } else {
            assert(v@.skip(0) =~= v@);
        }
    }
    let ghost d = if s@.len() > 0 && s@[0] == '+' {
        s@.drop_first()
    } else {
        s@
    };
    proof {
        assert(v@.skip(start as int) == d);
    }
    match digits_at_most(&v, start, 65535) {
        Some(x) => {
            proof {
                assert(x <= 65535);
                assert(d.len() > 0 && all_digits(d) && digits_value(d) <= 65535);
            }
            Some(x as u16)
        },
        None => None,
    }
}

/// Only the ASCII digits of `s`, in order.
pub open spec fn keep_digits(s: Seq<char>) -> Seq<char>
    decreases s.len(),
{
    if s.len() == 0 {
        s
    } else if '0' <= s.last() && s.last() <= '9' {
        keep_digits(s.drop_last()).push(s.last())
    } else {
        keep_digits(s.drop_last())
    }
}

/// The port text after typing `c`: digits only, at most five of them.
pub open spec fn port_after_typing(old: Seq<char>, c: char) -> Seq<char> {
    let d = keep_digits(old.push(c));
    if d.len() > 5 {
        d.take(5)
    } else {
        d
    }
}

/// `port_after_typing`.
fn type_into_port(port: &String, c: char) -> (r: String)
    ensures
        r@ == port_after_typing(port@, c),
{
    let mut v = chars_of(port.as_str());
    v.push(c);
    let ghost full = v@;
    let mut out: Vec<char> = Vec::new();
    let n = v.len();
    for i in 0..n
        invariant
            n == v.len(),
            v@ == full,
            out@ == keep_digits(full.take(i as int)),
    {
        proof {
            assert(full.take(i + 1).drop_last() =~= full.take(i as int));
        }
        if '0' <= v[i] && v[i] <= '9' {
            out.push(v[i]);
        }
    }
    proof {
        assert(full.take(n as int) =~= full);
    }
    if out.len() > 5 {
        string_of(&out, 0, 5)
    } else {
        let s = string_of(&out, 0, out.len());
        proof {
            assert(out@.subrange(0, out@.len() as int) =~= out@);
        }
        s
    }
}

/// The trimmed text of `s` as a new string.
fn trimmed(s: &str) -> (r: String)
    ensures
        r@ == trim(s@),
{
    let v = chars_of(s);
    let (a, b) = trim_bounds(&v);
    string_of(&v, a, b)
}

/// The login form.
#[derive(Debug)]
pub struct Wizard {
    pub ip: String,
    pub port: String,
    pub account: String,
    pub password: String,
    pub aes_key: String,
    pub focus: Field,
    /// The submitted values (taken by the main thread).
    pub result: Option<WizardResult>,
    pub error: Option<String>,
}

/// The form as plain values.
pub struct WizardModel {
    pub ip: Seq<char>,
    pub port: Seq<char>,
    pub account: Seq<char>,
    pub password: Seq<char>,
    pub aes_key: Seq<char>,
    pub focus: Field,
    /// `(ip, port, account, password, aes_key)` of the last accepted submit.
    pub result: Option<(Seq<char>, u16, Seq<char>, Seq<char>, Seq<char>)>,
    pub error: Option<Seq<char>>,
}

impl View for Wizard {
    type V = WizardModel;

    open spec fn view(&self) -> WizardModel {
        WizardModel {
            ip: self.ip@,
            port: self.port@,
            account: self.account@,
            password: self.password@,
            aes_key: self.aes_key@,
            focus: self.focus,
            result: match self.result {
                Some(r) => Some((r.ip@, r.port, r.account@, r.password@, r.aes_key@)),
                None => None,
            },
            error: match self.error {
                Some(e) => Some(e@),
                None => None,
            },
        }
    }
}

/// The text of field `f`.
pub open spec fn field_text(m: WizardModel, f: Field) -> Seq<char> {
    match f {
        Field::Ip => m.ip,
        Field::Port => m.port,
        Field::Account => m.account,
        Field::Password => m.password,
        Field::AesKey => m.aes_key,
    }
}

/// The form with field `f` set to `v`.
pub open spec fn with_field(m: WizardModel, f: Field, v: Seq<char>) -> WizardModel {
    match f {
        Field::Ip => WizardModel { ip: v, ..m },
        Field::Port => WizardModel { port: v, ..m },
        Field::Account => WizardModel { account: v, ..m },
        Field::Password => WizardModel { password: v, ..m },
        Field::AesKey => WizardModel { aes_key: v, ..m },
    }
}

/// Why a submit is refused, in the order the checks are made; `None` when
/// it is accepted.
pub open spec fn submit_error(m: WizardModel) -> Option<Seq<char>> {
    match spec_parse_u16(trim(m.port)) {
        None => Some("端口无效 (1-65535)"@),
        Some(p) => if p == 0 {
            Some("端口无效 (1-65535)"@)
        } else if trim(m.ip).len() == 0 {
            Some("服务器 IP 不能为空"@)
        } else if trim(m.account).len() == 0 {
            Some("账号不能为空"@)
        } else if m.password.len() == 0 {
            Some("密码不能为空"@)
        } else {
            None
        },
    }
}

/// Submitting: `(next form, accepted)`.
pub open spec fn spec_submit(m: WizardModel) -> (WizardModel, bool) {
    match submit_error(m) {
        Some(e) => (WizardModel { error: Some(e), ..m }, false),
        None => (
            WizardModel {
                result: Some(
                    (
                        trim(m.ip),
                        spec_parse_u16(trim(m.port))->0,
                        trim(m.account),
                        m.password,
                        trim(m.aes_key),
                    ),
                ),
                ..m
            },
            true,
        ),
    }
}

/// The focused field after typing `c`.
pub open spec fn typed(m: WizardModel, c: char) -> Seq<char> {
    if m.focus == Field::Port {
        port_after_typing(m.port, c)
    } else {
        field_text(m, m.focus).push(c)
    }
}

/// Handling a key: `(next form, submitted)`.
pub open spec fn spec_on_key(m0: WizardModel, key: KeyInput) -> (WizardModel, bool) {
    let m = WizardModel { error: None, ..m0 };
    match key.code {
        KeyCode::Tab | KeyCode::Down => (WizardModel { focus: m.focus.spec_next(), ..m }, false),
        KeyCode::BackTab | KeyCode::Up => (WizardModel { focus: m.focus.spec_prev(), ..m }, false),
        KeyCode::Enter => spec_submit(m),
        KeyCode::Char(c) => if key.ctrl && (c == 'm' || c == 'M') {
            spec_submit(m)
        } else {
            (with_field(m, m.focus, typed(m, c)), false)
        },
        KeyCode::Backspace => {
            let t = field_text(m, m.focus);
            if t.len() == 0 {
                (m, false)
            } else {
                (with_field(m, m.focus, t.drop_last()), false)
            }
        },
        _ => (m, false),
    }
}

impl Wizard {
    /// A form pre-filled with the given values; the focus goes to the first
    /// field that still needs typing (account when both account and password
    /// are empty, password when only the password is, else the address).
    pub fn new(ip: String, port: u16, account: String, password: String, aes_key: String) -> (w:
        Wizard)
        ensures
            w.ip == ip,
            w.port@ == decimal(port as nat),
            w.account == account,
            w.password == password,
            w.aes_key == aes_key,
            w.focus == (if account@.len() == 0 && password@.len() == 0 {
                Field::Account
            } else if password@.len() == 0 {
                Field::Password
            } else {
                Field::Ip
            }),
            w.result is None,
            w.error is None,
    {
        let focus = if account.as_str().is_empty() && password.as_str().is_empty() {
            Field::Account
        } else if password.as_str().is_empty() {
            Field::Password
        } else {
            Field::Ip
        };
        Wizard {
            ip,
            port: decimal_string(port as u64),
            account,
            password,
            aes_key,
            focus,
            result: None,
            error: None,
        }
    }

    /// The text of a field.
    pub fn value(&self, f: Field) -> (s: &str)
        ensures
            s@ == field_text(self@, f),
    {
        match f {
            Field::Ip => self.ip.as_str(),
            Field::Port => self.port.as_str(),
            Field::Account => self.account.as_str(),
            Field::Password => self.password.as_str(),
            Field::AesKey => self.aes_key.as_str(),
        }
    }

    /// The text of a field, for changing it in place.
    pub fn value_mut(&mut self, f: Field) -> (r: &mut String)
        ensures
            (*r)@ == field_text(old(self)@, f),
            final(self)@ == with_field(old(self)@, f, (*final(r))@),
    {
        match f {
            Field::Ip => &mut self.ip,
            Field::Port => &mut self.port,
            Field::Account => &mut self.account,
            Field::Password => &mut self.password,
            Field::AesKey => &mut self.aes_key,
        }
    }

    /// Replaces the text of a field.
    pub fn set_value(&mut self, f: Field, v: String)
        ensures
            final(self)@ == with_field(old(self)@, f, v@),
    {
        match f {
            Field::Ip => self.ip = v,
            Field::Port => self.port = v,
            Field::Account => self.account = v,
            Field::Password => self.password = v,
            Field::AesKey => self.aes_key = v,
        }
    }

    /// Handles a key; returns whether the form was submitted. Any key clears
    /// the previous error. Tab/Down and BackTab/Up move the focus; Enter (or
    /// Ctrl+M, which some input methods leave as the only way to send CR)
    /// submits; a character is appended to the focused field (the port keeps
    /// digits only, at most five); Backspace deletes the last character.
    pub fn on_key(&mut self, key: KeyInput) -> (submitted: bool)
        ensures
            (final(self)@, submitted) == spec_on_key(old(self)@, key),
    {
        self.error = None;
        match key.code {
            KeyCode::Esc => false,
            KeyCode::Tab | KeyCode::Down => {
                self.focus = self.focus.next();
                false
            },
            KeyCode::BackTab | KeyCode::Up => {
                self.focus = self.focus.prev();
                false
            },
            KeyCode::Enter => self.submit(),
            KeyCode::Char(c) => {
                if key.ctrl && (c == 'm' || c == 'M') {
                    return self.submit();
                }
                match self.focus {
                    Field::Port => {
                        self.port = type_into_port(&self.port, c);
                    },
                    Field::Ip => push_char(&mut self.ip, c),
                    Field::Account => push_char(&mut self.account, c),
                    Field::Password => push_char(&mut self.password, c),
                    Field::AesKey => push_char(&mut self.aes_key, c),
                }
                false
            },
            KeyCode::Backspace => {
                match self.focus {
                    Field::Ip => {
                        pop_char(&mut self.ip);
                    },
                    Field::Port => {
                        pop_char(&mut self.port);
                    },
                    Field::Account => {
                        pop_char(&mut self.account);
                    },
                    Field::Password => {
                        pop_char(&mut self.password);
                    },
                    Field::AesKey => {
                        pop_char(&mut self.aes_key);
                    },
                }
                false
            },
            _ => false,
        }
    }

    /// Checks the form and, when it is valid, stores the trimmed values (the
    /// password as typed) in `result`. Returns whether it was accepted.
    pub fn submit(&mut self) -> (ok: bool)
        ensures
            (final(self)@, ok) == spec_submit(old(self)@),
    {
        let pt = trimmed(self.port.as_str());
        let port: u16 = match parse_u16(pt.as_str()) {
            Some(p) if p > 0 => p,
            _ => {
                self.error = Some(copy_str("端口无效 (1-65535)"));
                return false;
            },
        };
        let ip = trimmed(self.ip.as_str());
        if ip.as_str().is_empty() {
            self.error = Some(copy_str("服务器 IP 不能为空"));
            return false;
        }
        let account = trimmed(self.account.as_str());
        if account.as_str().is_empty() {
            self.error = Some(copy_str("账号不能为空"));
            return false;
        }
        if self.password.as_str().is_empty() {
            self.error = Some(copy_str("密码不能为空"));
            return false;
        }
        self.result = Some(
            WizardResult {
                ip,
                port,
                account,
                password: copy_str(self.password.as_str()),
                aes_key: trimmed(self.aes_key.as_str()),
            },
        );
        true
    }
}


proof fn lemma_keep_digits_of_digits(s: Seq<char>)
    requires
        all_digits(s),
    ensures
        keep_digits(s) == s,
    decreases s.len(),
{
    if s.len() > 0 {
        let p = s.drop_last();
        assert(all_digits(p)) by {
            assert forall|i: int| 0 <= i < p.len() implies '0' <= #[trigger] p[i] && p[i] <= '9' by {
                assert(p[i] == s[i]);
            }
        }
        lemma_keep_digits_of_digits(p);
        assert(s =~= p.push(s.last()));
        assert('0' <= s[s.len() - 1] && s[s.len() - 1] <= '9');
    }
}

/// Typing a character changes only the focused field, appending the
/// character to it (the port takes digits only, at most five); every other
/// field, the focus and the last result stay, the error is cleared, and
/// nothing is submitted.
pub proof fn law_typing_changes_only_the_focused_field(m: WizardModel, key: KeyInput, c: char)
    requires
        key.code == KeyCode::Char(c),
        !(key.ctrl && (c == 'm' || c == 'M')),
    ensures
        ({
            let (n, submitted) = spec_on_key(m, key);
            &&& !submitted
            &&& n.focus == m.focus
            &&& n.result == m.result
            &&& n.error is None
            &&& n.ip == if m.focus == Field::Ip { m.ip.push(c) } else { m.ip }
            &&& n.account == if m.focus == Field::Account { m.account.push(c) } else { m.account }
            &&& n.password == if m.focus == Field::Password { m.password.push(c) } else { m.password }
            &&& n.aes_key == if m.focus == Field::AesKey { m.aes_key.push(c) } else { m.aes_key }
            &&& m.focus != Field::Port ==> n.port == m.port
            &&& (m.focus == Field::Port && all_digits(m.port) && m.port.len() < 5 && '0' <= c && c <= '9')
                ==> n.port == m.port.push(c)
            &&& (m.focus == Field::Port && all_digits(m.port) && m.port.len() <= 5 && !('0' <= c && c <= '9'))
                ==> n.port == m.port
        }),
{
    if m.focus == Field::Port && all_digits(m.port) {
        let t = m.port.push(c);
        assert(t.drop_last() =~= m.port);
        lemma_keep_digits_of_digits(m.port);
        if '0' <= c && c <= '9' {
            assert(keep_digits(t) == m.port.push(c));
        } else {
            assert(keep_digits(t) == m.port);
        }
    }
}

} // verus!
