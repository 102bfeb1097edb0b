//! Credential store of the multi-account console (`profiles/.manager.json`).
//!
//! Restarting a session means logging in again, which needs the plain-text
//! password. By default nothing is written to disk (`Remember::No`); with
//! `Remember::Yes` the store is saved next to the profiles, plain text, owner
//! readable only, and says so inside the file. Passwords are keyed by
//! **profile name**, never by account: the same account may have different
//! passwords on two servers.
//!
//! This module holds the in-memory store and every decision about it; the
//! file is read, parsed, written and deleted by the caller, which hands the
//! outcome in as a [`StoreRead`] and writes what [`Credentials::save_plan`]
//! returns.

use vstd::prelude::*;

use crate::text::{
    chars_of, contains_str, copy_str, has_item, lemma_less_asymmetric, lemma_less_irreflexive, lemma_less_total,
    lemma_less_transitive, seq_less, str_eq,
};

verus! {

/// Store file name (inside `profiles/`, next to the profiles).
pub const STORE_FILE: &'static str = ".manager.json";

/// Current file format version.
pub const STORE_VERSION: u32 = 1;

/// The version a file without a `version` field is read as.
pub fn default_version() -> (v: u32)
    ensures
        v == STORE_VERSION,
{
    STORE_VERSION
}

/// The credentials of one profile.
#[derive(Debug, Clone, PartialEq, Eq, Default)]
pub struct Credential {
    /// Account (diagnostics; the key is the profile name).
    pub account: String,
    /// Plain-text password.
    pub password: String,
}

/// The store as it is kept on disk.
#[derive(Debug, Clone, PartialEq, Eq)]
pub struct StoreFile {
    pub version: u32,
    /// A warning for whoever opens the file: the passwords are plain text.
    pub warning: String,
    /// Profile name -> credentials, in ascending name order.
    pub profiles: Vec<(String, Credential)>,
}

impl StoreFile {
    /// Current version, no warning, no profiles.
    pub fn empty() -> (f: StoreFile)
        ensures
            f.version == STORE_VERSION,
            f.warning@.len() == 0,
            f.profiles@.len() == 0,
    {
        StoreFile { version: STORE_VERSION, warning: String::new(), profiles: Vec::new() }
    }
}

/// Whether passwords are written to disk.
#[derive(Debug, Clone, Copy, PartialEq, Eq, Structural)]
pub enum Remember {
    /// Memory only (the default).
    No,
    /// Saved to `profiles/.manager.json` so restarts survive a program restart.
    Yes,
}

impl Remember {
    /// From the command line: `--no-remember-password` wins over
    /// `--remember-password` (the conservative side wins when both are
    /// given); neither means `No`.
    pub fn from_args(args: &[String]) -> (r: Remember)
        ensures
            r == (if has_item(args@, "--no-remember-password"@) {
                Remember::No
            } else if has_item(args@, "--remember-password"@) {
                Remember::Yes
            } else {
                Remember::No
            }),
    {
        if contains_str(args, "--no-remember-password") {
            return Remember::No;
        }
        if contains_str(args, "--remember-password") {
            return Remember::Yes;
        }
        Remember::No
    }

    pub fn is_yes(self) -> (r: bool)
        ensures
            r == (self == Remember::Yes),
    {
        match self {
            Remember::Yes => true,
            Remember::No => false,
        }
    }
}

/// What happened when the store file was read.
#[derive(Debug)]
pub enum StoreRead {
    /// No such file: the first run, not an error.
    Missing,
    /// The file could not be read (the I/O error's text).
    Unreadable(String),
    /// The file is not valid JSON for the store (the parser's text).
    Corrupt(String),
    /// The parsed file.
    Parsed(StoreFile),
}

/// One stored entry as plain values: `(profile, account, password)`.
pub open spec fn entry_view(e: (String, Credential)) -> (Seq<char>, Seq<char>, Seq<char>) {
    (e.0@, e.1.account@, e.1.password@)
}

pub open spec fn entries_view(v: Seq<(String, Credential)>) -> Seq<(Seq<char>, Seq<char>, Seq<char>)> {
    v.map_values(|e: (String, Credential)| entry_view(e))
}

/// Profile names strictly ascending.
pub open spec fn keys_sorted(s: Seq<(Seq<char>, Seq<char>, Seq<char>)>) -> bool {
    forall|i: int, j: int| 0 <= i < j < s.len() ==> seq_less(#[trigger] s[i].0, #[trigger] s[j].0)
}

/// The map obtained by inserting the entries in order (a later entry with
/// the same name wins).
pub open spec fn map_of_list(s: Seq<(Seq<char>, Seq<char>, Seq<char>)>) -> Map<
    Seq<char>,
    (Seq<char>, Seq<char>),
>
    decreases s.len(),
{
    if s.len() == 0 {
        Map::empty()
    } else {
        map_of_list(s.drop_last()).insert(s.last().0, (s.last().1, s.last().2))
    }
}

/// In a sorted sequence every name maps to the values at its index, and
/// nothing else is a key.
proof fn lemma_map_of_sorted(s: Seq<(Seq<char>, Seq<char>, Seq<char>)>)
    requires
        keys_sorted(s),
    ensures
        forall|i: int|
            0 <= i < s.len() ==> #[trigger] map_of_list(s).contains_key(s[i].0) && map_of_list(
                s,
            )[s[i].0] == (s[i].1, s[i].2),
        forall|k: Seq<char>|
            #[trigger] map_of_list(s).contains_key(k) ==> exists|i: int|
                0 <= i < s.len() && s[i].0 == k,
    decreases s.len(),
{
    if s.len() > 0 {
        let p = s.drop_last();
        assert(keys_sorted(p)) by {
            assert forall|i: int, j: int| 0 <= i < j < p.len() implies seq_less(
                #[trigger] p[i].0,
                #[trigger] p[j].0,
            ) by {
                assert(seq_less(s[i].0, s[j].0));
            }
        }
        lemma_map_of_sorted(p);
        let last = s.last();
        assert(map_of_list(s) == map_of_list(p).insert(last.0, (last.1, last.2)));
        assert forall|i: int|
            0 <= i < s.len() implies #[trigger] map_of_list(s).contains_key(s[i].0)
            && map_of_list(s)[s[i].0] == (s[i].1, s[i].2) by {
            if i < s.len() - 1 {
                assert(seq_less(s[i].0, s[s.len() - 1].0));
                lemma_less_irreflexive(s[i].0);
                assert(p[i] == s[i]);
                assert(map_of_list(p).contains_key(p[i].0));
            }
        }
        assert forall|k: Seq<char>| #[trigger] map_of_list(s).contains_key(k) implies exists|i: int|
            0 <= i < s.len() && s[i].0 == k by {
            if k == last.0 {
                assert(s[s.len() - 1].0 == k);
            } else {
                assert(map_of_list(p).contains_key(k));
                let i = choose|i: int| 0 <= i < p.len() && p[i].0 == k;
                assert(s[i].0 == k);
            }
        }
    }
}

/// A sorted sequence holds as many entries as its map has names.
proof fn lemma_map_of_sorted_len(s: Seq<(Seq<char>, Seq<char>, Seq<char>)>)
    requires
        keys_sorted(s),
    ensures
        map_of_list(s).dom().finite(),
        map_of_list(s).dom().len() == s.len(),
    decreases s.len(),
{
    if s.len() > 0 {
        let p = s.drop_last();
        assert(keys_sorted(p)) by {
            assert forall|i: int, j: int| 0 <= i < j < p.len() implies seq_less(
                #[trigger] p[i].0,
                #[trigger] p[j].0,
            ) by {
                assert(seq_less(s[i].0, s[j].0));
            }
        }
        lemma_map_of_sorted_len(p);
        lemma_map_of_sorted(p);
        let last = s.last();
        if map_of_list(p).contains_key(last.0) {
            let i = choose|i: int| 0 <= i < p.len() && p[i].0 == last.0;
            assert(seq_less(s[i].0, s[s.len() - 1].0));
            lemma_less_irreflexive(last.0);
        }
        assert(map_of_list(s).dom() == map_of_list(p).dom().insert(last.0));
    }
}

proof fn lemma_sorted_prefix(s: Seq<(Seq<char>, Seq<char>, Seq<char>)>)
    requires
        keys_sorted(s),
        s.len() > 0,
    ensures
        keys_sorted(s.drop_last()),
        !map_of_list(s.drop_last()).contains_key(s.last().0),
        map_of_list(s.drop_last()) == map_of_list(s).remove(s.last().0),
{
    let p = s.drop_last();
    assert forall|i: int, j: int| 0 <= i < j < p.len() implies seq_less(#[trigger] p[i].0, #[trigger] p[j].0) by {
        assert(seq_less(s[i].0, s[j].0));
    }
    lemma_map_of_sorted(p);
    if map_of_list(p).contains_key(s.last().0) {
        let i = choose|i: int| 0 <= i < p.len() && p[i].0 == s.last().0;
        assert(seq_less(s[i].0, s[s.len() - 1].0));
        lemma_less_irreflexive(s.last().0);
    }
    assert(map_of_list(p) =~= map_of_list(s).remove(s.last().0));
}

/// A sorted sequence is the only one of its map: two sorted sequences with
/// the same map are the same.
proof fn lemma_sorted_unique(s1: Seq<(Seq<char>, Seq<char>, Seq<char>)>, s2: Seq<(Seq<char>, Seq<char>, Seq<char>)>)
    requires
        keys_sorted(s1),
        keys_sorted(s2),
        map_of_list(s1) == map_of_list(s2),
    ensures
        s1 == s2,
    decreases s1.len(),
{
    lemma_map_of_sorted_len(s1);
    lemma_map_of_sorted_len(s2);
    if s1.len() == 0 {
        assert(s1 =~= s2);
    } else {
        let n = s1.len() as int;
        let m = map_of_list(s1);
        lemma_map_of_sorted(s1);
        lemma_map_of_sorted(s2);
        let k1 = s1[n - 1].0;
        let k2 = s2[n - 1].0;
        assert(m.contains_key(k1));
        assert(m.contains_key(k2));
        let j = choose|j: int| 0 <= j < s2.len() && s2[j].0 == k1;
        let i = choose|i: int| 0 <= i < s1.len() && s1[i].0 == k2;
        if k1 != k2 {
            assert(seq_less(s2[j].0, s2[n - 1].0));
            assert(seq_less(s1[i].0, s1[n - 1].0));
            lemma_less_asymmetric(k1, k2);
        }
        assert(s1[n - 1] == s2[n - 1]);
        lemma_sorted_prefix(s1);
        lemma_sorted_prefix(s2);
        lemma_sorted_unique(s1.drop_last(), s2.drop_last());
        assert(s1 =~= s1.drop_last().push(s1[n - 1]));
        assert(s2 =~= s2.drop_last().push(s2[n - 1]));
    }
}

/// Recording `(account, password)` under `profile`; an empty profile name
/// changes nothing.
pub open spec fn spec_record(
    m: Map<Seq<char>, (Seq<char>, Seq<char>)>,
    profile: Seq<char>,
    account: Seq<char>,
    password: Seq<char>,
) -> Map<Seq<char>, (Seq<char>, Seq<char>)> {
    if profile.len() == 0 {
        m
    } else {
        m.insert(profile, (account, password))
    }
}

/// The usable password of a profile: the stored one if it is not empty.
pub open spec fn spec_password(m: Map<Seq<char>, (Seq<char>, Seq<char>)>, profile: Seq<char>) -> Option<
    Seq<char>,
> {
    if m.contains_key(profile) && m[profile].1.len() > 0 {
        Some(m[profile].1)
    } else {
        None
    }
}

pub open spec fn opt_str_view(o: Option<&str>) -> Option<Seq<char>> {
    match o {
        Some(s) => Some(s@),
        None => None,
    }
}

/// A recorded non-empty password is read back for its profile, and
/// recording never changes what another profile reads.
pub proof fn law_recorded_password_is_read_back(
    m: Map<Seq<char>, (Seq<char>, Seq<char>)>,
    profile: Seq<char>,
    account: Seq<char>,
    password: Seq<char>,
    other: Seq<char>,
)
    requires
        other != profile,
    ensures
        profile.len() > 0 && password.len() > 0 ==> spec_password(
            spec_record(m, profile, account, password),
            profile,
        ) == Some(password),
        spec_password(spec_record(m, profile, account, password), other) == spec_password(
            m,
            other,
        ),
{
}

/// An empty password reads as no password at all.
pub proof fn law_empty_password_is_missing(
    m: Map<Seq<char>, (Seq<char>, Seq<char>)>,
    profile: Seq<char>,
    account: Seq<char>,
)
    requires
        profile.len() > 0,
    ensures
        spec_password(spec_record(m, profile, account, Seq::empty()), profile) is None,
{
}

/// Passwords are keyed by profile, not by account: two profiles with the same
/// account keep their own passwords.
pub proof fn law_keyed_by_profile(
    m: Map<Seq<char>, (Seq<char>, Seq<char>)>,
    p1: Seq<char>,
    p2: Seq<char>,
    account: Seq<char>,
    pw1: Seq<char>,
    pw2: Seq<char>,
)
    requires
        p1.len() > 0,
        p2.len() > 0,
        p1 != p2,
        pw1.len() > 0,
        pw2.len() > 0,
    ensures
        ({
            let m2 = spec_record(spec_record(m, p1, account, pw1), p2, account, pw2);
            spec_password(m2, p1) == Some(pw1) && spec_password(m2, p2) == Some(pw2)
        }),
{
}

/// Saving then loading gives the store back: the store built from a parsed
/// file (see [`Credentials::from_read`]) whose entries are those that saving
/// writes (see [`Credentials::save_plan`]) holds the same profiles, with the
/// same accounts and the same usable passwords, listed in the same order
/// (so [`Credentials::profiles`] gives the same list). Every store keeps its
/// entries sorted (see [`Credentials::profiles`]).
pub proof fn law_saved_store_reads_back(c: Credentials, f: StoreFile, b: Credentials)
    requires
        keys_sorted(c.spec_entries()),
        keys_sorted(b.spec_entries()),
        entries_view(f.profiles@) == c.spec_entries(),
        b.spec_map() == map_of_list(entries_view(f.profiles@)),
    ensures
        b.spec_map() == c.spec_map(),
        b.spec_entries() == c.spec_entries(),
        forall|p: Seq<char>| #[trigger] spec_password(b.spec_map(), p) == spec_password(c.spec_map(), p),
{
    lemma_sorted_unique(b.spec_entries(), c.spec_entries());
}

/// The text written into the store file.
pub open spec fn store_warning() -> Seq<char> {
    "明文密码, 仅本用户可读。删除本文件即清除记住的密码。"@
}

/// In-memory credential store plus its saving policy.
#[derive(Debug)]
pub struct Credentials {
    path: String,
    remember: Remember,
    entries: Vec<(String, Credential)>,
    /// A problem met while loading (kept to be shown: "could not read your
    /// passwords" is not the same as "no passwords saved").
    load_error: Option<String>,
}

impl Credentials {
    #[verifier::type_invariant]
    closed spec fn sorted(self) -> bool {
        keys_sorted(entries_view(self.entries@))
    }

    /// The stored entries as plain values, in ascending profile order.
    pub closed spec fn spec_entries(self) -> Seq<(Seq<char>, Seq<char>, Seq<char>)> {
        entries_view(self.entries@)
    }

    /// Profile name -> `(account, password)`.
    pub open spec fn spec_map(self) -> Map<Seq<char>, (Seq<char>, Seq<char>)> {
        map_of_list(self.spec_entries())
    }

    pub closed spec fn spec_path(self) -> Seq<char> {
        self.path@
    }

    pub closed spec fn spec_remember(self) -> Remember {
        self.remember
    }

    pub closed spec fn spec_load_error(self) -> Option<Seq<char>> {
        match self.load_error {
            Some(e) => Some(e@),
            None => None,
        }
    }

    /// Default location: `profiles/.manager.json` under the working directory.
    pub fn default_path() -> (p: String)
        ensures
            p@ == "profiles/"@ + STORE_FILE@,
    {
        let mut p = copy_str("profiles/");
        p.append(STORE_FILE);
        p
    }

    /// An empty store at `path`.
    fn empty_at(path: String, remember: Remember) -> (c: Credentials)
        ensures
            c.spec_entries().len() == 0,
            c.spec_path() == path@,
            c.spec_remember() == remember,
            c.spec_load_error() is None,
    {
        Credentials { path, remember, entries: Vec::new(), load_error: None }
    }

    /// Builds the store from the outcome of reading the file at `path`.
    /// A missing file is normal (first run); an unreadable or corrupt file
    /// leaves the store empty and records why (the file itself is left
    /// alone so it can be repaired by hand); a parsed file contributes its
    /// profiles.
    pub fn from_read(path: String, remember: Remember, read: StoreRead) -> (c: Credentials)
        ensures
            keys_sorted(c.spec_entries()),
            c.spec_path() == path@,
            c.spec_remember() == remember,
            match read {
                StoreRead::Missing => c.spec_entries().len() == 0 && c.spec_load_error() is None,
                StoreRead::Unreadable(e) => c.spec_entries().len() == 0 && c.spec_load_error()
                    == Some("无法读取 "@ + path@ + ": "@ + e@),
                StoreRead::Corrupt(e) => c.spec_entries().len() == 0 && c.spec_load_error()
                    == Some(path@ + " 不是有效的 JSON: "@ + e@),
                StoreRead::Parsed(f) => c.spec_load_error() is None && c.spec_map() == map_of_list(
                    entries_view(f.profiles@),
                ),
            },
    {
        let c = match read {
            StoreRead::Missing => Self::empty_at(path, remember),
            StoreRead::Unreadable(e) => {
                let mut msg = copy_str("无法读取 ");
                msg.append(path.as_str());
                msg.append(": ");
                msg.append(e.as_str());
                let mut c = Self::empty_at(path, remember);
                c.load_error = Some(msg);
                c
            },
            StoreRead::Corrupt(e) => {
                let mut msg = copy_str(path.as_str());
                msg.append(" 不是有效的 JSON: ");
                msg.append(e.as_str());
                let mut c = Self::empty_at(path, remember);
                c.load_error = Some(msg);
                c
            },
            StoreRead::Parsed(f) => {
                let mut c = Self::empty_at(path, remember);
                let ghost src = entries_view(f.profiles@);
                let n = f.profiles.len();
                let mut i: usize = 0;
                while i < n
                    invariant
                        0 <= i <= n == f.profiles@.len(),
                        src == entries_view(f.profiles@),
                        c.spec_path() == path@,
                        c.spec_remember() == remember,
                        c.spec_load_error() is None,
                        c.spec_map() == map_of_list(src.take(i as int)),
                    decreases n - i,
                {
                    let (k, v) = (&f.profiles[i].0, &f.profiles[i].1);
                    c.insert_entry(k.as_str(), v.account.as_str(), v.password.as_str());
                    proof {
                        assert(src.take(i + 1).drop_last() =~= src.take(i as int));
                    }
                    i += 1;
                }
                proof {
                    assert(src.take(n as int) =~= src);
                }
                c
            },
        };
        proof {
            use_type_invariant(&c);
        }
        c
    }

    /// Memory-only store (tests, or never saved).
    pub fn in_memory(remember: Remember) -> (c: Credentials)
        ensures
            c.spec_entries().len() == 0,
            c.spec_path().len() == 0,
            c.spec_remember() == remember,
            c.spec_load_error() is None,
    {
        Self::empty_at(String::new(), remember)
    }

    pub fn path(&self) -> (p: &str)
        ensures
            p@ == self.spec_path(),
    {
        self.path.as_str()
    }

    pub fn remember(&self) -> (r: Remember)
        ensures
            r == self.spec_remember(),
    {
        self.remember
    }

    /// The problem met while loading (`None`: all fine).
    pub fn load_error(&self) -> (e: Option<&str>)
        ensures
            match e {
                Some(s) => self.spec_load_error() == Some(s@),
                None => self.spec_load_error() is None,
            },
    {
        match &self.load_error {
            Some(s) => Some(s.as_str()),
            None => None,
        }
    }

    /// Stores `(account, password)` under `profile` (memory only), replacing
    /// an older entry, keeping the names in order.
    fn insert_entry(&mut self, profile: &str, account: &str, password: &str)
        ensures
            final(self).spec_map() == old(self).spec_map().insert(profile@, (account@, password@)),
            final(self).spec_path() == old(self).spec_path(),
            final(self).spec_remember() == old(self).spec_remember(),
            final(self).spec_load_error() == old(self).spec_load_error(),
    {
        proof {
            use_type_invariant(&*self);
        }
        let key = chars_of(profile);
        let n = self.entries.len();
        let mut i: usize = 0;
        let ghost s = entries_view(self.entries@);
        while i < n
            invariant
                0 <= i <= n == self.entries@.len(),
                s == entries_view(self.entries@),
                keys_sorted(s),
                key@ == profile@,
                forall|j: int| 0 <= j < i ==> seq_less(#[trigger] s[j].0, key@),
            ensures
                0 <= i <= n,
                forall|j: int| 0 <= j < i ==> seq_less(#[trigger] s[j].0, key@),
                i < n ==> !seq_less(s[i as int].0, key@),
            decreases n - i,
        {
            let kv = chars_of(self.entries[i].0.as_str());
            if !crate::text::chars_less(&kv, &key) {
                break;
            }
            i += 1;
        }
        let cred = Credential { account: copy_str(account), password: copy_str(password) };
        let ghost v = (profile@, account@, password@);
        let mut replace = false;
        if i < n {
            let kv = chars_of(self.entries[i].0.as_str());
            replace = crate::text::chars_eq(&kv, &key);
            proof {
                assert(kv@ == s[i as int].0);
            }
        }
        let mut es: Vec<(String, Credential)> = Vec::new();
        std::mem::swap(&mut es, &mut self.entries);
        if replace {
            es.set(i, (copy_str(profile), cred));
            proof {
                let t = entries_view(es@);
                assert(t =~= s.update(i as int, v));
                lemma_update_sorted(s, i as int, v);
                lemma_map_update(s, i as int, v);
            }
        } else {
            es.insert(i, (copy_str(profile), cred));
            proof {
                let t = entries_view(es@);
                assert(t =~= s.insert(i as int, v));
                if i < n {
                    lemma_less_total(s[i as int].0, key@);
                }
                lemma_insert_sorted(s, i as int, v);
                lemma_map_insert(s, i as int, v);
            }
        }
        self.entries = es;
    }

    /// Records a profile's credentials (memory only; saving is separate).
    /// An empty profile name is ignored.
    pub fn record(&mut self, profile: &str, account: &str, password: &str)
        ensures
            keys_sorted(final(self).spec_entries()),
            final(self).spec_map() == spec_record(old(self).spec_map(), profile@, account@, password@),
            final(self).spec_path() == old(self).spec_path(),
            final(self).spec_remember() == old(self).spec_remember(),
            final(self).spec_load_error() == old(self).spec_load_error(),
    {
        if !profile.is_empty() {
            self.insert_entry(profile, account, password);
        }
        proof {
            use_type_invariant(&*self);
        }
    }

    /// The usable password of a profile: `None` when none is stored or the
    /// stored one is empty (an empty password can only fail to log in).
    pub fn password_for(&self, profile: &str) -> (r: Option<&str>)
        ensures
            opt_str_view(r) == spec_password(self.spec_map(), profile@),
    {
        proof {
            use_type_invariant(self);
        }
        let key = chars_of(profile);
        let n = self.entries.len();
        let ghost s = entries_view(self.entries@);
        for i in 0..n
            invariant
                n == self.entries@.len(),
                s == entries_view(self.entries@),
                keys_sorted(s),
                key@ == profile@,
                forall|j: int| 0 <= j < i ==> #[trigger] s[j].0 != key@,
        {
            let kv = chars_of(self.entries[i].0.as_str());
            if crate::text::chars_eq(&kv, &key) {
                proof {
                    lemma_map_of_sorted(s);
                    assert(kv@ == s[i as int].0);
                    assert(map_of_list(s).contains_key(s[i as int].0));
                }
                let p = self.entries[i].1.password.as_str();
                if p.is_empty() {
                    return None;
                } else {
                    return Some(p);
                }
            }
        }
        proof {
            lemma_map_of_sorted(s);
            if self.spec_map().contains_key(profile@) {
                let j = choose|j: int| 0 <= j < s.len() && s[j].0 == profile@;
                assert(s[j].0 != key@);
            }
        }
        None
    }

    /// Whether a usable password is stored for the profile.
    pub fn has(&self, profile: &str) -> (r: bool)
        ensures
            r == (spec_password(self.spec_map(), profile@) is Some),
    {
        self.password_for(profile).is_some()
    }

    /// The stored profile names, ascending: each name of the store once.
    pub fn profiles(&self) -> (r: Vec<&str>)
        ensures
            keys_sorted(self.spec_entries()),
            r@.len() == self.spec_entries().len(),
            forall|i: int| 0 <= i < r@.len() ==> #[trigger] r@[i]@ == self.spec_entries()[i].0,
            r@.len() == self.spec_map().dom().len(),
            forall|i: int| 0 <= i < r@.len() ==> self.spec_map().contains_key(#[trigger] r@[i]@),
            forall|i: int, j: int| 0 <= i < j < r@.len() ==> seq_less(#[trigger] r@[i]@, #[trigger] r@[j]@),
            forall|k: Seq<char>| #[trigger] self.spec_map().contains_key(k) ==> exists|i: int|
                0 <= i < r@.len() && r@[i]@ == k,
    {
        proof {
            use_type_invariant(self);
            lemma_map_of_sorted(self.spec_entries());
            lemma_map_of_sorted_len(self.spec_entries());
        }
        let mut r: Vec<&str> = Vec::new();
        let n = self.entries.len();
        for i in 0..n
            invariant
                n == self.entries@.len(),
                r@.len() == i,
                forall|j: int| 0 <= j < i ==> #[trigger] r@[j]@ == self.spec_entries()[j].0,
        {
            r.push(self.entries[i].0.as_str());
        }
        proof {
            let s = self.spec_entries();
            assert forall|k: Seq<char>| #[trigger] self.spec_map().contains_key(k) implies exists|i: int|
                0 <= i < r@.len() && r@[i]@ == k by {
                let i = choose|i: int| 0 <= i < s.len() && s[i].0 == k;
                assert(r@[i]@ == k);
            }
        }
        r
    }

    /// How many profiles are stored (each name once).
    pub fn len(&self) -> (n: usize)
        ensures
            n == self.spec_entries().len(),
            n == self.spec_map().dom().len(),
    {
        proof {
            use_type_invariant(self);
            lemma_map_of_sorted_len(self.spec_entries());
        }
        self.entries.len()
    }

    pub fn is_empty(&self) -> (r: bool)
        ensures
            r == (self.spec_entries().len() == 0),
            r == (self.spec_map().dom().len() == 0),
    {
        proof {
            use_type_invariant(self);
            lemma_map_of_sorted_len(self.spec_entries());
        }
        self.entries.len() == 0
    }

    /// What saving writes: nothing when not remembering or when the store
    /// has no path (memory only); otherwise the current version, the
    /// plain-text warning and every entry in order.
    pub fn save_plan(&self) -> (r: Option<StoreFile>)
        ensures
            (r is Some) == (self.spec_remember() == Remember::Yes && self.spec_path().len() > 0),
            r matches Some(f) ==> f.version == STORE_VERSION && f.warning@ == store_warning()
                && entries_view(f.profiles@) == self.spec_entries(),
    {
        if !self.remember.is_yes() {
            return None;
        }
        if self.path.as_str().is_empty() {
            return None;
        }
        let mut out: Vec<(String, Credential)> = Vec::new();
        let n = self.entries.len();
        for i in 0..n
            invariant
                n == self.entries@.len(),
                entries_view(out@) == entries_view(self.entries@).take(i as int),
        {
            let e = &self.entries[i];
            let item = (
                copy_str(e.0.as_str()),
                Credential {
                    account: copy_str(e.1.account.as_str()),
                    password: copy_str(e.1.password.as_str()),
                },
            );
            let ghost before = out@;
            out.push(item);
            proof {
                assert(entry_view(item) == entry_view(self.entries@[i as int]));
                assert(out@ == before.push(item));
                assert(entries_view(out@) =~= entries_view(before).push(entry_view(item)));
                assert(entries_view(self.entries@).take(i + 1) =~= entries_view(
                    self.entries@,
                ).take(i as int).push(entry_view(self.entries@[i as int])));
            }
        }
        proof {
            assert(entries_view(self.entries@).take(n as int) =~= entries_view(self.entries@));
        }
        Some(
            StoreFile {
                version: STORE_VERSION,
                warning: copy_str("明文密码, 仅本用户可读。删除本文件即清除记住的密码。"),
                profiles: out,
            },
        )
    }

    /// Forgets every entry (the caller deletes the file).
    pub fn clear_entries(&mut self)
        ensures
            final(self).spec_entries().len() == 0,
            final(self).spec_path() == old(self).spec_path(),
            final(self).spec_remember() == old(self).spec_remember(),
            final(self).spec_load_error() == old(self).spec_load_error(),
    {
        self.entries = Vec::new();
    }
}

proof fn lemma_update_sorted(
    s: Seq<(Seq<char>, Seq<char>, Seq<char>)>,
    i: int,
    v: (Seq<char>, Seq<char>, Seq<char>),
)
    requires
        keys_sorted(s),
        0 <= i < s.len(),
        s[i].0 == v.0,
    ensures
        keys_sorted(s.update(i, v)),
{
    let t = s.update(i, v);
    assert forall|a: int, b: int| 0 <= a < b < t.len() implies seq_less(
        #[trigger] t[a].0,
        #[trigger] t[b].0,
    ) by {
        assert(seq_less(s[a].0, s[b].0));
    }
}

proof fn lemma_insert_sorted(
    s: Seq<(Seq<char>, Seq<char>, Seq<char>)>,
    i: int,
    v: (Seq<char>, Seq<char>, Seq<char>),
)
    requires
        keys_sorted(s),
        0 <= i <= s.len(),
        forall|j: int| 0 <= j < i ==> seq_less(#[trigger] s[j].0, v.0),
        i < s.len() ==> seq_less(v.0, s[i].0),
    ensures
        keys_sorted(s.insert(i, v)),
{
    let t = s.insert(i, v);
    assert forall|a: int, b: int| 0 <= a < b < t.len() implies seq_less(
        #[trigger] t[a].0,
        #[trigger] t[b].0,
    ) by {
        if b < i {
            assert(seq_less(s[a].0, s[b].0));
        } else if b == i {
            assert(seq_less(s[a].0, v.0));
        } else if a < i {
            assert(seq_less(s[a].0, v.0));
            if b - 1 > i {
                assert(seq_less(s[i].0, s[b - 1].0));
                lemma_less_transitive(v.0, s[i].0, s[b - 1].0);
            }
            lemma_less_transitive(s[a].0, v.0, s[b - 1].0);
        } else if a == i {
            if b - 1 > i {
                assert(seq_less(s[i].0, s[b - 1].0));
                lemma_less_transitive(v.0, s[i].0, s[b - 1].0);
            }
        } else {
            assert(seq_less(s[a - 1].0, s[b - 1].0));
        }
    }
}

proof fn lemma_map_update(
    s: Seq<(Seq<char>, Seq<char>, Seq<char>)>,
    i: int,
    v: (Seq<char>, Seq<char>, Seq<char>),
)
    requires
        keys_sorted(s),
        0 <= i < s.len(),
        s[i].0 == v.0,
    ensures
        map_of_list(s.update(i, v)) == map_of_list(s).insert(v.0, (v.1, v.2)),
{
    let t = s.update(i, v);
    lemma_update_sorted(s, i, v);
    lemma_map_of_sorted(s);
    lemma_map_of_sorted(t);
    let m = map_of_list(s).insert(v.0, (v.1, v.2));
    assert forall|k: Seq<char>| map_of_list(t).contains_key(k) == m.contains_key(k) by {
        if map_of_list(t).contains_key(k) {
            let j = choose|j: int| 0 <= j < t.len() && t[j].0 == k;
            if j != i {
                assert(map_of_list(s).contains_key(s[j].0));
            }
        }
        if map_of_list(s).contains_key(k) {
            let j = choose|j: int| 0 <= j < s.len() && s[j].0 == k;
            assert(map_of_list(t).contains_key(t[j].0));
        }
        if k == v.0 {
            assert(map_of_list(t).contains_key(t[i].0));
        }
    }
    assert forall|k: Seq<char>| #[trigger] map_of_list(t).contains_key(k) implies map_of_list(t)[k]
        == m[k] by {
        let j = choose|j: int| 0 <= j < t.len() && t[j].0 == k;
        assert(map_of_list(t).contains_key(t[j].0));
        if j != i {
            assert(map_of_list(s).contains_key(s[j].0));
            if j < i {
                assert(seq_less(s[j].0, s[i].0));
            } else {
                assert(seq_less(s[i].0, s[j].0));
            }
            lemma_less_irreflexive(v.0);
        }
    }
    assert(map_of_list(t) =~= m);
}

proof fn lemma_map_insert(
    s: Seq<(Seq<char>, Seq<char>, Seq<char>)>,
    i: int,
    v: (Seq<char>, Seq<char>, Seq<char>),
)
    requires
        keys_sorted(s),
        0 <= i <= s.len(),
        forall|j: int| 0 <= j < i ==> seq_less(#[trigger] s[j].0, v.0),
        i < s.len() ==> seq_less(v.0, s[i].0),
    ensures
        map_of_list(s.insert(i, v)) == map_of_list(s).insert(v.0, (v.1, v.2)),
{
    let t = s.insert(i, v);
    lemma_insert_sorted(s, i, v);
    lemma_map_of_sorted(s);
    lemma_map_of_sorted(t);
    let m = map_of_list(s).insert(v.0, (v.1, v.2));
    assert forall|k: Seq<char>| map_of_list(t).contains_key(k) == m.contains_key(k) by {
        if map_of_list(t).contains_key(k) {
            let j = choose|j: int| 0 <= j < t.len() && t[j].0 == k;
            if j < i {
                assert(map_of_list(s).contains_key(s[j].0));
            } else if j > i {
                assert(map_of_list(s).contains_key(s[j - 1].0));
            }
        }
        if map_of_list(s).contains_key(k) {
            let j = choose|j: int| 0 <= j < s.len() && s[j].0 == k;
            if j < i {
                assert(map_of_list(t).contains_key(t[j].0));
            } else {
                assert(map_of_list(t).contains_key(t[j + 1].0));
            }
        }
        if k == v.0 {
            assert(map_of_list(t).contains_key(t[i].0));
        }
    }
    assert forall|k: Seq<char>| #[trigger] map_of_list(t).contains_key(k) implies map_of_list(t)[k]
        == m[k] by {
        let j = choose|j: int| 0 <= j < t.len() && t[j].0 == k;
        assert(map_of_list(t).contains_key(t[j].0));
        if j < i {
            assert(t[j] == s[j]);
            assert(map_of_list(s).contains_key(s[j].0));
            assert(seq_less(s[j].0, v.0));
            lemma_less_irreflexive(v.0);
        } else if j > i {
            assert(t[j] == s[j - 1]);
            assert(map_of_list(s).contains_key(s[j - 1].0));
            if i < s.len() {
                if j - 1 > i {
                    assert(seq_less(s[i].0, s[j - 1].0));
                    lemma_less_transitive(v.0, s[i].0, s[j - 1].0);
                }
            }
            lemma_less_irreflexive(v.0);
        }
    }
    assert(map_of_list(t) =~= m);
}

} // verus!
