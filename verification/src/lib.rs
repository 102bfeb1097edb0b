//! Session-management core of a terminal console that hosts several game bot
//! accounts in one process: restart supervision, credential store, profile
//! picker, login form, command targeting, the per-session lifecycle, and the
//! console itself (keys and command lines in, effects out).

pub mod bag;
pub mod board;
pub mod console;
pub mod counters;
pub mod credentials;
pub mod keys;
pub mod profile;
pub mod requests;
pub mod session;
pub mod sessions;
pub mod panel;
pub mod side;
pub mod text;
pub mod watcher;
pub mod wizard;

use vstd::prelude::*;

use crate::text::{chars_of, contains_str, has_item, str_eq, views_of};

verus! {

/// Whether a profile logs in by itself at start-up: never with
/// `--no-autostart`/`--manual` (`autostart == false`); with `--start <names>`
/// only the named profiles; otherwise all of them.
pub fn will_autostart(profile: &str, autostart: bool, only: &[String]) -> (r: bool)
    ensures
        r == (autostart && (only@.len() == 0 || has_item(only@, profile@))),
{
    if !autostart {
        return false;
    }
    if only.len() == 0 {
        return true;
    }
    contains_str(only, profile)
}

/// Whether the login form opens at start-up: never with several sessions
/// (each brings its own credentials), otherwise when the account or the
/// password is missing.
pub fn needs_login_wizard(multi_count: usize, account_empty: bool, password_empty: bool) -> (r:
    bool)
    ensures
        r == (multi_count == 0 && (account_empty || password_empty)),
{
    if multi_count > 0 {
        return false;
    }
    account_empty || password_empty
}

/// Starts with `-`.
pub open spec fn is_option(a: Seq<char>) -> bool {
    a.len() > 0 && a[0] == '-'
}

/// Index of the first argument equal to `f` or `g` at or after `i`
/// (`args.len()` when there is none).
pub open spec fn first_flag_from(args: Seq<String>, f: Seq<char>, g: Seq<char>, i: int) -> int
    decreases args.len() - i,
{
    if i >= args.len() {
        args.len() as int
    } else if args[i]@ == f || args[i]@ == g {
        i
    } else {
        first_flag_from(args, f, g, i + 1)
    }
}

/// Index of the first option at or after `i` (`args.len()` when none).
pub open spec fn first_option_from(args: Seq<String>, i: int) -> int
    decreases args.len() - i,
{
    if i >= args.len() {
        args.len() as int
    } else if is_option(args[i]@) {
        i
    } else {
        first_option_from(args, i + 1)
    }
}

/// The values of the first `f`/`g` flag: the arguments after it up to the
/// next option.
pub open spec fn spec_flag_values(args: Seq<String>, f: Seq<char>, g: Seq<char>) -> Seq<Seq<char>> {
    let k = first_flag_from(args, f, g, 0);
    if k >= args.len() {
        Seq::empty()
    } else {
        views_of(args.subrange(k + 1, first_option_from(args, k + 1)))
    }
}

proof fn lemma_first_option_bounds(args: Seq<String>, i: int)
    requires
        0 <= i <= args.len(),
    ensures
        i <= first_option_from(args, i) <= args.len(),
    decreases args.len() - i,
{
    if i < args.len() && !is_option(args[i]@) {
        lemma_first_option_bounds(args, i + 1);
    }
}

proof fn lemma_first_flag_bounds(args: Seq<String>, f: Seq<char>, g: Seq<char>, i: int)
    requires
        0 <= i <= args.len(),
    ensures
        i <= first_flag_from(args, f, g, i) <= args.len(),
    decreases args.len() - i,
{
    if i < args.len() && !(args[i]@ == f || args[i]@ == g) {
        lemma_first_flag_bounds(args, f, g, i + 1);
    }
}

/// The values given to the first `flag` (or its `alias`): the following
/// arguments up to the next one that starts with `-`. `--profiles a.json
/// b.json` gives both paths, `--start a b` both names.
pub fn flag_values(args: &[String], flag: &str, alias: &str) -> (r: Vec<String>)
    ensures
        views_of(r@) == spec_flag_values(args@, flag@, alias@),
{
    let n = args.len();
    let mut k: usize = 0;
    while k < n && !str_eq(args[k].as_str(), flag) && !str_eq(args[k].as_str(), alias)
        invariant
            k <= n == args@.len(),
            first_flag_from(args@, flag@, alias@, 0) == first_flag_from(args@, flag@, alias@, k as int),
        decreases n - k,
    {
        k += 1;
    }
    let mut out: Vec<String> = Vec::new();
    if k >= n {
        return out;
    }
    let mut j = k + 1;
    proof {
        lemma_first_option_bounds(args@, j as int);
    }
    while j < n
        invariant
            k < j <= n == args@.len(),
            k == first_flag_from(args@, flag@, alias@, 0),
            first_option_from(args@, k + 1) == first_option_from(args@, j as int),
            views_of(out@) == views_of(args@.subrange(k + 1, j as int)),
        ensures
            j == first_option_from(args@, k + 1),
            views_of(out@) == views_of(args@.subrange(k + 1, j as int)),
        decreases n - j,
    {
        let v = chars_of(args[j].as_str());
        if v.len() > 0 && v[0] == '-' {
            break;
        }
        let a = text::copy_str(args[j].as_str());
        let ghost before = out@;
        out.push(a);
        proof {
            assert(out@ == before.push(a));
            assert(args@.subrange(k + 1, j + 1) =~= args@.subrange(k + 1, j as int).push(
                args@[j as int],
            ));
            assert(a@ == args@[j as int]@);
            assert(views_of(before) == views_of(args@.subrange(k + 1, j as int)));
            assert forall|i: int| 0 <= i < out@.len() implies views_of(out@)[i] == views_of(
                args@.subrange(k + 1, j + 1),
            )[i] by {
                let lo = k + 1;
                let hi = j + 1;
                assert(views_of(out@).len() == out@.len());
                assert(views_of(before).len() == before.len());
                assert(views_of(args@.subrange(lo, j as int)).len() == j - lo);
                assert(views_of(args@.subrange(lo, hi)).len() == hi - lo);
                assert(views_of(out@)[i] == out@[i]@);
                assert(views_of(args@.subrange(lo, hi))[i] == args@.subrange(lo, hi)[i]@);
                if i < before.len() {
                    assert(out@[i] == before[i]);
                    assert(views_of(before)[i] == before[i]@);
                    assert(views_of(args@.subrange(lo, j as int))[i] == args@.subrange(
                        lo,
                        j as int,
                    )[i]@);
                    assert(views_of(before)[i] == views_of(args@.subrange(lo, j as int))[i]);
                } else {
                    assert(out@[i] == a);
                }
            }
            assert(views_of(before).len() == before.len());
            assert(views_of(args@.subrange(k + 1, j as int)).len() == j - k - 1);
            assert(views_of(args@.subrange(k + 1, j + 1)).len() == j - k);
            assert(views_of(out@).len() == out@.len());
            assert(views_of(out@) =~= views_of(args@.subrange(k + 1, j + 1)));
        }
        j += 1;
    }
    proof {
        lemma_first_option_bounds(args@, j as int);
    }
    out
}

/// Automatic restarts stay on unless `--no-restart` is given.
pub fn restart_enabled_from_args(args: &[String]) -> (r: bool)
    ensures
        r == !has_item(args@, "--no-restart"@),
{
    !contains_str(args, "--no-restart")
}

/// Profiles log in by themselves unless `--no-autostart` or `--manual` is
/// given.
pub fn autostart_from_args(args: &[String]) -> (r: bool)
    ensures
        r == !(has_item(args@, "--no-autostart"@) || has_item(args@, "--manual"@)),
{
    !(contains_str(args, "--no-autostart") || contains_str(args, "--manual"))
}

} // verus!
