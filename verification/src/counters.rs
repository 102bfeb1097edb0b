//! Process-wide restart counters shared between the render thread and the
//! main thread (every clone shares the same cells).

use std::sync::atomic::AtomicUsize;
use std::sync::Arc;
use std::sync::Mutex;

use vstd::prelude::*;

use crate::text::copy_str;

verus! {

/// `std::sync::Mutex`, carried through opaquely.
#[verifier::external_type_specification]
#[verifier::external_body]
#[verifier::reject_recursive_types(T)]
pub struct ExStdMutex<T: ?Sized>(Mutex<T>);

/// Appends `msg` to the shared error list (`Mutex::lock`, then push); a
/// poisoned lock drops the message. Nothing is promised about the list: other
/// threads write to it concurrently.
#[verifier::external_body]
fn locked_push(errors: &Mutex<Vec<String>>, msg: String) {
    if let Ok(mut e) = errors.lock() {
        e.push(msg);
    }
}

/// A copy of the shared error list (`Mutex::lock`, then `Vec::clone`);
/// `None` when the lock is poisoned. The list is shared with other threads,
/// so nothing is promised about what the copy holds.
#[verifier::external_body]
fn locked_snapshot(errors: &Mutex<Vec<String>>) -> Option<Vec<String>> {
    match errors.lock() {
        Ok(e) => Some(e.clone()),
        Err(_) => None,
    }
}

/// A fresh empty error list (`Mutex::new`).
#[verifier::external_body]
fn new_error_list() -> Mutex<Vec<String>> {
    Mutex::new(Vec::new())
}

/// The first entry of a copy of the error list; `None` when the list is
/// empty or could not be read (a poisoned lock).
pub fn first_recorded(snap: &Option<Vec<String>>) -> (e: Option<String>)
    ensures
        match snap {
            Some(v) => if v@.len() > 0 {
                e matches Some(x) && x@ == v@[0]@
            } else {
                e is None
            },
            None => e is None,
        },
{
    match snap {
        Some(v) => if v.len() > 0 {
            Some(copy_str(v[0].as_str()))
        } else {
            None
        },
        None => None,
    }
}

/// Whether a copy of the error list has an entry (`false` when it could not
/// be read).
pub fn any_recorded(snap: &Option<Vec<String>>) -> (r: bool)
    ensures
        r == (snap matches Some(v) && v@.len() > 0),
{
    match snap {
        Some(v) => v.len() > 0,
        None => false,
    }
}

/// Restart counters shared by the render thread and the main thread.
///
/// * `spawned` -- restarts performed so far (diagnostics)
/// * `errors`  -- problems the user must learn about (non-empty: exit code 1)
#[derive(Clone)]
pub struct RestartCounters {
    pub spawned: Arc<AtomicUsize>,
    pub errors: Arc<Mutex<Vec<String>>>,
}

impl RestartCounters {
    /// Zero restarts, no errors.
    pub fn new() -> (c: RestartCounters) {
        RestartCounters {
            spawned: Arc::new(AtomicUsize::new(0)),
            errors: Arc::new(new_error_list()),
        }
    }

    /// Records an error (render thread).
    pub fn push_error(&self, msg: &str) {
        locked_push(&self.errors, msg.to_owned());
    }

    /// The first recorded error (main thread, before exiting): the first
    /// entry of a copy of the list, see [`first_recorded`].
    pub fn first_error(&self) -> (e: Option<String>) {
        let snap = locked_snapshot(&self.errors);
        first_recorded(&snap)
    }

    /// Whether any error was recorded: a copy of the list has an entry, see
    /// [`any_recorded`].
    pub fn has_errors(&self) -> (r: bool) {
        let snap = locked_snapshot(&self.errors);
        any_recorded(&snap)
    }

    /// Restarts performed so far.
    pub fn spawned_count(&self) -> (n: usize) {
        self.spawned.load(std::sync::atomic::Ordering::SeqCst)
    }
}

impl Default for RestartCounters {
    fn default() -> (c: RestartCounters) {
        RestartCounters::new()
    }
}

} // verus!
