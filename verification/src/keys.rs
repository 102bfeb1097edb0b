//! A key press as the console's forms see it (the terminal library's key
//! events are translated into this by the front end).

use vstd::prelude::*;

verus! {

/// Which key.
#[derive(Debug, Clone, Copy, PartialEq, Eq, Structural)]
pub enum KeyCode {
    Char(char),
    Enter,
    Esc,
    Tab,
    BackTab,
    Up,
    Down,
    Left,
    Right,
    Backspace,
    Delete,
    Home,
    End,
    PageUp,
    PageDown,
    /// A function key (`F(1)` is F1).
    F(u8),
    /// Any key the console does not react to.
    Other,
}

/// A key press: the key, whether Ctrl or Alt was held, and whether this is
/// the release half of the press.
#[derive(Debug, Clone, Copy, PartialEq, Eq, Structural)]
pub struct KeyInput {
    pub code: KeyCode,
    pub ctrl: bool,
    pub alt: bool,
    pub release: bool,
}

impl KeyInput {
    /// A plain key press without modifiers.
    pub fn new(code: KeyCode) -> (k: KeyInput)
        ensures
            k == (KeyInput { code, ctrl: false, alt: false, release: false }),
    {
        KeyInput { code, ctrl: false, alt: false, release: false }
    }

    /// A key press with Ctrl held.
    pub fn with_ctrl(code: KeyCode) -> (k: KeyInput)
        ensures
            k == (KeyInput { code, ctrl: true, alt: false, release: false }),
    {
        KeyInput { code, ctrl: true, alt: false, release: false }
    }

    /// A key press with Alt held.
    pub fn with_alt(code: KeyCode) -> (k: KeyInput)
        ensures
            k == (KeyInput { code, ctrl: false, alt: true, release: false }),
    {
        KeyInput { code, ctrl: false, alt: true, release: false }
    }
}

} // verus!
