use vstd::prelude::*;

verus! {

/// Which key was pressed. Keys that no component reacts to are `Other`.
#[derive(Debug, Clone, Copy, PartialEq, Eq)]
pub enum KeyCode {
    Char(char),
    Enter,
    Esc,
    Tab,
    BackTab,
    Backspace,
    Delete,
    Left,
    Right,
    Up,
    Down,
    Home,
    End,
    PageUp,
    PageDown,
    F(u8),
    Other,
}

/// One key press: the key, and whether Control was held with it.
#[derive(Debug, Clone, Copy, PartialEq, Eq)]
pub struct Key {
    pub code: KeyCode,
    pub ctrl: bool,
}

impl Key {
    /// A key pressed alone.
    pub fn plain(code: KeyCode) -> (k: Key)
        ensures
            k == (Key { code, ctrl: false }),
    {
        Key { code, ctrl: false }
    }

    /// A character pressed together with Control.
    pub fn ctrl(c: char) -> (k: Key)
        ensures
            k == (Key { code: KeyCode::Char(c), ctrl: true }),
    {
        Key { code: KeyCode::Char(c), ctrl: true }
    }
}

} // verus!
