//! Keys as they are pressed.
use vstd::prelude::*;

verus! {

/// Which key it is.
#[derive(Clone, Copy, Debug, PartialEq, Eq, Structural)]
pub enum KeyCode {
    Char(char),
    Enter,
    Esc,
    Tab,
    Up,
    Down,
    Left,
    Right,
    Other,
}

/// A key, whether it was pressed rather than held or let go, and whether Ctrl was held with it.
#[derive(Clone, Copy, Debug, PartialEq, Eq, Structural)]
pub struct Key {
    pub code: KeyCode,
    pub ctrl: bool,
    pub press: bool,
}

impl Key {
    /// Whether the key is the character.
    pub open spec fn types(self, c: char) -> bool {
        self.code == KeyCode::Char(c)
    }

    /// Whether the key is the character, with Ctrl held.
    pub open spec fn types_ctrl(self, c: char) -> bool {
        self.code == KeyCode::Char(c) && self.ctrl
    }

    /// Whether the key is the character.
    pub fn is_char(&self, c: char) -> (r: bool)
        ensures
            r == self.types(c),
    {
        match self.code {
            KeyCode::Char(k) => k == c,
            _ => false,
        }
    }

    /// Whether the key is the character, with Ctrl held.
    pub fn is_ctrl(&self, c: char) -> (r: bool)
        ensures
            r == self.types_ctrl(c),
    {
        self.is_char(c) && self.ctrl
    }
}

} // verus!
