//! Key input, free of any terminal library.

use vstd::prelude::*;

verus! {

/// The key of an input event.
#[non_exhaustive]
#[derive(Clone, Copy, Debug, PartialEq, Eq, Structural, Hash)]
pub enum Key {
    /// A character key.
    Char(char),
    /// A function key, by its number.
    F(u8),
    Backspace,
    Enter,
    Left,
    Right,
    Up,
    Down,
    Tab,
    BackTab,
    Delete,
    Home,
    End,
    PageUp,
    PageDown,
    Esc,
    Copy,
    Cut,
    Paste,
    MouseScrollDown,
    MouseScrollUp,
    /// No key: an event that every handler ignores.
    Null,
}

impl Default for Key {
    fn default() -> (r: Key)
        ensures
            r == Key::Null,
    {
        Key::Null
    }
}

/// One input event: a key and the modifier keys held with it.
#[derive(Debug, Clone, Copy, PartialEq, Eq, Structural, Hash)]
pub struct Input {
    pub key: Key,
    pub ctrl: bool,
    pub alt: bool,
    pub shift: bool,
}

impl Default for Input {
    fn default() -> (r: Input)
        ensures
            r == (Input { key: Key::Null, ctrl: false, alt: false, shift: false }),
    {
        Input { key: Key::Null, ctrl: false, alt: false, shift: false }
    }
}

} // verus!
