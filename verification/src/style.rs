//! How a terminal shows things: colours, and what it takes from the keyboard.

use vstd::prelude::*;

verus! {

/// The colours that texts are drawn in.
#[derive(Debug, Clone, Copy, PartialEq, Eq, Structural)]
pub enum Color {
    Red,
    Yellow,
    Green,
    Magenta,
    Cyan,
    DarkCyan,
    DarkGrey,
}

/// A key.
#[derive(Debug, Clone, Copy, PartialEq, Eq, Structural)]
pub enum Key {
    Char { c: char },
    Up,
    Down,
    Enter,
    Esc,
    Other,
}

/// What happened to a key.
#[derive(Debug, Clone, Copy, PartialEq, Eq, Structural)]
pub enum KeyKind {
    Press,
    /// The key is being held.
    Repeat,
    Release,
}

/// What the terminal tells.
#[derive(Debug, Clone, Copy, PartialEq, Eq, Structural)]
pub enum Input {
    Key { key: Key, control: bool, kind: KeyKind },
    Resized,
    Other,
}

} // verus!
