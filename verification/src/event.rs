//! The input events that the sheet reacts to, as plain values.
use vstd::prelude::*;

verus! {

/// The bit of the shift key in a set of modifiers.
pub const SHIFT: u8 = 1;

/// The bit of the control key in a set of modifiers.
pub const CONTROL: u8 = 2;

/// The modifier keys held during a key event, one bit each.
#[derive(Debug, Clone, Copy, PartialEq, Eq, Structural)]
pub struct KeyModifiers {
    pub bits: u8,
}

impl KeyModifiers {
    /// Whether every bit of `flags` is set.
    pub open spec fn spec_contains(self, flags: u8) -> bool {
        self.bits & flags == flags
    }

    pub fn contains(&self, flags: u8) -> (held: bool)
        ensures
            held == self.spec_contains(flags),
    {
        self.bits & flags == flags
    }
}

/// The key of a key event.
#[derive(Debug, Clone, Copy, PartialEq, Eq, Structural)]
pub enum KeyCode {
    Backspace,
    Enter,
    Left,
    Right,
    Up,
    Down,
    Tab,
    Delete,
    Esc,
    Char(char),
    /// Any key that the sheet does not react to.
    Other,
}

/// Whether a key went down, is held down, or came up.
#[derive(Debug, Clone, Copy, PartialEq, Eq, Structural)]
pub enum KeyEventKind {
    Press,
    Repeat,
    Release,
}

impl KeyEventKind {
    /// Whether the key went down or is held down.
    pub open spec fn is_down(self) -> bool {
        self == KeyEventKind::Press || self == KeyEventKind::Repeat
    }
}

#[derive(Debug, Clone, Copy, PartialEq, Eq, Structural)]
pub struct KeyEvent {
    pub code: KeyCode,
    pub modifiers: KeyModifiers,
    pub kind: KeyEventKind,
}

/// What the pointer did.
#[derive(Debug, Clone, Copy, PartialEq, Eq, Structural)]
pub enum MouseEventKind {
    Down,
    Drag,
    ScrollUp,
    ScrollDown,
    ScrollLeft,
    ScrollRight,
    /// Anything that the sheet does not react to.
    Other,
}

/// A pointer event with the screen position at which it happened.
#[derive(Debug, Clone, Copy, PartialEq, Eq, Structural)]
pub struct MouseEvent {
    pub kind: MouseEventKind,
    pub column: u16,
    pub row: u16,
}

/// An input event.
#[derive(Debug, PartialEq, Eq)]
pub enum Event {
    Key(KeyEvent),
    Mouse(MouseEvent),
    /// Text pasted into the terminal.
    Paste(String),
    /// The terminal has the focus again.
    FocusGained,
    /// The terminal has a new size: its width, then its height.
    Resize(u16, u16),
    /// Any event that nothing reacts to.
    Other,
}

} // verus!
