//! What the terminal reports and what the input pump forwards.

use vstd::prelude::*;

verus! {

/// The key that was pressed, as far as navigation tells keys apart.
#[derive(Clone, Copy, Debug, PartialEq, Eq, Structural)]
pub enum KeyCode {
    Char(char),
    Enter,
    Esc,
    Left,
    Right,
    Up,
    Down,
    /// Any other key.
    Other,
}

/// The modifier keys held with a key press.
#[derive(Clone, Copy, Debug, PartialEq, Eq, Structural)]
pub enum Modifiers {
    /// No modifier at all.
    Plain,
    /// The control key and no other.
    Control,
    /// Any other modifier or combination.
    Other,
}

/// One key press.
#[derive(Clone, Copy, Debug, PartialEq, Eq, Structural)]
pub struct KeyEvent {
    pub code: KeyCode,
    pub modifiers: Modifiers,
}

/// One item of the stream from the input pump to the render loop.
#[derive(Clone, Copy, Debug, PartialEq, Eq, Structural)]
pub enum Event {
    Input(KeyEvent),
    Tick,
}

/// One raw report of the terminal, as read while a search line is entered.
#[derive(Clone, Copy, Debug, PartialEq, Eq, Structural)]
pub enum TermEvent {
    Key(KeyEvent),
    /// A report that is no key press (mouse, resize, focus, paste).
    Other,
}

/// The character that starts the entry of a search line.
pub const SEARCH_KEY: char = '/';

/// How many single steps a control-modified jump makes.
pub const JUMP_STEPS: usize = 4;

} // verus!
