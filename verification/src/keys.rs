//! Normalized keyboard input the shell surfaces consume.

use vstd::prelude::*;

verus! {

/// One normalized key, as the shell's own surfaces see it.
#[derive(Debug, Clone, Copy, PartialEq, Eq, Structural)]
pub enum Key {
    Tab,
    ShiftTab,
    Enter,
    Space,
    Escape,
    Backspace,
    ArrowLeft,
    ArrowRight,
    CommandPalette,
    /// A character typed into a text field.
    Character(char),
}

} // verus!
