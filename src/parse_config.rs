//! The settings that the configuration file gives.
use vstd::prelude::*;

verus! {

#[derive(Clone, Copy, Debug, PartialEq, Eq, Structural)]
pub enum Position {
    Right,
    Down,
    Left,
    Up,
}

#[derive(Clone, Copy, Debug, PartialEq, Eq, Structural)]
pub enum CursorType {
    Hollow,
    Beam,
    Line,
}

/// How the cursor is drawn.
#[derive(Clone, Copy, Debug, PartialEq, Eq, Structural)]
pub struct Cursor {
    pub cursor_thickness: u32,
}

/// How line numbers are shown: counted from the cursor's line when `relative`,
/// else from 0 or from 1 after `zero_indexing`.
#[derive(Clone, Copy, Debug, PartialEq, Eq, Structural)]
pub struct LineNumber {
    pub relative: bool,
    pub zero_indexing: bool,
}

} // verus!
