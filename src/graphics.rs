//! Where drawing starts on the window.
use vstd::prelude::*;

verus! {

/// An offset on the window, in pixels.
#[derive(Clone, Copy, Debug, PartialEq, Eq, Structural)]
pub struct Offset {
    pub x: u32,
    pub y: u32,
}

} // verus!
