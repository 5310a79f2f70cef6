//! What a step tells the loop.

use vstd::prelude::*;

verus! {

/// What one step of a unit asks of the loop around it.
#[derive(Clone, Copy, Debug, PartialEq, Eq)]
pub enum LoopState {
    /// Keep looping.
    Continue,
    /// Stop looping; the unit is done.
    Break,
}

} // verus!
