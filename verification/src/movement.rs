//! A step of the player: the direction it goes in, the cell it ends on, and whether the player
//! asked for it. How fast the step is drawn is the front end's business.
use crate::directions::Directions;
use vstd::prelude::*;

verus! {

/// A movement of the player by one cell.
#[derive(Clone, Copy, Debug, PartialEq, Eq)]
pub struct Movement {
    /// The direction of the movement
    pub direction: Directions,
    /// The cell the movement ends on
    pub target: (i32, i32),
    /// Whether the player asked for the movement, rather than gravity
    pub is_manual: bool,
}

impl Movement {
    /// The direction the movement goes in.
    pub fn direction(&self) -> (r: Directions)
        ensures
            r == self.direction,
    {
        self.direction
    }
}

} // verus!
