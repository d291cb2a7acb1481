//! The play area, as the window reports it each tick.

use crate::vector::saturated;
use vstd::prelude::*;

verus! {

/// How far past the top or bottom edge something may stray before it counts
/// as gone: 100 units.
pub const MARGIN: i32 = 100_000;

/// The size of the play area in sub-units. Its lower left corner is the
/// origin; `y` grows upward.
#[derive(Clone, Copy, Debug, PartialEq, Eq, Structural)]
pub struct PlayArea {
    pub width: u32,
    pub height: u32,
}

impl PlayArea {
    /// Whether a height lies outside the vertical bounds: more than the
    /// margin above the top edge, or more than the margin below the bottom.
    pub open spec fn out_of_bounds(self, y: int) -> bool {
        y > self.height + MARGIN || y < -MARGIN
    }

    /// The height just above the top edge where things re-enter.
    pub open spec fn reentry_height(self) -> int {
        saturated(self.height + MARGIN)
    }

    /// The horizontal middle of the area.
    pub open spec fn center_x(self) -> int {
        self.width as int / 2
    }

    /// A play area `width` by `height` sub-units large.
    pub fn new(width: u32, height: u32) -> (area: PlayArea)
        ensures
            area == (PlayArea { width, height }),
    {
        PlayArea { width, height }
    }

    /// Whether the height `y` lies past the margin above or below the area.
    pub fn is_out_of_bounds(&self, y: i32) -> (out: bool)
        ensures
            out == self.out_of_bounds(y as int),
    {
        y as i64 > self.height as i64 + MARGIN as i64 || y < -MARGIN
    }

    /// The height at which things re-enter: the margin above the top edge.
    pub fn reentry(&self) -> (y: i32)
        ensures
            y == self.reentry_height(),
    {
        crate::vector::saturate(self.height as i64 + MARGIN as i64)
    }

    /// Half the width.
    pub fn middle(&self) -> (x: i32)
        ensures
            x == self.center_x(),
    {
        (self.width / 2) as i32
    }
}

} // verus!
