use vstd::prelude::*;

use crate::direction::Direction;

verus! {

/// One square of the grid, addressed by its column `x` and row `y`.
#[derive(Clone, Copy, PartialEq, Eq, Hash, Structural, Debug)]
pub struct Cell {
    pub x: i32,
    pub y: i32,
}

impl Cell {
    /// The cell one step from `self` in direction `d`, with the coordinate
    /// arithmetic truncated to `i32`.
    pub open spec fn offset_spec(self, d: Direction) -> Cell {
        Cell { x: (self.x + d.dx()) as i32, y: (self.y + d.dy()) as i32 }
    }

    /// The cell one step from `self` in direction `direction`.
    pub fn offset(self, direction: Direction) -> (r: Cell)
        requires
            i32::MIN <= self.x + direction.dx() <= i32::MAX,
            i32::MIN <= self.y + direction.dy() <= i32::MAX,
        ensures
            r == self.offset_spec(direction),
            r.x as int == self.x + direction.dx(),
            r.y as int == self.y + direction.dy(),
    {
        let (dx, dy) = direction.vector();
        Cell { x: self.x + dx, y: self.y + dy }
    }
}

} // verus!
