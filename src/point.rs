use vstd::prelude::*;

use crate::position::Position;

verus! {

/// A cell of the grid, by its two coordinates.
#[derive(Debug, Clone, Copy, PartialEq, Eq, PartialOrd, Ord, Hash, Default, Structural)]
pub struct Point {
    x: Position,
    y: Position,
}

impl Point {
    pub closed spec fn spec_x(&self) -> Position {
        self.x
    }

    pub closed spec fn spec_y(&self) -> Position {
        self.y
    }

    pub fn new(x: Position, y: Position) -> (r: Point)
        ensures
            r.x() == x,
            r.y() == y,
    {
        Point { x, y }
    }

    #[verifier::when_used_as_spec(spec_x)]
    pub fn x(&self) -> (r: Position)
        ensures
            r == self.spec_x(),
    {
        self.x
    }

    #[verifier::when_used_as_spec(spec_y)]
    pub fn y(&self) -> (r: Position)
        ensures
            r == self.spec_y(),
    {
        self.y
    }
}

} // verus!
