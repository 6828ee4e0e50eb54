use vstd::prelude::*;

use crate::cell::Cell;
use crate::point::Point;

verus! {

/// A row or column coordinate of the 9×9 grid.
#[allow(clippy::upper_case_acronyms)]
#[derive(Debug, Clone, Copy, PartialEq, Eq, PartialOrd, Ord, Hash, Default, Structural)]
pub enum Position {
    #[default]
    ONE,
    TWO,
    THREE,
    FOUR,
    FIVE,
    SIX,
    SEVEN,
    EIGHT,
    NINE,
}

impl Position {
    pub const ALL_POSITIONS: [Position; 9] = [
        Position::ONE,
        Position::TWO,
        Position::THREE,
        Position::FOUR,
        Position::FIVE,
        Position::SIX,
        Position::SEVEN,
        Position::EIGHT,
        Position::NINE,
    ];

    /// The coordinate as a number in `0..9`.
    pub open spec fn index(self) -> nat {
        match self {
            Position::ONE => 0,
            Position::TWO => 1,
            Position::THREE => 2,
            Position::FOUR => 3,
            Position::FIVE => 4,
            Position::SIX => 5,
            Position::SEVEN => 6,
            Position::EIGHT => 7,
            Position::NINE => 8,
        }
    }

    pub fn to_index(self) -> (r: usize)
        ensures
            r == self.index(),
            r < 9,
    {
        match self {
            Position::ONE => 0,
            Position::TWO => 1,
            Position::THREE => 2,
            Position::FOUR => 3,
            Position::FIVE => 4,
            Position::SIX => 5,
            Position::SEVEN => 6,
            Position::EIGHT => 7,
            Position::NINE => 8,
        }
    }

    pub fn from_index(index: usize) -> (r: Position)
        requires
            index < 9,
        ensures
            r.index() == index,
    {
        match index {
            0 => Position::ONE,
            1 => Position::TWO,
            2 => Position::THREE,
            3 => Position::FOUR,
            4 => Position::FIVE,
            5 => Position::SIX,
            6 => Position::SEVEN,
            7 => Position::EIGHT,
            _ => Position::NINE,
        }
    }

    /// The coordinate numbered `value` counting from one, or `None` outside `1..=9`.
    pub fn from_number(value: u8) -> (r: Option<Position>)
        ensures
            r is Some <==> 1 <= value <= 9,
            r is Some ==> r->0.index() + 1 == value,
    {
        if 1 <= value && value <= 9 {
            Some(Position::from_index((value - 1) as usize))
        } else {
            None
        }
    }

    /// The nine points whose second coordinate is `self`, in order of the first.
    pub fn get_row_positions(&self) -> (r: [Point; 9])
        ensures
            forall|i: int|
                0 <= i < 9 ==> (#[trigger] r@[i]).x().index() == i && r@[i].y() == *self,
    {
        let mut positions = [Point::new(Position::ONE, *self);9];
        for i in 0..9usize
            invariant
                forall|j: int|
                    0 <= j < i ==> (#[trigger] positions@[j]).x().index() == j
                        && positions@[j].y() == *self,
                forall|j: int| i <= j < 9 ==> (#[trigger] positions@[j]).y() == *self,
        {
            positions[i] = Point::new(Position::from_index(i), *self);
        }
        positions
    }

    /// The nine points whose first coordinate is `self`, in order of the second.
    pub fn get_column_positions(&self) -> (r: [Point; 9])
        ensures
            forall|i: int|
                0 <= i < 9 ==> (#[trigger] r@[i]).y().index() == i && r@[i].x() == *self,
    {
        let mut positions = [Point::new(*self, Position::ONE);9];
        for i in 0..9usize
            invariant
                forall|j: int|
                    0 <= j < i ==> (#[trigger] positions@[j]).y().index() == j
                        && positions@[j].x() == *self,
                forall|j: int| i <= j < 9 ==> (#[trigger] positions@[j]).x() == *self,
        {
            positions[i] = Point::new(*self, Position::from_index(i));
        }
        positions
    }

    /// The nine points of the 3×3 box numbered `self`: box `k` starts at
    /// first coordinate `3 * (k % 3)` and second coordinate `3 * (k / 3)`,
    /// and its points come with the first coordinate varying slowest.
    pub fn get_box_positions(&self) -> (r: [Point; 9])
        ensures
            forall|i: int|
                0 <= i < 9 ==> (#[trigger] r@[i]).x().index() == box_first(self.index(), i)
                    && r@[i].y().index() == box_second(self.index(), i),
    {
        let k = self.to_index();
        let start_x = (k % 3) * 3;
        let start_y = (k / 3) * 3;
        let mut positions = [Point::new(Position::ONE, Position::ONE);9];
        for i in 0..9usize
            invariant
                k == self.index(),
                start_x == 3 * (k % 3),
                start_y == 3 * (k / 3),
                k < 9,
                forall|j: int|
                    0 <= j < i ==> (#[trigger] positions@[j]).x().index() == box_first(
                        self.index(),
                        j,
                    ) && positions@[j].y().index() == box_second(self.index(), j),
        {
            positions[i] = Point::new(
                Position::from_index(start_x + i / 3),
                Position::from_index(start_y + i % 3),
            );
        }
        positions
    }

    /// The 81 points of the grid, the first coordinate varying slowest.
    pub fn all_board_positions() -> (r: Vec<Point>)
        ensures
            r@.len() == 81,
            forall|i: int|
                0 <= i < 81 ==> (#[trigger] r@[i]).x().index() == i / 9 && r@[i].y().index()
                    == i % 9,
    {
        let mut points: Vec<Point> = Vec::new();
        for i in 0..81usize
            invariant
                points@.len() == i,
                forall|j: int|
                    0 <= j < i ==> (#[trigger] points@[j]).x().index() == j / 9
                        && points@[j].y().index() == j % 9,
        {
            points.push(Point::new(Position::from_index(i / 9), Position::from_index(i % 9)));
        }
        points
    }
}

impl vstd::std_specs::convert::TryFromSpecImpl<u8> for Position {
    open spec fn obeys_try_from_spec() -> bool {
        true
    }

    open spec fn try_from_spec(value: u8) -> Result<Position, ()> {
        if 1 <= value <= 9 {
            Ok(choose|p: Position| p.index() + 1 == value)
        } else {
            Err(())
        }
    }
}

impl TryFrom<u8> for Position {
    type Error = ();

    /// The coordinate numbered `value` counting from one; an error outside
    /// `1..=9`.
    fn try_from(value: u8) -> Result<Position, ()> {
        match Position::from_number(value) {
            Some(p) => {
                proof {
                    let q = choose|q: Position| q.index() + 1 == value;
                    assert(q.index() == p.index());
                }
                Ok(p)
            },
            None => Err(()),
        }
    }
}

impl std::ops::Index<Position> for [Cell; 9] {
    type Output = Cell;

    fn index(&self, index: Position) -> &Cell {
        &self[index.to_index()]
    }
}

impl std::ops::IndexMut<Position> for [Cell; 9] {
    fn index_mut(&mut self, index: Position) -> &mut Cell {
        &mut self[index.to_index()]
    }
}

impl std::ops::Index<Position> for [[Cell; 9]; 9] {
    type Output = [Cell; 9];

    fn index(&self, index: Position) -> &[Cell; 9] {
        &self[index.to_index()]
    }
}

impl std::ops::IndexMut<Position> for [[Cell; 9]; 9] {
    fn index_mut(&mut self, index: Position) -> &mut [Cell; 9] {
        &mut self[index.to_index()]
    }
}

/// First coordinate of the `i`-th point of box `k`.
pub open spec fn box_first(k: nat, i: int) -> int {
    3 * (k % 3) + i / 3
}

/// Second coordinate of the `i`-th point of box `k`.
pub open spec fn box_second(k: nat, i: int) -> int {
    3 * (k / 3) + i % 3
}

} // verus!
