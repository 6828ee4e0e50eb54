use vstd::prelude::*;

use crate::cell::{cell_char, char_meaning, Cell};
use crate::point::Point;
use crate::position::{box_first, box_second, Position};
use crate::set::{no_repeated_value, Box, CellSet, Column, Row};
use crate::value::Value;

verus! {

broadcast use vstd::string::is_ascii_spec_bytes;

/// A 9×9 Sudoku grid; `cells[x][y]` is the cell in row `x`, column `y`.
#[derive(Debug, Clone, Copy, PartialEq, Eq)]
pub struct SudokuGrid {
    cells: [[Cell; 9]; 9],
}

/// What parsing the characters `s` gives: 81 cells in row-major order, a
/// digit a Prover's value and `.`, `0` or `_` an empty cell.
pub open spec fn parsed_cell(s: Seq<char>, x: int, y: int) -> Cell {
    match char_meaning(s[9 * x + y])->0 {
        Some(v) => Cell::Guess(v),
        None => Cell::Empty,
    }
}

/// `s` is a grid in text form: 81 characters, each a digit or one of `.0_`.
pub open spec fn is_grid_text(s: Seq<char>) -> bool {
    s.len() == 81 && forall|i: int| 0 <= i < 81 ==> (#[trigger] char_meaning(s[i])) is Some
}

/// The line drawn between bands of three rows.
pub open spec fn divider_text() -> Seq<char> {
    seq!['-', '-', '-', '+', '-', '-', '-', '+', '-', '-', '-', '\n']
}

/// Row `x` as text: nine characters in groups of three split by `|`, then
/// a newline.
pub open spec fn row_text(grid: SudokuGrid, x: int) -> Seq<char> {
    Seq::new(
        12,
        |i: int|
            if i == 11 {
                '\n'
            } else if i % 4 == 3 {
                '|'
            } else {
                cell_char(grid.cell(x, i - i / 4))
            },
    )
}

/// The first `rows` rows of the grid as text, with a divider after the
/// third and the sixth.
pub open spec fn grid_text(grid: SudokuGrid, rows: nat) -> Seq<char>
    decreases rows,
{
    if rows == 0 {
        Seq::empty()
    } else {
        let text = grid_text(grid, (rows - 1) as nat) + row_text(grid, rows - 1);
        if rows == 3 || rows == 6 {
            text + divider_text()
        } else {
            text
        }
    }
}

impl SudokuGrid {
    /// The cell in row `x`, column `y`.
    pub closed spec fn cell(&self, x: int, y: int) -> Cell {
        self.cells@[x]@[y]
    }

    /// The nine cells of row `k`.
    pub open spec fn row_cells(&self, k: int) -> Seq<Cell> {
        Seq::new(9, |i: int| self.cell(k, i))
    }

    /// The nine cells of column `k`.
    pub open spec fn column_cells(&self, k: int) -> Seq<Cell> {
        Seq::new(9, |i: int| self.cell(i, k))
    }

    /// The nine cells of box `k`.
    pub open spec fn box_cells(&self, k: int) -> Seq<Cell> {
        Seq::new(9, |i: int| self.cell(box_first(k as nat, i), box_second(k as nat, i)))
    }

    /// No row, column or box holds a value twice.
    pub open spec fn spec_valid(&self) -> bool {
        &&& forall|k: int| 0 <= k < 9 ==> no_repeated_value(#[trigger] self.row_cells(k))
        &&& forall|k: int| 0 <= k < 9 ==> no_repeated_value(#[trigger] self.column_cells(k))
        &&& forall|k: int| 0 <= k < 9 ==> no_repeated_value(#[trigger] self.box_cells(k))
    }

    /// Every cell carries a value.
    pub open spec fn spec_full(&self) -> bool {
        forall|x: int, y: int| 0 <= x < 9 && 0 <= y < 9 ==> (#[trigger] self.cell(x, y)).spec_value() is Some
    }

    /// The grid of all empty cells.
    pub fn new() -> (r: SudokuGrid)
        ensures
            forall|x: int, y: int| 0 <= x < 9 && 0 <= y < 9 ==> #[trigger] r.cell(x, y) == Cell::Empty,
    {
        SudokuGrid { cells: [[Cell::Empty;9];9] }
    }

    /// The grid whose row `x`, column `y` holds `cells[x][y]`.
    pub fn from_cells(cells: [[Cell; 9]; 9]) -> (r: SudokuGrid)
        ensures
            forall|x: int, y: int| 0 <= x < 9 && 0 <= y < 9 ==> #[trigger] r.cell(x, y) == cells@[x]@[y],
    {
        SudokuGrid { cells }
    }

    /// The grid that an 81-character text gives, row by row: a digit `1..=9`
    /// a Prover's value, any of `.`, `0`, `_` an empty cell. Any other
    /// character, or another length, is an error.
    pub fn parse(s: &str) -> (r: Result<SudokuGrid, ()>)
        ensures
            r is Ok <==> is_grid_text(s@),
            r is Ok ==> forall|x: int, y: int|
                0 <= x < 9 && 0 <= y < 9 ==> #[trigger] r->Ok_0.cell(x, y) == parsed_cell(s@, x, y),
    {
        if !s.is_ascii() {
            proof {
                let i = choose|i: int| 0 <= i < s@.len() && !('\0' <= #[trigger] s@[i] <= '\u{7f}');
                assert(char_meaning(s@[i]) is None);
            }
            return Err(());
        }
        let bytes = s.as_bytes();
        if bytes.len() != 81 {
            return Err(());
        }
        let mut cells = [[Cell::Empty;9];9];
        for i in 0..81usize
            invariant
                bytes@.len() == 81,
                s@.len() == 81,
                forall|k: int| 0 <= k < 81 ==> #[trigger] bytes@[k] == s@[k] as u8,
                forall|k: int| 0 <= k < 81 ==> '\0' <= #[trigger] s@[k] <= '\u{7f}',
                forall|k: int| 0 <= k < i ==> (#[trigger] char_meaning(s@[k])) is Some,
                forall|x: int, y: int|
                    0 <= x < 9 && 0 <= y < 9 && 9 * x + y < i ==> #[trigger] cells@[x]@[y] == parsed_cell(s@, x, y),
        {
            let b = bytes[i];
            let cell = if b == 46u8 || b == 48u8 || b == 95u8 {
                Cell::Empty
            } else if 49u8 <= b && b <= 57u8 {
                Cell::Guess(Value::from_index((b - 49u8) as usize))
            } else {
                proof {
                    assert(char_meaning(s@[i as int]) is None);
                }
                return Err(());
            };
            assert(cell == parsed_cell(s@, (i / 9) as int, (i % 9) as int));
            cells[i / 9][i % 9] = cell;
        }
        assert(is_grid_text(s@));
        Ok(SudokuGrid { cells })
    }

    /// The grid as text: nine lines of nine characters in groups of three
    /// split by `|`, with a `---+---+---` line after the third and sixth,
    /// and `.` for an empty cell.
    pub fn display_chars(&self) -> (r: Vec<char>)
        ensures
            r@ == grid_text(*self, 9),
    {
        let mut out: Vec<char> = Vec::new();
        for x in 0..9usize
            invariant
                out@ == grid_text(*self, x as nat),
        {
            let ghost before = out@;
            for i in 0..12usize
                invariant
                    x < 9,
                    out@ == before + row_text(*self, x as int).subrange(0, i as int),
            {
                let c = if i == 11 {
                    '\n'
                } else if i % 4 == 3 {
                    '|'
                } else {
                    self.cells[x][i - i / 4].to_char()
                };
                out.push(c);
                assert(out@ =~= before + row_text(*self, x as int).subrange(0, i + 1));
            }
            assert(row_text(*self, x as int).subrange(0, 12) =~= row_text(*self, x as int));
            if x == 2 || x == 5 {
                let ghost with_row = out@;
                out.push('-');
                out.push('-');
                out.push('-');
                out.push('+');
                out.push('-');
                out.push('-');
                out.push('-');
                out.push('+');
                out.push('-');
                out.push('-');
                out.push('-');
                out.push('\n');
                assert(out@ =~= with_row + divider_text());
            }
        }
        out
    }

    /// The cell at `point`: row `point.x()`, column `point.y()`.
    pub fn get_cell(&self, point: Point) -> (r: Cell)
        ensures
            r == self.cell(point.x().index() as int, point.y().index() as int),
    {
        self.cells[point.x().to_index()][point.y().to_index()]
    }

    /// Every cell carries a value.
    pub fn is_full(&self) -> (r: bool)
        ensures
            r == self.spec_full(),
    {
        for x in 0..9usize
            invariant
                forall|a: int, b: int|
                    0 <= a < x && 0 <= b < 9 ==> (#[trigger] self.cell(a, b)).spec_value() is Some,
        {
            for y in 0..9usize
                invariant
                    forall|a: int, b: int|
                        0 <= a < x && 0 <= b < 9 ==> (#[trigger] self.cell(a, b)).spec_value() is Some,
                    forall|b: int| 0 <= b < y ==> (#[trigger] self.cell(x as int, b)).spec_value() is Some,
                    x < 9,
            {
                if self.cells[x][y].is_empty() {
                    assert(self.cell(x as int, y as int).spec_value() is None);
                    return false;
                }
            }
        }
        true
    }

    pub fn get_row(&self, row: Position) -> (r: CellSet<Row>)
        ensures
            r.spec_cells() == self.row_cells(row.index() as int),
            r.spec_position() == row,
    {
        let r = CellSet::new(self.cells[row.to_index()], row);
        assert(r.spec_cells() =~= self.row_cells(row.index() as int));
        r
    }

    pub fn get_column(&self, col: Position) -> (r: CellSet<Column>)
        ensures
            r.spec_cells() == self.column_cells(col.index() as int),
            r.spec_position() == col,
    {
        let c = col.to_index();
        let mut new_col = [Cell::Empty;9];
        for i in 0..9usize
            invariant
                c == col.index(),
                forall|j: int| 0 <= j < i ==> #[trigger] new_col@[j] == self.cell(j, c as int),
        {
            new_col[i] = self.cells[i][c];
        }
        let r = CellSet::new(new_col, col);
        assert(r.spec_cells() =~= self.column_cells(col.index() as int));
        r
    }

    pub fn get_square(&self, pos: Position) -> (r: CellSet<Box>)
        ensures
            r.spec_cells() == self.box_cells(pos.index() as int),
            r.spec_position() == pos,
    {
        let points = pos.get_box_positions();
        let mut new_square = [Cell::Empty;9];
        for i in 0..9usize
            invariant
                forall|j: int|
                    0 <= j < 9 ==> (#[trigger] points@[j]).x().index() == box_first(pos.index(), j)
                        && points@[j].y().index() == box_second(pos.index(), j),
                forall|j: int|
                    0 <= j < i ==> #[trigger] new_square@[j] == self.cell(
                        box_first(pos.index(), j),
                        box_second(pos.index(), j),
                    ),
        {
            new_square[i] = self.get_cell(points[i]);
        }
        let r = CellSet::new(new_square, pos);
        assert(r.spec_cells() =~= self.box_cells(pos.index() as int));
        r
    }

    /// No row, column or box holds a value twice; empty cells are allowed,
    /// so on a full grid this says the grid is a solution.
    pub fn is_valid_solution(&self) -> (r: bool)
        ensures
            r == self.spec_valid(),
    {
        for k in 0..9usize
            invariant
                forall|j: int| 0 <= j < k ==> no_repeated_value(#[trigger] self.row_cells(j)),
        {
            if !self.get_row(Position::from_index(k)).is_valid() {
                assert(!no_repeated_value(self.row_cells(k as int)));
                return false;
            }
        }
        for k in 0..9usize
            invariant
                forall|j: int| 0 <= j < 9 ==> no_repeated_value(#[trigger] self.row_cells(j)),
                forall|j: int| 0 <= j < k ==> no_repeated_value(#[trigger] self.column_cells(j)),
        {
            if !self.get_column(Position::from_index(k)).is_valid() {
                assert(!no_repeated_value(self.column_cells(k as int)));
                return false;
            }
        }
        for k in 0..9usize
            invariant
                forall|j: int| 0 <= j < 9 ==> no_repeated_value(#[trigger] self.row_cells(j)),
                forall|j: int| 0 <= j < 9 ==> no_repeated_value(#[trigger] self.column_cells(j)),
                forall|j: int| 0 <= j < k ==> no_repeated_value(#[trigger] self.box_cells(j)),
        {
            if !self.get_square(Position::from_index(k)).is_valid() {
                assert(!no_repeated_value(self.box_cells(k as int)));
                return false;
            }
        }
        true
    }
}

impl std::str::FromStr for SudokuGrid {
    type Err = ();

    fn from_str(s: &str) -> Result<SudokuGrid, ()> {
        SudokuGrid::parse(s)
    }
}

} // verus!
