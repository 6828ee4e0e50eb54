use std::collections::HashSet;
use std::str::FromStr;

use zk_sudoku_prover::{
    Box, Cell, CellSet, Column, Point, Position, Row, SetType, SudokuGrid, Value,
};

const VALID: &str =
    "296541378851273694743698251915764832387152946624839517139486725478325169562917483";
const INVALID: &str =
    "296541378851273694743698251915764832387152946624839517139486725478325169562917482";

#[test]
fn test_get_row_position() {
    for pos in Position::ALL_POSITIONS {
        let row_positions = pos.get_row_positions();
        for (i, point) in row_positions.iter().enumerate() {
            assert_eq!(point.y(), pos);
            assert_eq!(point.x(), Position::from_index(i));
        }
        assert_eq!(row_positions.len(), 9);
    }
}

#[test]
fn test_get_column_position() {
    for pos in Position::ALL_POSITIONS {
        let col_positions = pos.get_column_positions();
        for (i, point) in col_positions.iter().enumerate() {
            assert_eq!(point.x(), pos);
            assert_eq!(point.y(), Position::from_index(i));
        }
        assert_eq!(col_positions.len(), 9);
    }
}

#[test]
fn test_get_square_position() {
    for pos in Position::ALL_POSITIONS {
        let square_x_start = (pos.to_index() % 3) * 3;
        let square_y_start = (pos.to_index() / 3) * 3;
        let square_positions = pos.get_box_positions();

        let mut seen_positions = HashSet::new();
        for point in square_positions.iter() {
            println!("{:?}", point);
            assert!(
                point.x().to_index() >= square_x_start && point.x().to_index() < square_x_start + 3,
                "x coordinate outside of expected square range"
            );
            assert!(
                point.y().to_index() >= square_y_start && point.y().to_index() < square_y_start + 3,
                "y coordinate outside of expected square range"
            );
            seen_positions.insert((point.x().to_index(), point.y().to_index()));
        }
        assert_eq!(
            seen_positions.len(),
            9,
            "Not all unique positions in the 3x3 grid are present"
        );
    }
}

#[test]
fn test_to_index() {
    assert_eq!(Position::ONE.to_index(), 0);
    assert_eq!(Position::TWO.to_index(), 1);
    assert_eq!(Position::THREE.to_index(), 2);
    assert_eq!(Position::FOUR.to_index(), 3);
    assert_eq!(Position::FIVE.to_index(), 4);
    assert_eq!(Position::SIX.to_index(), 5);
    assert_eq!(Position::SEVEN.to_index(), 6);
    assert_eq!(Position::EIGHT.to_index(), 7);
    assert_eq!(Position::NINE.to_index(), 8);
}

#[test]
fn test_from_index() {
    assert_eq!(Position::from_index(0), Position::ONE);
    assert_eq!(Position::from_index(1), Position::TWO);
    assert_eq!(Position::from_index(2), Position::THREE);
    assert_eq!(Position::from_index(3), Position::FOUR);
    assert_eq!(Position::from_index(4), Position::FIVE);
    assert_eq!(Position::from_index(5), Position::SIX);
    assert_eq!(Position::from_index(6), Position::SEVEN);
    assert_eq!(Position::from_index(7), Position::EIGHT);
    assert_eq!(Position::from_index(8), Position::NINE);
}

#[test]
fn test_try_from_u8() {
    assert_eq!(Position::try_from(1u8).unwrap(), Position::ONE);
    assert_eq!(Position::try_from(5u8).unwrap(), Position::FIVE);
    assert_eq!(Position::try_from(9u8).unwrap(), Position::NINE);

    assert!(Position::try_from(0u8).is_err());
    assert!(Position::try_from(10u8).is_err());
}

#[test]
fn test_all_positions_constant() {
    assert_eq!(Position::ALL_POSITIONS.len(), 9);
    for (i, pos) in Position::ALL_POSITIONS.iter().enumerate() {
        assert_eq!(pos.to_index(), i);
    }
}

#[test]
fn test_all_board_positions() {
    let positions: Vec<Point> = Position::all_board_positions();

    assert_eq!(positions.len(), 81);

    let unique_positions: HashSet<Point> = positions.iter().cloned().collect();
    assert_eq!(unique_positions.len(), 81);

    for x in Position::ALL_POSITIONS {
        for y in Position::ALL_POSITIONS {
            assert!(positions.contains(&Point::new(x, y)));
        }
    }
}

#[test]
fn test_index_operations() {
    let mut cells = [Cell::Empty; 9];
    cells[Position::THREE] = Cell::new_guess(3);
    cells[Position::SEVEN] = Cell::new_guess(7);

    assert_eq!(cells[Position::THREE], Cell::new_guess(3));
    assert_eq!(cells[Position::SEVEN], Cell::new_guess(7));
    assert_eq!(cells[Position::ONE], Cell::Empty);

    let mut grid = [[Cell::Empty; 9]; 9];
    grid[Position::TWO][Position::FOUR] = Cell::new_guess(5);

    assert_eq!(grid[Position::TWO][Position::FOUR], Cell::new_guess(5));
    assert_eq!(grid[Position::TWO][Position::ONE], Cell::Empty);
}

#[test]
fn test_correct_row() {
    let cells = [
        Cell::new_guess(1),
        Cell::new_guess(2),
        Cell::new_guess(3),
        Cell::new_guess(4),
        Cell::new_hint(5),
        Cell::new_guess(6),
        Cell::new_guess(7),
        Cell::new_guess(8),
        Cell::new_guess(9),
    ];
    let set: CellSet<Row> = CellSet::new(cells, Position::ONE);
    assert!(set.is_valid());
}

#[test]
fn test_incorrect_row_with_duplicates() {
    let cells = [
        Cell::new_guess(9),
        Cell::new_guess(2),
        Cell::new_guess(3),
        Cell::new_guess(4),
        Cell::new_guess(5),
        Cell::new_hint(6),
        Cell::new_guess(7),
        Cell::new_guess(8),
        Cell::new_guess(9),
    ];
    let set: CellSet<Row> = CellSet::new(cells, Position::ONE);
    assert!(!set.is_valid());
}

#[test]
fn test_incorrect_row_with_empty() {
    let cells = [
        Cell::new_guess(1),
        Cell::new_guess(2),
        Cell::new_guess(3),
        Cell::new_guess(4),
        Cell::new_hint(5),
        Cell::new_empty(),
        Cell::new_guess(7),
        Cell::new_guess(8),
        Cell::new_guess(9),
    ];
    let set: CellSet<Row> = CellSet::new(cells, Position::ONE);
    assert!(set.is_valid());
}

#[test]
fn test_correct_column() {
    let cells = [
        Cell::new_guess(1),
        Cell::new_guess(2),
        Cell::new_guess(3),
        Cell::new_guess(4),
        Cell::new_hint(5),
        Cell::new_guess(6),
        Cell::new_guess(7),
        Cell::new_guess(8),
        Cell::new_guess(9),
    ];
    let set: CellSet<Column> = CellSet::new(cells, Position::THREE);
    assert!(set.is_valid());
}

#[test]
fn test_incorrect_column_with_empty() {
    let cells = [
        Cell::new_guess(1),
        Cell::new_guess(2),
        Cell::new_guess(3),
        Cell::new_guess(4),
        Cell::new_empty(),
        Cell::new_guess(6),
        Cell::new_guess(7),
        Cell::new_guess(8),
        Cell::new_guess(9),
    ];
    let set: CellSet<Column> = CellSet::new(cells, Position::ONE);
    assert!(set.is_valid());
}

#[test]
fn test_correct_square() {
    let cells = [
        Cell::new_guess(1),
        Cell::new_guess(5),
        Cell::new_guess(3),
        Cell::new_guess(4),
        Cell::new_hint(9),
        Cell::new_guess(2),
        Cell::new_guess(6),
        Cell::new_guess(7),
        Cell::new_guess(8),
    ];
    let set: CellSet<Box> = CellSet::new(cells, Position::ONE);
    assert!(set.is_valid());
}

#[test]
fn test_getters() {
    let cells = [Cell::new_guess(1); 9];
    let position = Position::FIVE;
    let set: CellSet<Row> = CellSet::new(cells, position);

    assert_eq!(set.position(), position);
    assert_eq!(set.cells(), &cells);
}

#[test]
fn test_set_type() {
    assert_eq!(Row::get_type(), "Row");
    assert_eq!(Column::get_type(), "Column");
    assert_eq!(Box::get_type(), "Box");
}

#[test]
fn set_completeness_and_emptiness() {
    let full: CellSet<Row> = CellSet::new(
        [
            Cell::new_guess(1),
            Cell::new_guess(2),
            Cell::new_guess(3),
            Cell::new_guess(4),
            Cell::new_hint(5),
            Cell::new_guess(6),
            Cell::new_guess(7),
            Cell::new_guess(8),
            Cell::new_guess(9),
        ],
        Position::ONE,
    );
    assert!(full.is_complete());
    assert!(full.is_filled());
    assert!(!full.is_empty());

    let empty: CellSet<Row> = CellSet::new([Cell::Empty; 9], Position::TWO);
    assert!(empty.is_empty());
    assert!(empty.is_valid());
    assert!(!empty.is_complete());

    let repeated: CellSet<Row> = CellSet::new([Cell::new_guess(4); 9], Position::TWO);
    assert!(repeated.is_filled());
    assert!(!repeated.is_complete());
}

#[test]
fn value_conversions() {
    for (i, v) in Value::ALL_VALUES.iter().enumerate() {
        assert_eq!(v.to_index(), i);
        assert_eq!(v.to_numeric() as usize, i + 1);
        assert_eq!(Value::from_index(i), *v);
        assert_eq!(Value::new((i + 1) as u8), *v);
        assert_eq!(Value::from_number((i + 1) as u64), Some(*v));
    }
    assert_eq!(Value::from_number(0), None);
    assert_eq!(Value::from_number(10), None);
}

#[test]
fn cell_queries_and_characters() {
    assert_eq!(Cell::hint_from_char('7'), Cell::Hint(Value::Seven));
    assert_eq!(Cell::guess_from_char('1'), Cell::Guess(Value::One));
    for c in ['.', '0', '_'] {
        assert_eq!(Cell::hint_from_char(c), Cell::Empty);
        assert_eq!(Cell::guess_from_char(c), Cell::Empty);
    }
    let hint = Cell::new_hint(4);
    assert!(hint.is_hint() && hint.is_filled() && !hint.is_guess() && !hint.is_empty());
    assert_eq!(hint.value(), Some(Value::Four));
    assert_eq!(hint.value_as_index(), Some(4));
    assert_eq!(Cell::new_empty().value_as_index(), None);
    assert_eq!(hint.to_char(), '4');
    assert_eq!(Cell::Empty.to_char(), '.');
}

#[test]
fn grid_parsing() {
    let grid = SudokuGrid::from_str(VALID).unwrap();
    assert!(grid.is_full());
    assert_eq!(
        grid.get_cell(Point::new(Position::ONE, Position::ONE)),
        Cell::Guess(Value::Two)
    );
    assert_eq!(
        grid.get_cell(Point::new(Position::NINE, Position::NINE)),
        Cell::Guess(Value::Three)
    );
    assert!(SudokuGrid::from_str(&VALID[..80]).is_err());
    assert!(SudokuGrid::from_str(&format!("{}1", VALID)).is_err());
    let with_letter = format!("x{}", &VALID[1..]);
    assert!(SudokuGrid::from_str(&with_letter).is_err());
    let with_accent = format!("é{}", &VALID[2..]);
    assert!(SudokuGrid::from_str(&with_accent).is_err());
    let sparse = format!("._0{}", &VALID[3..]);
    let grid = SudokuGrid::parse(&sparse).unwrap();
    assert!(!grid.is_full());
    assert_eq!(grid.get_cell(Point::new(Position::ONE, Position::TWO)), Cell::Empty);
}

#[test]
fn grid_validity() {
    let valid = SudokuGrid::from_str(VALID).unwrap();
    assert!(valid.is_valid_solution());
    let invalid = SudokuGrid::from_str(INVALID).unwrap();
    assert!(!invalid.is_valid_solution());
    assert!(SudokuGrid::new().is_valid_solution());
    assert!(!SudokuGrid::new().is_full());
    assert!(valid.get_row(Position::ONE).is_complete());
    assert!(valid.get_column(Position::FIVE).is_complete());
    assert!(valid.get_square(Position::NINE).is_complete());
    assert!(!invalid.get_row(Position::NINE).is_valid());
    assert!(!invalid.get_column(Position::NINE).is_valid());
    assert!(!invalid.get_square(Position::NINE).is_valid());
    assert!(invalid.get_row(Position::ONE).is_valid());
}

#[test]
fn grid_box_contents() {
    let grid = SudokuGrid::from_str(VALID).unwrap();
    let square = grid.get_square(Position::TWO);
    // Box 2 starts at row 3, column 0: rows "915", "387", "624".
    let expected = [9, 1, 5, 3, 8, 7, 6, 2, 4];
    for (cell, n) in square.cells().iter().zip(expected) {
        assert_eq!(*cell, Cell::new_guess(n));
    }
    let column = grid.get_column(Position::TWO);
    let expected = [9, 5, 4, 1, 8, 2, 3, 7, 6];
    for (cell, n) in column.cells().iter().zip(expected) {
        assert_eq!(*cell, Cell::new_guess(n));
    }
}

#[test]
fn grid_display_layout() {
    let grid = SudokuGrid::from_str(VALID).unwrap();
    let text: String = grid.display_chars().into_iter().collect();
    let lines: Vec<&str> = text.lines().collect();
    assert_eq!(lines.len(), 11);
    assert_eq!(lines[0], "296|541|378");
    assert_eq!(lines[3], "---+---+---");
    assert_eq!(lines[4], "915|764|832");
    assert_eq!(lines[7], "---+---+---");
    assert_eq!(lines[10], "562|917|483");
    assert_eq!(text.len(), 132);

    let sparse = SudokuGrid::from_str(&format!("._0{}", &VALID[3..])).unwrap();
    let text: String = sparse.display_chars().into_iter().collect();
    assert!(text.starts_with("...|541|378\n"));
}
