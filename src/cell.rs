use vstd::prelude::*;

use crate::value::Value;

verus! {

/// A cell of the grid: empty, a clue of the puzzle, or a value the Prover
/// supplies.
#[derive(Debug, Clone, Copy, PartialEq, Eq, Default, Hash, Structural)]
pub enum Cell {
    #[default]
    Empty,
    Guess(Value),
    Hint(Value),
}

/// What a grid character stands for: `Some(None)` for an empty cell,
/// `Some(Some(v))` for the value `v`, `None` for a character that is not
/// allowed.
pub open spec fn char_meaning(c: char) -> Option<Option<Value>> {
    if c == '.' || c == '0' || c == '_' {
        Some(None)
    } else if '1' <= c && c <= '9' {
        Some(Some(Value::at_index(c as int - '1' as int)))
    } else {
        None
    }
}

/// The digit that shows `v`.
pub open spec fn digit_char(v: Value) -> char {
    match v {
        Value::One => '1',
        Value::Two => '2',
        Value::Three => '3',
        Value::Four => '4',
        Value::Five => '5',
        Value::Six => '6',
        Value::Seven => '7',
        Value::Eight => '8',
        Value::Nine => '9',
    }
}

/// The character that shows a cell: its digit, or `.` when empty.
pub open spec fn cell_char(c: Cell) -> char {
    match c.spec_value() {
        None => '.',
        Some(v) => digit_char(v),
    }
}

impl Cell {
    /// The value the cell carries, if any.
    pub open spec fn spec_value(&self) -> Option<Value> {
        match *self {
            Cell::Empty => None,
            Cell::Guess(v) => Some(v),
            Cell::Hint(v) => Some(v),
        }
    }

    pub fn new_empty() -> (r: Cell)
        ensures
            r == Cell::Empty,
    {
        Cell::Empty
    }

    /// A Prover's value, numbered `value` in `1..=9`.
    pub fn new_guess(value: u8) -> (r: Cell)
        requires
            1 <= value <= 9,
        ensures
            r matches Cell::Guess(v) && v.numeric() == value,
    {
        Cell::Guess(Value::new(value))
    }

    /// A clue, numbered `value` in `1..=9`.
    pub fn new_hint(value: u8) -> (r: Cell)
        requires
            1 <= value <= 9,
        ensures
            r matches Cell::Hint(v) && v.numeric() == value,
    {
        Cell::Hint(Value::new(value))
    }

    pub fn is_empty(&self) -> (r: bool)
        ensures
            r == (*self is Empty),
    {
        matches!(self, Cell::Empty)
    }

    pub fn is_filled(&self) -> (r: bool)
        ensures
            r == !(*self is Empty),
    {
        !self.is_empty()
    }

    pub fn is_hint(&self) -> (r: bool)
        ensures
            r == (*self is Hint),
    {
        matches!(self, Cell::Hint(_))
    }

    pub fn is_guess(&self) -> (r: bool)
        ensures
            r == (*self is Guess),
    {
        matches!(self, Cell::Guess(_))
    }

    #[verifier::when_used_as_spec(spec_value)]
    pub fn value(&self) -> (r: Option<Value>)
        ensures
            r == self.spec_value(),
    {
        match self {
            Cell::Empty => None,
            Cell::Guess(val) => Some(*val),
            Cell::Hint(val) => Some(*val),
        }
    }

    /// The number of the cell's value, in `1..=9`, if it has one.
    pub fn value_as_index(&self) -> (r: Option<usize>)
        ensures
            r == (match self.spec_value() {
                Some(v) => Some(v.numeric() as usize),
                None => None,
            }),
    {
        match self.value() {
            Some(v) => Some(v.to_numeric() as usize),
            None => None,
        }
    }

    /// The clue that `c` stands for: a digit `1..=9` gives a hint, any of
    /// `.`, `0`, `_` an empty cell.
    pub fn hint_from_char(c: char) -> (r: Cell)
        requires
            char_meaning(c) is Some,
        ensures
            r == (match char_meaning(c)->0 {
                Some(v) => Cell::Hint(v),
                None => Cell::Empty,
            }),
    {
        match Self::value_of_char(c) {
            Some(v) => Cell::Hint(v),
            None => Cell::Empty,
        }
    }

    /// The Prover's value that `c` stands for: a digit `1..=9` gives a
    /// guess, any of `.`, `0`, `_` an empty cell.
    pub fn guess_from_char(c: char) -> (r: Cell)
        requires
            char_meaning(c) is Some,
        ensures
            r == (match char_meaning(c)->0 {
                Some(v) => Cell::Guess(v),
                None => Cell::Empty,
            }),
    {
        match Self::value_of_char(c) {
            Some(v) => Cell::Guess(v),
            None => Cell::Empty,
        }
    }

    fn value_of_char(c: char) -> (r: Option<Value>)
        requires
            char_meaning(c) is Some,
        ensures
            r == char_meaning(c)->0,
    {
        Value::from_char(c)
    }

    /// The character that shows the cell: its digit, or `.` when empty.
    pub fn to_char(&self) -> (r: char)
        ensures
            r == cell_char(*self),
            char_meaning(r) == Some(self.spec_value()),
    {
        match self.value() {
            None => '.',
            Some(v) => match v {
                Value::One => '1',
                Value::Two => '2',
                Value::Three => '3',
                Value::Four => '4',
                Value::Five => '5',
                Value::Six => '6',
                Value::Seven => '7',
                Value::Eight => '8',
                Value::Nine => '9',
            },
        }
    }
}

} // verus!
