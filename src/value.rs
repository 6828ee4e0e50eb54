use vstd::prelude::*;

verus! {

/// One of the nine symbols of a Sudoku grid, also used as one of nine colours.
#[derive(Debug, Clone, Copy, PartialEq, Eq, Hash, PartialOrd, Ord, Structural)]
pub enum Value {
    One,
    Two,
    Three,
    Four,
    Five,
    Six,
    Seven,
    Eight,
    Nine,
}

impl Value {
    pub const ALL_VALUES: [Value; 9] = [
        Value::One,
        Value::Two,
        Value::Three,
        Value::Four,
        Value::Five,
        Value::Six,
        Value::Seven,
        Value::Eight,
        Value::Nine,
    ];

    /// The position of the value in `1..=9`, counted from zero.
    pub open spec fn index(self) -> nat {
        match self {
            Value::One => 0,
            Value::Two => 1,
            Value::Three => 2,
            Value::Four => 3,
            Value::Five => 4,
            Value::Six => 5,
            Value::Seven => 6,
            Value::Eight => 7,
            Value::Nine => 8,
        }
    }

    /// The number that the value stands for, in `1..=9`.
    pub open spec fn numeric(self) -> nat {
        self.index() + 1
    }

    /// The value at position `i` (in `0..9`).
    pub open spec fn at_index(i: int) -> Value {
        if i <= 0 {
            Value::One
        } else if i == 1 {
            Value::Two
        } else if i == 2 {
            Value::Three
        } else if i == 3 {
            Value::Four
        } else if i == 4 {
            Value::Five
        } else if i == 5 {
            Value::Six
        } else if i == 6 {
            Value::Seven
        } else if i == 7 {
            Value::Eight
        } else {
            Value::Nine
        }
    }

    /// Two values are equal exactly when their positions are.
    pub proof fn lemma_index_injective(a: Value, b: Value)
        ensures
            (a.index() == b.index()) == (a == b),
            a.index() < 9,
            Value::at_index(a.index() as int) == a,
    {
    }

    /// The value whose number is `n`, which must lie in `1..=9`.
    pub fn new(n: u8) -> (r: Value)
        requires
            1 <= n <= 9,
        ensures
            r.numeric() == n,
    {
        Value::from_index((n - 1) as usize)
    }

    /// The value whose number is `n`, or `None` where `n` is not in `1..=9`.
    pub fn from_number(n: u64) -> (r: Option<Value>)
        ensures
            r is Some <==> 1 <= n <= 9,
            r is Some ==> r->0.numeric() == n,
    {
        if 1 <= n && n <= 9 {
            Some(Value::from_index((n - 1) as usize))
        } else {
            None
        }
    }

    /// The value that the digit `c` stands for, or `None` when `c` is not
    /// one of `1..=9`.
    pub fn from_char(c: char) -> (r: Option<Value>)
        ensures
            r is Some <==> '1' <= c <= '9',
            r is Some ==> r->0 == Value::at_index(c as int - '1' as int),
    {
        if '1' <= c && c <= '9' {
            Some(Value::from_index(((c as u32) - ('1' as u32)) as usize))
        } else {
            None
        }
    }

    pub fn to_numeric(self) -> (r: u8)
        ensures
            r == self.numeric(),
    {
        match self {
            Value::One => 1,
            Value::Two => 2,
            Value::Three => 3,
            Value::Four => 4,
            Value::Five => 5,
            Value::Six => 6,
            Value::Seven => 7,
            Value::Eight => 8,
            Value::Nine => 9,
        }
    }

    pub fn to_index(self) -> (r: usize)
        ensures
            r == self.index(),
            r < 9,
    {
        match self {
            Value::One => 0,
            Value::Two => 1,
            Value::Three => 2,
            Value::Four => 3,
            Value::Five => 4,
            Value::Six => 5,
            Value::Seven => 6,
            Value::Eight => 7,
            Value::Nine => 8,
        }
    }

    pub fn from_index(index: usize) -> (r: Value)
        requires
            index < 9,
        ensures
            r.index() == index,
            r == Value::at_index(index as int),
    {
        match index {
            0 => Value::One,
            1 => Value::Two,
            2 => Value::Three,
            3 => Value::Four,
            4 => Value::Five,
            5 => Value::Six,
            6 => Value::Seven,
            7 => Value::Eight,
            _ => Value::Nine,
        }
    }
}

} // verus!
