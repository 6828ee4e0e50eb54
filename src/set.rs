use std::marker::PhantomData;

use vstd::prelude::*;

use crate::cell::Cell;
use crate::position::Position;
use crate::value::Value;

verus! {

/// Marks a set of cells as a row.
pub struct Row;

/// Marks a set of cells as a column.
pub struct Column;

/// Marks a set of cells as a 3×3 box.
pub struct Box;

/// The kind of a set of nine cells.
pub trait SetType {
    /// The name of the kind.
    fn get_type() -> &'static str;
}

impl SetType for Row {
    fn get_type() -> &'static str {
        "Row"
    }
}

impl SetType for Column {
    fn get_type() -> &'static str {
        "Column"
    }
}

impl SetType for Box {
    fn get_type() -> &'static str {
        "Box"
    }
}

/// No two filled cells of `cells` carry the same value.
pub open spec fn no_repeated_value(cells: Seq<Cell>) -> bool {
    forall|i: int, j: int|
        0 <= i < cells.len() && 0 <= j < cells.len() && i != j && (#[trigger] cells[i]).spec_value()
            is Some && (#[trigger] cells[j]).spec_value() is Some ==> cells[i].spec_value()
            != cells[j].spec_value()
}

/// Every cell of `cells` carries a value.
pub open spec fn all_filled(cells: Seq<Cell>) -> bool {
    forall|i: int| 0 <= i < cells.len() ==> (#[trigger] cells[i]).spec_value() is Some
}

/// Every cell of `cells` is empty.
pub open spec fn all_empty(cells: Seq<Cell>) -> bool {
    forall|i: int| 0 <= i < cells.len() ==> (#[trigger] cells[i]).spec_value() is None
}

/// Relies on itertools' `Itertools::all_unique`, which holds exactly when no
/// two items of the iterator are equal.
#[verifier::external_body]
fn all_unique(items: &Vec<u8>) -> (r: bool)
    ensures
        r == items@.no_duplicates(),
{
    itertools::Itertools::all_unique(&mut items.iter())
}

/// Nine cells of a grid that must hold distinct values: a row, a column or
/// a box, as `T` says.
pub struct CellSet<T: SetType> {
    cells: [Cell; 9],
    position: Position,
    set_type: PhantomData<T>,
}

impl<T: SetType> CellSet<T> {
    pub closed spec fn spec_cells(&self) -> Seq<Cell> {
        self.cells@
    }

    pub closed spec fn spec_position(&self) -> Position {
        self.position
    }

    pub fn new(cells: [Cell; 9], position: Position) -> (r: CellSet<T>)
        ensures
            r.spec_cells() == cells@,
            r.spec_position() == position,
    {
        CellSet { cells, position, set_type: PhantomData }
    }

    pub fn cells(&self) -> (r: &[Cell; 9])
        ensures
            r@ == self.spec_cells(),
    {
        &self.cells
    }

    pub fn position(&self) -> (r: Position)
        ensures
            r == self.spec_position(),
    {
        self.position
    }

    /// Every cell is filled and no value repeats: the nine values are
    /// exactly `1..=9`.
    pub fn is_complete(&self) -> (r: bool)
        ensures
            r == (all_filled(self.spec_cells()) && no_repeated_value(self.spec_cells())),
    {
        if !self.is_filled() {
            return false;
        }
        self.is_valid()
    }

    /// No value repeats among the filled cells; empty cells are allowed.
    pub fn is_valid(&self) -> (r: bool)
        ensures
            r == no_repeated_value(self.spec_cells()),
    {
        let ghost cells = self.cells@;
        let mut values: Vec<u8> = Vec::new();
        let ghost mut origin: Seq<int> = Seq::empty();
        for i in 0..9usize
            invariant
                cells == self.cells@,
                cells.len() == 9,
                values@.len() == origin.len(),
                forall|k: int|
                    0 <= k < origin.len() ==> 0 <= #[trigger] origin[k] < i && cells[origin[k]].spec_value()
                        is Some && values@[k] == cells[origin[k]].spec_value()->0.numeric(),
                forall|k1: int, k2: int|
                    0 <= k1 < k2 < origin.len() ==> #[trigger] origin[k1] < #[trigger] origin[k2],
                forall|j: int|
                    0 <= j < i && (#[trigger] cells[j]).spec_value() is Some ==> exists|k: int|
                        0 <= k < origin.len() && origin[k] == j,
        {
            match self.cells[i].value() {
                Some(v) => {
                    values.push(v.to_numeric());
                    proof {
                        let before = origin;
                        origin = origin.push(i as int);
                        assert forall|j: int|
                            0 <= j <= i && (#[trigger] cells[j]).spec_value() is Some implies exists|k: int|
                                0 <= k < origin.len() && origin[k] == j by {
                            if j < i {
                                let k = choose|k: int| 0 <= k < before.len() && before[k] == j;
                                assert(origin[k] == j);
                            } else {
                                assert(origin[origin.len() - 1] == j);
                            }
                        }
                    }
                },
                None => {},
            }
        }
        let r = all_unique(&values);
        proof {
            if r {
                assert forall|i: int, j: int|
                    0 <= i < cells.len() && 0 <= j < cells.len() && i != j && (#[trigger] cells[i]).spec_value()
                        is Some && (#[trigger] cells[j]).spec_value() is Some implies cells[i].spec_value()
                        != cells[j].spec_value() by {
                    let ki = choose|k: int| 0 <= k < origin.len() && origin[k] == i;
                    let kj = choose|k: int| 0 <= k < origin.len() && origin[k] == j;
                    assert(values@[ki] != values@[kj]);
                }
            } else {
                let (k1, k2) = choose|k1: int, k2: int|
                    0 <= k1 < values@.len() && 0 <= k2 < values@.len() && k1 != k2 && values@[k1] == values@[k2];
                let a = cells[origin[k1]].spec_value()->0;
                let b = cells[origin[k2]].spec_value()->0;
                Value::lemma_index_injective(a, b);
                if k1 < k2 {
                    assert(origin[k1] < origin[k2]);
                } else {
                    assert(origin[k2] < origin[k1]);
                }
                assert(cells[origin[k1]].spec_value() == cells[origin[k2]].spec_value());
            }
        }
        r
    }

    /// Every cell is empty.
    pub fn is_empty(&self) -> (r: bool)
        ensures
            r == all_empty(self.spec_cells()),
    {
        for i in 0..9usize
            invariant
                forall|j: int| 0 <= j < i ==> (#[trigger] self.cells@[j]).spec_value() is None,
        {
            if !self.cells[i].is_empty() {
                return false;
            }
        }
        true
    }

    /// Every cell is filled.
    pub fn is_filled(&self) -> (r: bool)
        ensures
            r == all_filled(self.spec_cells()),
    {
        for i in 0..9usize
            invariant
                forall|j: int| 0 <= j < i ==> (#[trigger] self.cells@[j]).spec_value() is Some,
        {
            if !self.cells[i].is_filled() {
                return false;
            }
        }
        true
    }
}

} // verus!
