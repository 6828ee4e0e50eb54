//! The reduction is faithful: a full grid is a solution exactly when its
//! colouring graph is properly coloured by the grid's values.
use vstd::prelude::*;

use crate::graph::{adjacent, node_label, same_unit, Graph};
use crate::grid::SudokuGrid;
use crate::position::{box_first, box_second};
use crate::set::no_repeated_value;
use crate::value::Value;

verus! {

/// Distinct clique nodes carry distinct values.
proof fn lemma_clique_labels(a: int, b: int)
    requires
        0 <= a < 9,
        0 <= b < 9,
        a != b,
    ensures
        Value::at_index(a) != Value::at_index(b),
{
}

/// Where the cell in row `x`, column `y` stands in its box.
proof fn lemma_box_coordinates(x: int, y: int)
    requires
        0 <= x < 9,
        0 <= y < 9,
    ensures
        ({
            let k = x / 3 + 3 * (y / 3);
            let i = 3 * (x % 3) + y % 3;
            &&& 0 <= k < 9
            &&& 0 <= i < 9
            &&& box_first(k as nat, i) == x
            &&& box_second(k as nat, i) == y
        }),
{
    let k = x / 3 + 3 * (y / 3);
    assert(k % 3 == x / 3 && k / 3 == y / 3);
}

/// A cell node's box is determined by its row and column thirds.
proof fn lemma_node_thirds(p: int)
    requires
        0 <= p < 81,
    ensures
        p / 27 == (p / 9) / 3,
{
}

/// In a valid full grid, two cells of one box carry different values.
proof fn lemma_valid_separates_box(grid: SudokuGrid, xp: int, yp: int, xq: int, yq: int)
    requires
        grid.spec_full(),
        grid.spec_valid(),
        0 <= xp < 9,
        0 <= yp < 9,
        0 <= xq < 9,
        0 <= yq < 9,
        xp != xq || yp != yq,
        xp / 3 == xq / 3,
        yp / 3 == yq / 3,
    ensures
        grid.cell(xp, yp).spec_value() != grid.cell(xq, yq).spec_value(),
{
    assert(grid.cell(xp, yp).spec_value() is Some);
    assert(grid.cell(xq, yq).spec_value() is Some);
    lemma_box_coordinates(xp, yp);
    lemma_box_coordinates(xq, yq);
    let k = xp / 3 + 3 * (yp / 3);
    let ip = 3 * (xp % 3) + yp % 3;
    let iq = 3 * (xq % 3) + yq % 3;
    let s = grid.box_cells(k);
    assert(no_repeated_value(s));
    assert(s[ip] == grid.cell(xp, yp));
    assert(s[iq] == grid.cell(xq, yq));
}

/// In a valid full grid, two cells of one row, column or box carry
/// different values.
proof fn lemma_valid_separates_cells(grid: SudokuGrid, p: int, q: int)
    requires
        grid.spec_full(),
        grid.spec_valid(),
        0 <= p < 81,
        0 <= q < 81,
        p != q,
        same_unit(p, q),
    ensures
        node_label(grid, p) != node_label(grid, q),
{
    let xp = p / 9;
    let yp = p % 9;
    let xq = q / 9;
    let yq = q % 9;
    assert(grid.cell(xp, yp).spec_value() is Some);
    assert(grid.cell(xq, yq).spec_value() is Some);
    if xp == xq {
        let s = grid.row_cells(xp);
        assert(no_repeated_value(s));
        assert(s[yp] == grid.cell(xp, yp));
        assert(s[yq] == grid.cell(xq, yq));
    } else if yp == yq {
        let s = grid.column_cells(yp);
        assert(no_repeated_value(s));
        assert(s[xp] == grid.cell(xp, yp));
        assert(s[xq] == grid.cell(xq, yq));
    } else {
        lemma_node_thirds(p);
        lemma_node_thirds(q);
        lemma_valid_separates_box(grid, xp, yp, xq, yq);
    }
}

/// Two cells of one unit with the same value make the colouring improper.
proof fn lemma_equal_neighbours(graph: Graph, grid: SudokuGrid, a: int, b: int)
    requires
        graph.represents(grid),
        0 <= a < 81,
        0 <= b < 81,
        a != b,
        same_unit(a, b),
        node_label(grid, a) == node_label(grid, b),
    ensures
        !graph.is_proper_colouring(),
{
    let p = if a < b { a } else { b };
    let q = if a < b { b } else { a };
    assert(adjacent(grid, p, q));
    assert(graph.edge_list().contains((p as usize, q as usize)));
    let e = choose|e: int|
        0 <= e < graph.edge_list().len() && graph.edge_list()[e] == (p as usize, q as usize);
    assert(graph.labels()[p] == node_label(grid, p));
    assert(graph.labels()[q] == node_label(grid, q));
}

/// In a valid full grid, the two ends of every edge carry different values.
proof fn lemma_valid_is_proper(graph: Graph, grid: SudokuGrid)
    requires
        grid.spec_full(),
        grid.spec_valid(),
        graph.represents(grid),
    ensures
        graph.is_proper_colouring(),
{
    assert forall|e: int| 0 <= e < graph.edge_list().len() implies graph.labels()[(
    #[trigger] graph.edge_list()[e]).0 as int] != graph.labels()[graph.edge_list()[e].1 as int] by {
        let p = graph.edge_list()[e].0 as int;
        let q = graph.edge_list()[e].1 as int;
        assert(adjacent(grid, p, q));
        assert(graph.labels()[p] == node_label(grid, p));
        assert(graph.labels()[q] == node_label(grid, q));
        if q < 81 {
            lemma_valid_separates_cells(grid, p, q);
        } else if p >= 81 {
            lemma_clique_labels(p - 81, q - 81);
        } else {
            assert(Value::at_index(q - 81).index() == q - 81);
        }
    }
}

/// Under a proper colouring no row repeats a value.
proof fn lemma_proper_rows(graph: Graph, grid: SudokuGrid)
    requires
        grid.spec_full(),
        graph.represents(grid),
        graph.is_proper_colouring(),
    ensures
        forall|k: int| 0 <= k < 9 ==> no_repeated_value(#[trigger] grid.row_cells(k)),
{
    assert forall|k: int| 0 <= k < 9 implies no_repeated_value(#[trigger] grid.row_cells(k)) by {
        let s = grid.row_cells(k);
        if !no_repeated_value(s) {
            let (i, j) = choose|i: int, j: int|
                0 <= i < s.len() && 0 <= j < s.len() && i != j && (#[trigger] s[i]).spec_value() is Some
                    && (#[trigger] s[j]).spec_value() is Some && s[i].spec_value() == s[j].spec_value();
            let a = 9 * k + i;
            let b = 9 * k + j;
            assert(a / 9 == k && a % 9 == i && b / 9 == k && b % 9 == j);
            lemma_equal_neighbours(graph, grid, a, b);
        }
    }
}

/// Under a proper colouring no column repeats a value.
proof fn lemma_proper_columns(graph: Graph, grid: SudokuGrid)
    requires
        grid.spec_full(),
        graph.represents(grid),
        graph.is_proper_colouring(),
    ensures
        forall|k: int| 0 <= k < 9 ==> no_repeated_value(#[trigger] grid.column_cells(k)),
{
    assert forall|k: int| 0 <= k < 9 implies no_repeated_value(#[trigger] grid.column_cells(k)) by {
        let s = grid.column_cells(k);
        if !no_repeated_value(s) {
            let (i, j) = choose|i: int, j: int|
                0 <= i < s.len() && 0 <= j < s.len() && i != j && (#[trigger] s[i]).spec_value() is Some
                    && (#[trigger] s[j]).spec_value() is Some && s[i].spec_value() == s[j].spec_value();
            let a = 9 * i + k;
            let b = 9 * j + k;
            assert(a / 9 == i && a % 9 == k && b / 9 == j && b % 9 == k);
            lemma_equal_neighbours(graph, grid, a, b);
        }
    }
}

/// The node of the `i`-th cell of box `k` lies in that box.
proof fn lemma_box_node(k: int, i: int)
    requires
        0 <= k < 9,
        0 <= i < 9,
    ensures
        ({
            let x = box_first(k as nat, i);
            let y = box_second(k as nat, i);
            let a = 9 * x + y;
            &&& 0 <= x < 9
            &&& 0 <= y < 9
            &&& a / 9 == x
            &&& a % 9 == y
            &&& a / 27 == k % 3
            &&& (a % 9) / 3 == k / 3
        }),
{
}

/// Under a proper colouring no box repeats a value.
proof fn lemma_proper_boxes(graph: Graph, grid: SudokuGrid)
    requires
        grid.spec_full(),
        graph.represents(grid),
        graph.is_proper_colouring(),
    ensures
        forall|k: int| 0 <= k < 9 ==> no_repeated_value(#[trigger] grid.box_cells(k)),
{
    assert forall|k: int| 0 <= k < 9 implies no_repeated_value(#[trigger] grid.box_cells(k)) by {
        let s = grid.box_cells(k);
        if !no_repeated_value(s) {
            let (i, j) = choose|i: int, j: int|
                0 <= i < s.len() && 0 <= j < s.len() && i != j && (#[trigger] s[i]).spec_value() is Some
                    && (#[trigger] s[j]).spec_value() is Some && s[i].spec_value() == s[j].spec_value();
            lemma_box_node(k, i);
            lemma_box_node(k, j);
            let a = 9 * box_first(k as nat, i) + box_second(k as nat, i);
            let b = 9 * box_first(k as nat, j) + box_second(k as nat, j);
            assert(a != b);
            lemma_equal_neighbours(graph, grid, a, b);
        }
    }
}

/// A full grid is a valid Sudoku solution exactly when its colouring graph
/// is properly coloured: no edge joins two nodes of the same value.
pub proof fn lemma_proper_colouring_iff_valid(graph: Graph, grid: SudokuGrid)
    requires
        grid.spec_full(),
        graph.represents(grid),
    ensures
        grid.spec_valid() <==> graph.is_proper_colouring(),
{
    if grid.spec_valid() {
        lemma_valid_is_proper(graph, grid);
    }
    if graph.is_proper_colouring() {
        lemma_proper_rows(graph, grid);
        lemma_proper_columns(graph, grid);
        lemma_proper_boxes(graph, grid);
    }
}

} // verus!
