use petgraph::graph::Graph as PetGraph;
use vstd::prelude::*;

use crate::cell::Cell;
use crate::grid::SudokuGrid;
use crate::point::Point;
use crate::position::Position;
use crate::value::Value;

verus! {

#[verifier::external_type_specification]
#[verifier::external_body]
#[verifier::reject_recursive_types(N)]
#[verifier::reject_recursive_types(E)]
#[verifier::reject_recursive_types(Ty)]
#[verifier::reject_recursive_types(Ix)]
pub struct ExPetGraph<N, E, Ty, Ix>(PetGraph<N, E, Ty, Ix>);

#[verifier::external_type_specification]
#[verifier::external_body]
pub struct ExUndirected(petgraph::Undirected);

/// The node weights of a petgraph graph, by node index.
pub uninterp spec fn pet_nodes(g: petgraph::graph::UnGraph<SudokuNode, ()>) -> Seq<SudokuNode>;

/// The edges of a petgraph graph, by edge index, each as the pair of the
/// node indices it was added with.
pub uninterp spec fn pet_edges(g: petgraph::graph::UnGraph<SudokuNode, ()>) -> Seq<(usize, usize)>;

/// Relies on petgraph's `Graph::new_undirected`: no nodes and no edges.
#[verifier::external_body]
fn pet_new() -> (g: petgraph::graph::UnGraph<SudokuNode, ()>)
    ensures
        pet_nodes(g) == Seq::<SudokuNode>::empty(),
        pet_edges(g) == Seq::<(usize, usize)>::empty(),
{
    petgraph::graph::UnGraph::new_undirected()
}

/// Relies on petgraph's `Graph::add_node`: the node is appended and its
/// index is the former node count; it panics only once `u32` indices run
/// out.
#[verifier::external_body]
fn pet_add_node(g: &mut petgraph::graph::UnGraph<SudokuNode, ()>, node: SudokuNode) -> (r: usize)
    requires
        pet_nodes(*old(g)).len() < u32::MAX,
    ensures
        pet_nodes(*final(g)) == pet_nodes(*old(g)).push(node),
        pet_edges(*final(g)) == pet_edges(*old(g)),
        r == pet_nodes(*old(g)).len(),
{
    g.add_node(node).index()
}

/// Relies on petgraph's `Graph::add_edge`: the edge from `a` to `b` is
/// appended; it panics only on a missing node or once `u32` indices run
/// out.
#[verifier::external_body]
fn pet_add_edge(g: &mut petgraph::graph::UnGraph<SudokuNode, ()>, a: usize, b: usize)
    requires
        a < pet_nodes(*old(g)).len(),
        b < pet_nodes(*old(g)).len(),
        pet_nodes(*old(g)).len() < u32::MAX,
        pet_edges(*old(g)).len() < u32::MAX,
    ensures
        pet_nodes(*final(g)) == pet_nodes(*old(g)),
        pet_edges(*final(g)) == pet_edges(*old(g)).push((a, b)),
{
    g.add_edge(petgraph::graph::NodeIndex::new(a), petgraph::graph::NodeIndex::new(b), ());
}

/// Relies on petgraph's `Graph::node_count`.
#[verifier::external_body]
fn pet_node_count(g: &petgraph::graph::UnGraph<SudokuNode, ()>) -> (r: usize)
    ensures
        r == pet_nodes(*g).len(),
{
    g.node_count()
}

/// Relies on petgraph's `Graph::edge_count`.
#[verifier::external_body]
fn pet_edge_count(g: &petgraph::graph::UnGraph<SudokuNode, ()>) -> (r: usize)
    ensures
        r == pet_edges(*g).len(),
{
    g.edge_count()
}

/// Relies on petgraph's `Graph::node_weight`: the weight of an existing node.
#[verifier::external_body]
fn pet_node_weight(g: &petgraph::graph::UnGraph<SudokuNode, ()>, n: usize) -> (r: Option<SudokuNode>)
    requires
        n < pet_nodes(*g).len(),
        pet_nodes(*g).len() < u32::MAX,
    ensures
        r == Some(pet_nodes(*g)[n as int]),
{
    g.node_weight(petgraph::graph::NodeIndex::new(n)).copied()
}

/// Relies on petgraph's `Graph::edge_endpoints`: the two nodes that an
/// existing edge was added with, in that order.
#[verifier::external_body]
fn pet_edge_endpoints(g: &petgraph::graph::UnGraph<SudokuNode, ()>, e: usize) -> (r: Option<(usize, usize)>)
    requires
        e < pet_edges(*g).len(),
        pet_edges(*g).len() < u32::MAX,
    ensures
        r == Some(pet_edges(*g)[e as int]),
{
    g.edge_endpoints(petgraph::graph::EdgeIndex::new(e)).map(|(a, b)| (a.index(), b.index()))
}

/// Number of nodes of the colouring graph: 81 cells and 9 clique nodes.
pub const NODE_COUNT: usize = 90;

/// Cell nodes `a` and `b` (both below 81) share a row, a column or a box.
pub open spec fn same_unit(a: int, b: int) -> bool {
    ||| a / 9 == b / 9
    ||| a % 9 == b % 9
    ||| (a / 27 == b / 27 && (a % 9) / 3 == (b % 9) / 3)
}

/// Nodes `a < b` of the graph of `grid` are joined by an edge: two cells
/// of a row, column or box; two clique nodes; or a cell holding the clue
/// `v` and a clique node other than that of `v`.
pub open spec fn adjacent(grid: SudokuGrid, a: int, b: int) -> bool {
    if b < 81 {
        same_unit(a, b)
    } else if a >= 81 {
        true
    } else {
        grid.cell(a / 9, a % 9) matches Cell::Hint(v) && v.index() != b - 81
    }
}

/// The colour of node `n` in the graph of a full grid: a cell's value, or
/// the value of a clique node.
pub open spec fn node_label(grid: SudokuGrid, n: int) -> Value {
    if n < 81 {
        grid.cell(n / 9, n % 9).spec_value()->0
    } else {
        Value::at_index(n - 81)
    }
}

/// Rank of the pair `(a, b)` in the order in which pairs are visited.
pub open spec fn pair_rank(a: int, b: int) -> int {
    90 * a + b
}

/// A node of the colouring graph: its colour under the Prover's solution
/// and, for a cell node, its place in the grid.
#[derive(Debug, Clone, Copy, PartialEq, Eq, Structural)]
pub struct SudokuNode {
    cell: Value,
    location: Point,
}

impl SudokuNode {
    pub closed spec fn spec_cell(&self) -> Value {
        self.cell
    }

    pub fn cell(&self) -> (r: Value)
        ensures
            r == self.spec_cell(),
    {
        self.cell
    }

    pub closed spec fn spec_location(&self) -> Point {
        self.location
    }

    /// Where a cell node stands in the grid; clique nodes stand at the
    /// first cell.
    pub fn location(&self) -> (r: Point)
        ensures
            r == self.spec_location(),
    {
        self.location
    }
}

/// Errors of graph lookups.
#[derive(Debug, Clone, Copy, PartialEq, Eq, Structural)]
pub enum GraphError {
    EdgeNotFound,
}

/// The colouring graph of a Sudoku grid: a proper 9-colouring of it is a
/// solution of the puzzle. Edge indices are stable and shared with the
/// Verifier.
pub struct Graph {
    graph: petgraph::graph::UnGraph<SudokuNode, ()>,
}

impl Graph {
    /// The colour of each node, by node index.
    pub closed spec fn labels(&self) -> Seq<Value> {
        pet_nodes(self.graph).map_values(|n: SudokuNode| n.spec_cell())
    }

    /// The two ends of each edge, by edge index.
    pub closed spec fn edge_list(&self) -> Seq<(usize, usize)> {
        pet_edges(self.graph)
    }

    /// 90 nodes, and each edge joins two distinct nodes, the lower first.
    pub open spec fn wf(&self) -> bool {
        &&& self.labels().len() == NODE_COUNT
        &&& forall|e: int|
            0 <= e < self.edge_list().len() ==> (#[trigger] self.edge_list()[e]).0 < self.edge_list()[e].1
                < NODE_COUNT
        &&& self.edge_list().len() < 8192
    }

    /// The graph is the colouring graph of the full grid `grid`: its labels
    /// are the grid's values and the clique values, and its edges are the
    /// adjacent pairs, each once.
    pub open spec fn represents(&self, grid: SudokuGrid) -> bool {
        &&& self.wf()
        &&& forall|n: int| 0 <= n < NODE_COUNT ==> #[trigger] self.labels()[n] == node_label(grid, n)
        &&& forall|e: int|
            0 <= e < self.edge_list().len() ==> adjacent(
                grid,
                (#[trigger] self.edge_list()[e]).0 as int,
                self.edge_list()[e].1 as int,
            )
        &&& forall|a: int, b: int|
            0 <= a < b < NODE_COUNT && #[trigger] adjacent(grid, a, b) ==> self.edge_list().contains(
                (a as usize, b as usize),
            )
        &&& self.edge_list().no_duplicates()
    }

    /// No edge joins two nodes of the same colour.
    pub open spec fn is_proper_colouring(&self) -> bool {
        forall|e: int|
            0 <= e < self.edge_list().len() ==> self.labels()[(#[trigger] self.edge_list()[e]).0 as int]
                != self.labels()[self.edge_list()[e].1 as int]
    }

    /// Whether nodes `a < b` of the graph of `grid` are joined.
    fn is_adjacent(grid: &SudokuGrid, a: usize, b: usize) -> (r: bool)
        requires
            a < b < NODE_COUNT,
        ensures
            r == adjacent(*grid, a as int, b as int),
    {
        if b < 81 {
            a / 9 == b / 9 || a % 9 == b % 9 || (a / 27 == b / 27 && (a % 9) / 3 == (b % 9) / 3)
        } else if a >= 81 {
            true
        } else {
            let cell = grid.get_cell(Point::new(Position::from_index(a / 9), Position::from_index(a % 9)));
            match cell {
                Cell::Hint(v) => v.to_index() != b - 81,
                _ => false,
            }
        }
    }

    /// The colouring graph of a full grid: node `9 * x + y` is the cell in
    /// row `x`, column `y`, node `81 + k` the clique node of the `k`-th
    /// value, and the edges are the adjacent pairs.
    pub fn from_sudoku(sudoku: &SudokuGrid) -> (r: Graph)
        requires
            sudoku.spec_full(),
        ensures
            r.represents(*sudoku),
    {
        let mut graph = pet_new();
        for n in 0..NODE_COUNT
            invariant
                sudoku.spec_full(),
                pet_nodes(graph).len() == n,
                pet_edges(graph).len() == 0,
                forall|m: int| 0 <= m < n ==> (#[trigger] pet_nodes(graph)[m]).spec_cell() == node_label(*sudoku, m),
        {
            let node = if n < 81 {
                let point = Point::new(Position::from_index(n / 9), Position::from_index(n % 9));
                let cell = sudoku.get_cell(point);
                assert(cell.spec_value() is Some);
                match cell.value() {
                    Some(v) => SudokuNode { cell: v, location: point },
                    None => {
                        proof {
                            assert(false);
                        }
                        vstd::pervasive::unreached()
                    },
                }
            } else {
                SudokuNode {
                    cell: Value::from_index(n - 81),
                    location: Point::new(Position::ONE, Position::ONE),
                }
            };
            pet_add_node(&mut graph, node);
        }
        for a in 0..NODE_COUNT
            invariant
                pet_nodes(graph).len() == NODE_COUNT,
                forall|m: int| 0 <= m < NODE_COUNT ==> (#[trigger] pet_nodes(graph)[m]).spec_cell() == node_label(*sudoku, m),
                pet_edges(graph).len() <= pair_rank(a as int, a + 1),
                forall|e: int|
                    0 <= e < pet_edges(graph).len() ==> {
                        let (p, q) = #[trigger] pet_edges(graph)[e];
                        &&& p < q < NODE_COUNT
                        &&& adjacent(*sudoku, p as int, q as int)
                        &&& pair_rank(p as int, q as int) < pair_rank(a as int, a + 1)
                    },
                forall|e1: int, e2: int|
                    0 <= e1 < e2 < pet_edges(graph).len() ==> pair_rank(
                        (#[trigger] pet_edges(graph)[e1]).0 as int,
                        pet_edges(graph)[e1].1 as int,
                    ) < pair_rank((#[trigger] pet_edges(graph)[e2]).0 as int, pet_edges(graph)[e2].1 as int),
                forall|p: int, q: int|
                    0 <= p < q < NODE_COUNT && pair_rank(p, q) < pair_rank(a as int, a + 1) && #[trigger] adjacent(
                        *sudoku,
                        p,
                        q,
                    ) ==> pet_edges(graph).contains((p as usize, q as usize)),
        {
            for b in a + 1..NODE_COUNT
                invariant
                    a < NODE_COUNT,
                    pet_nodes(graph).len() == NODE_COUNT,
                    forall|m: int| 0 <= m < NODE_COUNT ==> (#[trigger] pet_nodes(graph)[m]).spec_cell() == node_label(*sudoku, m),
                    pet_edges(graph).len() <= pair_rank(a as int, b as int),
                    forall|e: int|
                        0 <= e < pet_edges(graph).len() ==> {
                            let (p, q) = #[trigger] pet_edges(graph)[e];
                            &&& p < q < NODE_COUNT
                            &&& adjacent(*sudoku, p as int, q as int)
                            &&& pair_rank(p as int, q as int) < pair_rank(a as int, b as int)
                        },
                    forall|e1: int, e2: int|
                        0 <= e1 < e2 < pet_edges(graph).len() ==> pair_rank(
                            (#[trigger] pet_edges(graph)[e1]).0 as int,
                            pet_edges(graph)[e1].1 as int,
                        ) < pair_rank((#[trigger] pet_edges(graph)[e2]).0 as int, pet_edges(graph)[e2].1 as int),
                    forall|p: int, q: int|
                        0 <= p < q < NODE_COUNT && pair_rank(p, q) < pair_rank(a as int, b as int) && #[trigger] adjacent(
                            *sudoku,
                            p,
                            q,
                        ) ==> pet_edges(graph).contains((p as usize, q as usize)),
            {
                if Graph::is_adjacent(sudoku, a, b) {
                    let ghost before = pet_edges(graph);
                    pet_add_edge(&mut graph, a, b);
                    proof {
                        let after = pet_edges(graph);
                        assert(after[after.len() - 1] == (a, b));
                        assert forall|p: int, q: int|
                            0 <= p < q < NODE_COUNT && pair_rank(p, q) < pair_rank(a as int, b + 1) && #[trigger] adjacent(
                                *sudoku,
                                p,
                                q,
                            ) implies after.contains((p as usize, q as usize)) by {
                            if pair_rank(p, q) < pair_rank(a as int, b as int) {
                                let k = choose|k: int| 0 <= k < before.len() && before[k] == (p as usize, q as usize);
                                assert(after[k] == (p as usize, q as usize));
                            } else {
                                assert(after[after.len() - 1] == (p as usize, q as usize));
                            }
                        }
                    }
                }
            }
        }
        let r = Graph { graph };
        proof {
            assert(r.labels().len() == NODE_COUNT);
            assert forall|n: int| 0 <= n < NODE_COUNT implies #[trigger] r.labels()[n] == node_label(*sudoku, n) by {
                assert(pet_nodes(graph)[n].spec_cell() == node_label(*sudoku, n));
            }
            let es = pet_edges(graph);
            assert forall|i: int, j: int| 0 <= i < es.len() && 0 <= j < es.len() && i != j implies es[i] != es[j] by {
                if i < j {
                    assert(pair_rank(es[i].0 as int, es[i].1 as int) < pair_rank(es[j].0 as int, es[j].1 as int));
                } else {
                    assert(pair_rank(es[j].0 as int, es[j].1 as int) < pair_rank(es[i].0 as int, es[i].1 as int));
                }
            }
        }
        r
    }

    pub fn node_count(&self) -> (r: usize)
        ensures
            r == self.labels().len(),
    {
        pet_node_count(&self.graph)
    }

    pub fn edge_count(&self) -> (r: usize)
        ensures
            r == self.edge_list().len(),
    {
        pet_edge_count(&self.graph)
    }

    /// The colour of node `n`.
    pub fn node_value(&self, n: usize) -> (r: Value)
        requires
            self.wf(),
            n < self.labels().len(),
        ensures
            r == self.labels()[n as int],
    {
        match pet_node_weight(&self.graph, n) {
            Some(node) => node.cell(),
            None => {
                proof {
                    assert(false);
                }
                vstd::pervasive::unreached()
            },
        }
    }

    /// Every node with its colour, by node index.
    pub fn nodes(&self) -> (r: Vec<(usize, Value)>)
        requires
            self.wf(),
        ensures
            r@.len() == self.labels().len(),
            forall|n: int| 0 <= n < r@.len() ==> #[trigger] r@[n] == (n as usize, self.labels()[n]),
    {
        let count = self.node_count();
        let mut r: Vec<(usize, Value)> = Vec::new();
        for n in 0..count
            invariant
                self.wf(),
                count == self.labels().len(),
                r@.len() == n,
                forall|m: int| 0 <= m < n ==> #[trigger] r@[m] == (m as usize, self.labels()[m]),
        {
            r.push((n, self.node_value(n)));
        }
        r
    }

    /// The two ends of edge `edge`, or `EdgeNotFound` when there is no such
    /// edge.
    pub fn get_edge_nodes(&self, edge: usize) -> (r: Result<(usize, usize), GraphError>)
        requires
            self.wf(),
        ensures
            r is Ok <==> edge < self.edge_list().len(),
            r is Ok ==> r->Ok_0 == self.edge_list()[edge as int],
            r is Err ==> r->Err_0 == GraphError::EdgeNotFound,
    {
        if edge >= self.edge_count() {
            return Err(GraphError::EdgeNotFound);
        }
        match pet_edge_endpoints(&self.graph, edge) {
            Some(ends) => Ok(ends),
            None => Err(GraphError::EdgeNotFound),
        }
    }

    /// The two ends of every edge, by edge index: what the Verifier learns
    /// of the graph.
    pub fn edges(&self) -> (r: Vec<(usize, usize)>)
        requires
            self.wf(),
        ensures
            r@ == self.edge_list(),
    {
        let count = self.edge_count();
        let mut r: Vec<(usize, usize)> = Vec::new();
        for e in 0..count
            invariant
                self.wf(),
                count == self.edge_list().len(),
                r@ == self.edge_list().subrange(0, e as int),
        {
            match pet_edge_endpoints(&self.graph, e) {
                Some(ends) => r.push(ends),
                None => {},
            }
            assert(r@ =~= self.edge_list().subrange(0, e + 1));
        }
        assert(self.edge_list().subrange(0, count as int) =~= self.edge_list());
        r
    }
}

} // verus!
