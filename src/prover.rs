use vstd::prelude::*;

use crate::colour_shuffle::ColourShuffle;
use crate::commitment::{Commitment, CommitmentKey, Hidden, NONCE_LEN};
use crate::graph::Graph;
use crate::grid::SudokuGrid;
use crate::types::{
    EdgeNodeMap, NodeReveal, ProverCommitment, ProverResponse, RoundId, VerifierChallenge,
    ZkProofError,
};
use crate::value::Value;

verus! {

/// Whether `edges` holds `edge`.
fn contains_edge(edges: &Vec<usize>, edge: usize) -> (r: bool)
    ensures
        r == edges@.contains(edge),
{
    for i in 0..edges.len()
        invariant
            forall|j: int| 0 <= j < i ==> edges@[j] != edge,
    {
        if edges[i] == edge {
            return true;
        }
    }
    false
}

/// What the Prover keeps of one round: the colour permutation, the key of
/// every node's commitment, and the edges revealed so far.
pub struct ProverRound {
    colour_shuffle: ColourShuffle,
    commitment_keys: Vec<CommitmentKey>,
    challenged_edges: Vec<usize>,
}

impl ProverRound {
    pub closed spec fn shuffle(&self) -> ColourShuffle {
        self.colour_shuffle
    }

    /// The key of each node's commitment, by node index.
    pub closed spec fn keys(&self) -> Seq<CommitmentKey> {
        self.commitment_keys@
    }

    /// The edges revealed in this round, in order.
    pub closed spec fn challenged(&self) -> Seq<usize> {
        self.challenged_edges@
    }

    /// The round's keys commit to the colours `labels` under the round's
    /// permutation.
    pub open spec fn commits_to(&self, labels: Seq<Value>) -> bool {
        &&& self.shuffle().wf()
        &&& self.keys().len() == labels.len()
        &&& forall|n: int|
            0 <= n < labels.len() ==> (#[trigger] self.keys()[n]).spec_value() == self.shuffle().permute(
                labels[n],
            )
    }
}

/// The party that knows the solution: it holds the colouring graph and
/// answers challenges, one round at a time.
pub struct Prover {
    graph: Graph,
    rounds: Vec<ProverRound>,
    current_round: RoundId,
}

impl Prover {
    pub closed spec fn spec_graph(&self) -> Graph {
        self.graph
    }

    pub closed spec fn spec_rounds(&self) -> Seq<ProverRound> {
        self.rounds@
    }

    pub closed spec fn spec_current(&self) -> RoundId {
        self.current_round
    }

    /// The graph is well formed, every round commits to its colours, and
    /// the current round is the last one (round 0 before any).
    pub open spec fn wf(&self) -> bool {
        &&& self.spec_graph().wf()
        &&& forall|i: int|
            0 <= i < self.spec_rounds().len() ==> (#[trigger] self.spec_rounds()[i]).commits_to(
                self.spec_graph().labels(),
            )
        &&& if self.spec_rounds().len() == 0 {
            self.spec_current().0 == 0
        } else {
            self.spec_current().0 == self.spec_rounds().len() - 1
        }
    }

    /// A Prover for a full grid, with the edge map to hand to the Verifier;
    /// `ValueNotFound` when a cell is empty. The grid need not be a valid
    /// solution: an invalid one is caught by the protocol.
    pub fn new(puzzle: &SudokuGrid) -> (r: Result<(Prover, EdgeNodeMap), ZkProofError>)
        ensures
            r is Ok <==> puzzle.spec_full(),
            r is Err ==> r->Err_0 is ValueNotFound,
            r matches Ok((p, m)) ==> {
                &&& p.wf()
                &&& p.spec_graph().represents(*puzzle)
                &&& m@ == p.spec_graph().edge_list()
                &&& p.spec_rounds().len() == 0
                &&& p.spec_current() == RoundId(0)
            },
    {
        if !puzzle.is_full() {
            return Err(ZkProofError::ValueNotFound);
        }
        let graph = Graph::from_sudoku(puzzle);
        let edge_map = graph.edges();
        Ok((Prover { graph, rounds: Vec::new(), current_round: RoundId(0) }, edge_map))
    }

    /// Starts a round: draws a fresh colour permutation `π` and commits to
    /// `π` of every node's colour, each under a fresh nonce.
    pub fn start_round(&mut self) -> (r: ProverCommitment)
        requires
            old(self).wf(),
        ensures
            final(self).wf(),
            final(self).spec_graph() == old(self).spec_graph(),
            final(self).spec_rounds().len() == old(self).spec_rounds().len() + 1,
            forall|i: int|
                0 <= i < old(self).spec_rounds().len() ==> #[trigger] final(self).spec_rounds()[i]
                    == old(self).spec_rounds()[i],
            r.round_id == RoundId(old(self).spec_rounds().len() as usize),
            final(self).spec_current() == r.round_id,
            ({
                let round = final(self).spec_rounds().last();
                &&& round.challenged().len() == 0
                &&& r.commitments@.len() == round.keys().len()
                &&& forall|n: int|
                    0 <= n < r.commitments@.len() ==> (#[trigger] r.commitments@[n]).spec_node_id() == n
                        && r.commitments@[n].digest() == round.keys()[n].digest()
                        && round.keys()[n].spec_nonce().len() == NONCE_LEN
            }),
    {
        let colour_shuffle = ColourShuffle::new_random();
        let count = self.graph.node_count();
        let mut commitments: Vec<Commitment<Hidden>> = Vec::new();
        let mut keys: Vec<CommitmentKey> = Vec::new();
        for n in 0..count
            invariant
                self.graph.wf(),
                count == self.graph.labels().len(),
                colour_shuffle.wf(),
                commitments@.len() == n,
                keys@.len() == n,
                forall|m: int|
                    0 <= m < n ==> (#[trigger] keys@[m]).spec_value() == colour_shuffle.permute(
                        self.graph.labels()[m],
                    ) && keys@[m].spec_nonce().len() == NONCE_LEN,
                forall|m: int|
                    0 <= m < n ==> (#[trigger] commitments@[m]).spec_node_id() == m
                        && commitments@[m].digest() == keys@[m].digest(),
        {
            let value = self.graph.node_value(n);
            let (commitment, key) = Commitment::new(colour_shuffle.apply(value), n);
            commitments.push(commitment);
            keys.push(key);
        }
        let round_id = RoundId(self.rounds.len());
        self.rounds.push(
            ProverRound { colour_shuffle, commitment_keys: keys, challenged_edges: Vec::new() },
        );
        self.current_round = round_id;
        ProverCommitment { round_id, commitments }
    }

    /// Answers a challenge of the current round with the keys of both ends
    /// of the edge, in the edge's order, and records the edge as revealed.
    /// `RoundMismatch` for another round, `AlreadyRevealed` for an edge
    /// revealed before in this round, `EdgeNotFound` for an unknown edge.
    pub fn respond_to_challenge(&mut self, challenge: VerifierChallenge) -> (r: Result<
        ProverResponse,
        ZkProofError,
    >)
        requires
            old(self).wf(),
        ensures
            final(self).wf(),
            final(self).spec_graph() == old(self).spec_graph(),
            final(self).spec_current() == old(self).spec_current(),
            ({
                let rounds = old(self).spec_rounds();
                let rid = challenge.round_id.0 as int;
                let edges = old(self).spec_graph().edge_list();
                if challenge.round_id != old(self).spec_current() || rid >= rounds.len() {
                    &&& r matches Err(ZkProofError::RoundMismatch)
                    &&& final(self).spec_rounds() == rounds
                } else if rounds[rid].challenged().contains(challenge.edge) {
                    &&& r matches Err(ZkProofError::AlreadyRevealed)
                    &&& final(self).spec_rounds() == rounds
                } else if challenge.edge >= edges.len() {
                    &&& r matches Err(ZkProofError::EdgeNotFound(e))
                    &&& e == challenge.edge
                    &&& final(self).spec_rounds() == rounds
                } else {
                    let ends = edges[challenge.edge as int];
                    &&& r matches Ok(resp)
                    &&& resp.round_id == challenge.round_id
                    &&& resp.edge == challenge.edge
                    &&& resp.node1.node_idx == ends.0
                    &&& resp.node2.node_idx == ends.1
                    &&& resp.node1.node_key@ == rounds[rid].keys()[ends.0 as int]@
                    &&& resp.node2.node_key@ == rounds[rid].keys()[ends.1 as int]@
                    &&& final(self).spec_rounds().len() == rounds.len()
                    &&& forall|i: int|
                        0 <= i < rounds.len() && i != rid ==> #[trigger] final(self).spec_rounds()[i]
                            == rounds[i]
                    &&& final(self).spec_rounds()[rid].shuffle() == rounds[rid].shuffle()
                    &&& final(self).spec_rounds()[rid].keys() == rounds[rid].keys()
                    &&& final(self).spec_rounds()[rid].challenged() == rounds[rid].challenged().push(
                        challenge.edge,
                    )
                }
            }),
    {
        if challenge.round_id != self.current_round || challenge.round_id.0 >= self.rounds.len() {
            return Err(ZkProofError::RoundMismatch);
        }
        let round_idx = challenge.round_id.0;
        if contains_edge(&self.rounds[round_idx].challenged_edges, challenge.edge) {
            return Err(ZkProofError::AlreadyRevealed);
        }
        let (node1, node2) = match self.graph.get_edge_nodes(challenge.edge) {
            Ok(ends) => ends,
            Err(_) => {
                return Err(ZkProofError::EdgeNotFound(challenge.edge));
            },
        };
        proof {
            assert(self.rounds@[round_idx as int].commits_to(self.graph.labels()));
            assert(self.graph.edge_list()[challenge.edge as int].0 < self.graph.edge_list()[challenge.edge as int].1 < 90);
        }
        let node1_key = self.rounds[round_idx].commitment_keys[node1].duplicate();
        let node2_key = self.rounds[round_idx].commitment_keys[node2].duplicate();
        let ghost before = self.rounds@;
        let mut round = match self.rounds.pop() {
            Some(round) => round,
            None => {
                proof {
                    assert(false);
                }
                vstd::pervasive::unreached()
            },
        };
        round.challenged_edges.push(challenge.edge);
        self.rounds.push(round);
        proof {
            assert(self.rounds@.len() == before.len());
            assert forall|i: int| 0 <= i < before.len() && i != round_idx implies #[trigger] self.rounds@[i]
                == before[i] by {
                assert(before.drop_last()[i] == before[i]);
            }
        }
        Ok(
            ProverResponse {
                round_id: challenge.round_id,
                edge: challenge.edge,
                node1: NodeReveal { node_idx: node1, node_key: node1_key },
                node2: NodeReveal { node_idx: node2, node_key: node2_key },
            },
        )
    }

    /// Number of rounds started.
    pub fn round_count(&self) -> (r: usize)
        ensures
            r == self.spec_rounds().len(),
    {
        self.rounds.len()
    }

    pub fn current_round(&self) -> (r: RoundId)
        ensures
            r == self.spec_current(),
    {
        self.current_round
    }
}

/// Completeness: when the Prover's labelling is a proper colouring, the two
/// keys it holds for the ends of any edge, in any round, carry different
/// colours.
pub proof fn lemma_completeness(prover: Prover, round: int, edge: int)
    requires
        prover.wf(),
        prover.spec_graph().is_proper_colouring(),
        0 <= round < prover.spec_rounds().len(),
        0 <= edge < prover.spec_graph().edge_list().len(),
    ensures
        ({
            let ends = prover.spec_graph().edge_list()[edge];
            let keys = prover.spec_rounds()[round].keys();
            keys[ends.0 as int].spec_value() != keys[ends.1 as int].spec_value()
        }),
{
    let g = prover.spec_graph();
    let ends = g.edge_list()[edge];
    let r = prover.spec_rounds()[round];
    assert(r.commits_to(g.labels()));
    assert(g.labels()[ends.0 as int] != g.labels()[ends.1 as int]);
    assert(r.keys()[ends.0 as int].spec_value() == r.shuffle().permute(g.labels()[ends.0 as int]));
    assert(r.keys()[ends.1 as int].spec_value() == r.shuffle().permute(g.labels()[ends.1 as int]));
    ColourShuffle::lemma_distinct(r.shuffle(), g.labels()[ends.0 as int], g.labels()[ends.1 as int]);
}

} // verus!
