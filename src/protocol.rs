use vstd::prelude::*;

use crate::colour_shuffle::ColourShuffle;
use crate::confidence::{confidence_reached, power, rounds_for_confidence, BASIS, SCALE};
use crate::graph::{adjacent, Graph};
use crate::grid::SudokuGrid;
use crate::prover::Prover;
use crate::types::{RoundId, VerifierResult, ZkProofError};
use crate::zk_verifier::Verifier;

verus! {

/// A Prover and a Verifier in one process, sharing the edge map, that run
/// the protocol round by round.
pub struct ZKProtocol {
    prover: Prover,
    verifier: Verifier,
}

impl ZKProtocol {
    pub closed spec fn spec_prover(&self) -> Prover {
        self.prover
    }

    pub closed spec fn spec_verifier(&self) -> Verifier {
        self.verifier
    }

    /// The colouring graph the Prover holds.
    pub open spec fn graph(&self) -> Graph {
        self.spec_prover().spec_graph()
    }

    /// Both parties are well formed, know the same edges, and have run the
    /// same number of rounds.
    pub open spec fn wf(&self) -> bool {
        &&& self.spec_prover().wf()
        &&& self.spec_verifier().wf()
        &&& self.spec_verifier().spec_edge_map() == self.graph().edge_list()
        &&& self.graph().edge_list().len() > 0
        &&& self.spec_prover().spec_rounds().len() == self.spec_verifier().spec_rounds().len()
    }

    /// The protocol for a full grid; `ValueNotFound` when a cell is empty.
    pub fn new(puzzle: &SudokuGrid) -> (r: Result<ZKProtocol, ZkProofError>)
        ensures
            r is Ok <==> puzzle.spec_full(),
            r is Err ==> r->Err_0 is ValueNotFound,
            r matches Ok(p) ==> p.wf() && p.graph().represents(*puzzle)
                && p.spec_verifier().spec_rounds().len() == 0,
    {
        match Prover::new(puzzle) {
            Ok((prover, edge_map)) => {
                proof {
                    assert(adjacent(*puzzle, 81, 82));
                    assert(prover.spec_graph().edge_list().contains((81usize, 82usize)));
                }
                let verifier = Verifier::new(edge_map);
                Ok(ZKProtocol { prover, verifier })
            },
            Err(e) => Err(e),
        }
    }

    /// One round: the Prover commits, the Verifier challenges a random
    /// edge, the Prover reveals its two ends and the Verifier checks them.
    /// The round never fails, and it succeeds exactly when the Prover's two
    /// colours at the challenged edge differ.
    pub fn run_round(&mut self) -> (r: Result<VerifierResult, ZkProofError>)
        requires
            old(self).wf(),
        ensures
            final(self).wf(),
            final(self).graph() == old(self).graph(),
            final(self).spec_verifier().spec_rounds().len() == old(self).spec_verifier().spec_rounds().len() + 1,
            forall|i: int|
                0 <= i < old(self).spec_verifier().spec_rounds().len() ==> #[trigger] final(self).spec_verifier().spec_rounds()[i]
                    == old(self).spec_verifier().spec_rounds()[i],
            r matches Ok(res) && ({
                let e = final(self).spec_verifier().spec_rounds().last().challenge();
                let ends = final(self).graph().edge_list()[e as int];
                let labels = final(self).graph().labels();
                &&& e < final(self).graph().edge_list().len()
                &&& res.round_id == RoundId(old(self).spec_verifier().spec_rounds().len() as usize)
                &&& res.success == (labels[ends.0 as int] != labels[ends.1 as int])
                &&& final(self).spec_verifier().spec_rounds().last().verified() == res.success
            }),
            old(self).graph().is_proper_colouring() ==> (r matches Ok(res) && res.success),
    {
        let commitment = self.prover.start_round();
        let ghost prover_round = self.prover.spec_rounds().last();
        let challenge = match self.verifier.receive_commitment(commitment) {
            Ok(c) => c,
            Err(e) => {
                proof {
                    assert(false);
                }
                return Err(e);
            },
        };
        let ghost edges = self.prover.spec_graph().edge_list();
        let ghost labels = self.prover.spec_graph().labels();
        proof {
            assert(!prover_round.challenged().contains(challenge.edge));
        }
        let response = match self.prover.respond_to_challenge(challenge) {
            Ok(resp) => resp,
            Err(e) => {
                proof {
                    assert(false);
                }
                return Err(e);
            },
        };
        let ghost ends = edges[challenge.edge as int];
        proof {
            let rid = challenge.round_id.0 as int;
            let vround = self.verifier.spec_rounds()[rid];
            assert(edges[challenge.edge as int].0 < edges[challenge.edge as int].1 < 90);
            assert(prover_round.commits_to(labels));
            assert(response.node1.node_key.digest() == prover_round.keys()[ends.0 as int].digest());
            assert(vround.commitments()[ends.0 as int].digest() == prover_round.keys()[ends.0 as int].digest());
            assert(vround.commitments()[ends.1 as int].digest() == prover_round.keys()[ends.1 as int].digest());
            let s = prover_round.shuffle();
            let l1 = labels[ends.0 as int];
            let l2 = labels[ends.1 as int];
            assert(prover_round.keys()[ends.0 as int].spec_value() == s.permute(l1));
            assert(prover_round.keys()[ends.1 as int].spec_value() == s.permute(l2));
            if l1 != l2 {
                ColourShuffle::lemma_distinct(s, l1, l2);
            }
        }
        let result = self.verifier.verify_response(response);
        proof {
            if self.prover.spec_graph().is_proper_colouring() {
                assert(labels[edges[challenge.edge as int].0 as int] != labels[edges[challenge.edge as int].1 as int]);
            }
        }
        result
    }

    /// Runs up to `num_rounds` rounds and stops at the first that fails:
    /// `Ok(false)` then, `Ok(true)` when all succeed. A Prover whose
    /// colouring is proper always gets `Ok(true)`.
    pub fn run_proof(&mut self, num_rounds: usize) -> (r: Result<bool, ZkProofError>)
        requires
            old(self).wf(),
        ensures
            final(self).wf(),
            final(self).graph() == old(self).graph(),
            r is Ok,
            final(self).spec_verifier().spec_rounds().len() <= old(self).spec_verifier().spec_rounds().len() + num_rounds,
            forall|i: int|
                0 <= i < old(self).spec_verifier().spec_rounds().len() ==> #[trigger] final(self).spec_verifier().spec_rounds()[i]
                    == old(self).spec_verifier().spec_rounds()[i],
            r == Ok::<bool, ZkProofError>(true) ==> {
                &&& final(self).spec_verifier().spec_rounds().len() == old(self).spec_verifier().spec_rounds().len() + num_rounds
                &&& forall|i: int|
                    old(self).spec_verifier().spec_rounds().len() <= i < final(self).spec_verifier().spec_rounds().len()
                        ==> (#[trigger] final(self).spec_verifier().spec_rounds()[i]).verified()
            },
            r == Ok::<bool, ZkProofError>(false) ==> {
                &&& final(self).spec_verifier().spec_rounds().len() > old(self).spec_verifier().spec_rounds().len()
                &&& !final(self).spec_verifier().spec_rounds().last().verified()
            },
            old(self).graph().is_proper_colouring() ==> r == Ok::<bool, ZkProofError>(true),
    {
        let ghost start = self.verifier.spec_rounds().len();
        for round in 0..num_rounds
            invariant
                self.wf(),
                self.graph() == old(self).graph(),
                start == old(self).spec_verifier().spec_rounds().len(),
                self.spec_verifier().spec_rounds().len() == start + round,
                forall|i: int|
                    0 <= i < start ==> #[trigger] self.spec_verifier().spec_rounds()[i]
                        == old(self).spec_verifier().spec_rounds()[i],
                forall|i: int|
                    start <= i < self.spec_verifier().spec_rounds().len() ==> (#[trigger] self.spec_verifier().spec_rounds()[i]).verified(),
        {
            match self.run_round() {
                Ok(result) => {
                    if !result.success {
                        return Ok(false);
                    }
                },
                Err(e) => {
                    return Err(e);
                },
            }
        }
        Ok(true)
    }

    /// Runs as many rounds as reach a confidence of `confidence_bp` basis
    /// points (for example 9900 for 99%), stopping at the first round that
    /// fails.
    pub fn prove_with_confidence(&mut self, confidence_bp: u64) -> (r: Result<bool, ZkProofError>)
        requires
            old(self).wf(),
            0 < confidence_bp < BASIS,
        ensures
            final(self).wf(),
            final(self).graph() == old(self).graph(),
            r is Ok,
            old(self).graph().is_proper_colouring() ==> r == Ok::<bool, ZkProofError>(true),
            r == Ok::<bool, ZkProofError>(true) ==> ({
                let e = old(self).graph().edge_list().len() as int;
                let n = (final(self).spec_verifier().spec_rounds().len() - old(
                    self,
                ).spec_verifier().spec_rounds().len()) as nat;
                confidence_reached(e, confidence_bp as int, n)
            }),
    {
        let edge_count = self.verifier.edge_map_len();
        let rounds_needed = ZKProtocol::calculate_rounds_needed(edge_count, confidence_bp);
        self.run_proof(rounds_needed)
    }

    /// The number of rounds that reach a confidence of `confidence_bp`
    /// basis points against `edge_count` edges; see `rounds_for_confidence`.
    pub fn calculate_rounds_needed(edge_count: usize, confidence_bp: u64) -> (r: usize)
        requires
            1 <= edge_count <= usize::MAX / 16,
            0 < confidence_bp < BASIS,
        ensures
            r >= 1,
            confidence_reached(edge_count as int, confidence_bp as int, r as nat),
            r > 1 ==> ({
                let m = (r - 1) as nat;
                BASIS * (SCALE * power(edge_count - 1, m) + m * power(edge_count as int, m)) > (BASIS
                    - confidence_bp) * SCALE * power(edge_count as int, m)
            }),
    {
        rounds_for_confidence(edge_count, confidence_bp)
    }

    /// Soundness: when the Prover's colouring is not proper, some edge has
    /// both ends of one colour; by `run_round`, every round that challenges
    /// that edge fails, and each round draws it with probability `1/|E|`.
    pub proof fn lemma_soundness(graph: Graph)
        requires
            !graph.is_proper_colouring(),
        ensures
            exists|e: int|
                0 <= e < graph.edge_list().len() && graph.labels()[(#[trigger] graph.edge_list()[e]).0 as int]
                    == graph.labels()[graph.edge_list()[e].1 as int],
    {
    }

    pub fn prover_ref(&self) -> (r: &Prover)
        ensures
            *r == self.spec_prover(),
    {
        &self.prover
    }

    pub fn verifier_ref(&self) -> (r: &Verifier)
        ensures
            *r == self.spec_verifier(),
    {
        &self.verifier
    }
}

} // verus!
