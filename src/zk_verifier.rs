use vstd::prelude::*;

use crate::commitment::{Commitment, CommitmentError, Hidden};
use crate::confidence::{confidence_bp, power, BASIS, SCALE};
use crate::random::random_below;
use crate::types::{
    EdgeNodeMap, NodeReveal, ProverCommitment, ProverResponse, RoundId, VerifierChallenge,
    VerifierResult, ZkProofError,
};

verus! {

/// What the Verifier keeps of one round: the Prover's commitments, the
/// challenged edge, and the verdict once a response came.
pub struct VerifierRound {
    commitment: ProverCommitment,
    challenge_edge: usize,
    response: Option<ProverResponse>,
    verified: bool,
}

impl VerifierRound {
    /// The commitments received, by node index.
    pub closed spec fn commitments(&self) -> Seq<Commitment<Hidden>> {
        self.commitment.commitments@
    }

    pub closed spec fn challenge(&self) -> usize {
        self.challenge_edge
    }

    /// A response was checked and accepted.
    pub closed spec fn verified(&self) -> bool {
        self.verified
    }

    /// A response was checked.
    pub closed spec fn answered(&self) -> bool {
        self.response is Some
    }

    pub fn challenge_edge(&self) -> (r: usize)
        ensures
            r == self.challenge(),
    {
        self.challenge_edge
    }

    pub fn is_verified(&self) -> (r: bool)
        ensures
            r == self.verified(),
    {
        self.verified
    }
}

/// The number of accepted rounds among `rounds`.
pub open spec fn count_verified(rounds: Seq<VerifierRound>) -> nat
    decreases rounds.len(),
{
    if rounds.len() == 0 {
        0
    } else {
        count_verified(rounds.drop_last()) + if rounds.last().verified() {
            1nat
        } else {
            0nat
        }
    }
}

/// The party that checks the proof: it knows only the edge map, challenges
/// one random edge per round and checks the two revealed keys.
pub struct Verifier {
    edge_map: EdgeNodeMap,
    rounds: Vec<VerifierRound>,
    current_round: RoundId,
}

impl Verifier {
    pub closed spec fn spec_edge_map(&self) -> Seq<(usize, usize)> {
        self.edge_map@
    }

    pub closed spec fn spec_rounds(&self) -> Seq<VerifierRound> {
        self.rounds@
    }

    pub closed spec fn spec_current(&self) -> RoundId {
        self.current_round
    }

    /// Every challenge names a known edge, and the current round is the
    /// last one (round 0 before any).
    pub open spec fn wf(&self) -> bool {
        &&& forall|i: int|
            0 <= i < self.spec_rounds().len() ==> (#[trigger] self.spec_rounds()[i]).challenge()
                < self.spec_edge_map().len()
        &&& if self.spec_rounds().len() == 0 {
            self.spec_current().0 == 0
        } else {
            self.spec_current().0 == self.spec_rounds().len() - 1
        }
    }

    pub fn new(edge_map: EdgeNodeMap) -> (r: Verifier)
        ensures
            r.wf(),
            r.spec_edge_map() == edge_map@,
            r.spec_rounds().len() == 0,
            r.spec_current() == RoundId(0),
    {
        Verifier { edge_map, rounds: Vec::new(), current_round: RoundId(0) }
    }

    /// Records the commitments of the next round and challenges `edge`:
    /// `RoundMismatch` unless the commitment is for round `rounds.len()`,
    /// `NoEdges` for an empty edge map, `EdgeNotFound` for an unknown edge.
    pub fn issue_challenge(&mut self, commitment: ProverCommitment, edge: usize) -> (r: Result<
        VerifierChallenge,
        ZkProofError,
    >)
        requires
            old(self).wf(),
        ensures
            final(self).wf(),
            final(self).spec_edge_map() == old(self).spec_edge_map(),
            ({
                let rounds = old(self).spec_rounds();
                if commitment.round_id.0 != rounds.len() {
                    &&& r matches Err(ZkProofError::RoundMismatch)
                    &&& *final(self) == *old(self)
                } else if old(self).spec_edge_map().len() == 0 {
                    &&& r matches Err(ZkProofError::NoEdges)
                    &&& *final(self) == *old(self)
                } else if edge >= old(self).spec_edge_map().len() {
                    &&& r matches Err(ZkProofError::EdgeNotFound(e))
                    &&& e == edge
                    &&& *final(self) == *old(self)
                } else {
                    &&& r == Ok::<VerifierChallenge, ZkProofError>(
                        VerifierChallenge { round_id: commitment.round_id, edge },
                    )
                    &&& final(self).spec_rounds().len() == rounds.len() + 1
                    &&& forall|i: int|
                        0 <= i < rounds.len() ==> #[trigger] final(self).spec_rounds()[i] == rounds[i]
                    &&& final(self).spec_rounds().last().commitments() == commitment.commitments@
                    &&& final(self).spec_rounds().last().challenge() == edge
                    &&& !final(self).spec_rounds().last().verified()
                    &&& !final(self).spec_rounds().last().answered()
                    &&& final(self).spec_current() == commitment.round_id
                }
            }),
    {
        if commitment.round_id.0 != self.rounds.len() {
            return Err(ZkProofError::RoundMismatch);
        }
        if self.edge_map.len() == 0 {
            return Err(ZkProofError::NoEdges);
        }
        if edge >= self.edge_map.len() {
            return Err(ZkProofError::EdgeNotFound(edge));
        }
        let round_id = commitment.round_id;
        self.rounds.push(
            VerifierRound { commitment, challenge_edge: edge, response: None, verified: false },
        );
        self.current_round = round_id;
        Ok(VerifierChallenge { round_id, edge })
    }

    /// Records the commitments of the next round and challenges an edge
    /// drawn uniformly at random: `RoundMismatch` unless the commitment is
    /// for round `rounds.len()`, `NoEdges` for an empty edge map.
    pub fn receive_commitment(&mut self, commitment: ProverCommitment) -> (r: Result<
        VerifierChallenge,
        ZkProofError,
    >)
        requires
            old(self).wf(),
        ensures
            final(self).wf(),
            final(self).spec_edge_map() == old(self).spec_edge_map(),
            ({
                let rounds = old(self).spec_rounds();
                if commitment.round_id.0 != rounds.len() {
                    &&& r matches Err(ZkProofError::RoundMismatch)
                    &&& *final(self) == *old(self)
                } else if old(self).spec_edge_map().len() == 0 {
                    &&& r matches Err(ZkProofError::NoEdges)
                    &&& *final(self) == *old(self)
                } else {
                    &&& r matches Ok(c)
                    &&& c.round_id == commitment.round_id
                    &&& c.edge < old(self).spec_edge_map().len()
                    &&& final(self).spec_rounds().len() == rounds.len() + 1
                    &&& forall|i: int|
                        0 <= i < rounds.len() ==> #[trigger] final(self).spec_rounds()[i] == rounds[i]
                    &&& final(self).spec_rounds().last().commitments() == commitment.commitments@
                    &&& final(self).spec_rounds().last().challenge() == c.edge
                    &&& !final(self).spec_rounds().last().verified()
                    &&& !final(self).spec_rounds().last().answered()
                    &&& final(self).spec_current() == commitment.round_id
                }
            }),
    {
        if commitment.round_id.0 != self.rounds.len() {
            return Err(ZkProofError::RoundMismatch);
        }
        if self.edge_map.len() == 0 {
            return Err(ZkProofError::NoEdges);
        }
        let edge = random_below(self.edge_map.len());
        self.issue_challenge(commitment, edge)
    }

    /// Checks the Prover's response to the current challenge: the round and
    /// edge must be those challenged (`RoundMismatch`), the nodes the ends
    /// of the edge in its order (`NodeMismatch`), both committed
    /// (`NodeNotFound`), and each key must open its commitment
    /// (`InvalidReveal`). The round then succeeds exactly when the two
    /// revealed colours differ.
    pub fn verify_response(&mut self, response: ProverResponse) -> (r: Result<
        VerifierResult,
        ZkProofError,
    >)
        requires
            old(self).wf(),
        ensures
            final(self).wf(),
            final(self).spec_edge_map() == old(self).spec_edge_map(),
            final(self).spec_current() == old(self).spec_current(),
            ({
                let rounds = old(self).spec_rounds();
                let rid = response.round_id.0 as int;
                let map = old(self).spec_edge_map();
                let n1 = response.node1.node_idx;
                let n2 = response.node2.node_idx;
                let k1 = response.node1.node_key;
                let k2 = response.node2.node_key;
                if response.round_id != old(self).spec_current() || rid >= rounds.len()
                    || rounds[rid].challenge() != response.edge {
                    &&& r matches Err(ZkProofError::RoundMismatch)
                    &&& *final(self) == *old(self)
                } else if response.edge >= map.len() {
                    &&& r matches Err(ZkProofError::EdgeNotFound(e))
                    &&& e == response.edge
                    &&& *final(self) == *old(self)
                } else if (n1, n2) != map[response.edge as int] {
                    &&& r matches Err(ZkProofError::NodeMismatch)
                    &&& *final(self) == *old(self)
                } else if n1 >= rounds[rid].commitments().len() {
                    &&& r matches Err(ZkProofError::NodeNotFound(n))
                    &&& n == n1
                    &&& *final(self) == *old(self)
                } else if n2 >= rounds[rid].commitments().len() {
                    &&& r matches Err(ZkProofError::NodeNotFound(n))
                    &&& n == n2
                    &&& *final(self) == *old(self)
                } else if k1.digest() != rounds[rid].commitments()[n1 as int].digest() || k2.digest()
                    != rounds[rid].commitments()[n2 as int].digest() {
                    &&& r matches Err(ZkProofError::InvalidReveal(CommitmentError::InvalidReveal))
                    &&& *final(self) == *old(self)
                } else {
                    &&& r == Ok::<VerifierResult, ZkProofError>(
                        VerifierResult {
                            round_id: response.round_id,
                            success: k1.spec_value() != k2.spec_value(),
                        },
                    )
                    &&& final(self).spec_rounds().len() == rounds.len()
                    &&& forall|i: int|
                        0 <= i < rounds.len() && i != rid ==> #[trigger] final(self).spec_rounds()[i]
                            == rounds[i]
                    &&& final(self).spec_rounds()[rid].commitments() == rounds[rid].commitments()
                    &&& final(self).spec_rounds()[rid].challenge() == rounds[rid].challenge()
                    &&& final(self).spec_rounds()[rid].verified() == (k1.spec_value() != k2.spec_value())
                    &&& final(self).spec_rounds()[rid].answered()
                }
            }),
    {
        let round_id = response.round_id;
        let edge = response.edge;
        if round_id != self.current_round || round_id.0 >= self.rounds.len() {
            return Err(ZkProofError::RoundMismatch);
        }
        let round_idx = round_id.0;
        if self.rounds[round_idx].challenge_edge != edge {
            return Err(ZkProofError::RoundMismatch);
        }
        if edge >= self.edge_map.len() {
            return Err(ZkProofError::EdgeNotFound(edge));
        }
        let (expected_node1, expected_node2) = self.edge_map[edge];
        let ProverResponse { node1, node2, .. } = response;
        let NodeReveal { node_idx: node1_idx, node_key: node1_key } = node1;
        let NodeReveal { node_idx: node2_idx, node_key: node2_key } = node2;
        if node1_idx != expected_node1 || node2_idx != expected_node2 {
            return Err(ZkProofError::NodeMismatch);
        }
        let count = self.rounds[round_idx].commitment.commitments.len();
        if node1_idx >= count {
            return Err(ZkProofError::NodeNotFound(node1_idx));
        }
        if node2_idx >= count {
            return Err(ZkProofError::NodeNotFound(node2_idx));
        }
        let node1_commitment = self.rounds[round_idx].commitment.commitments[node1_idx].duplicate();
        let node2_commitment = self.rounds[round_idx].commitment.commitments[node2_idx].duplicate();
        let node1_revealed = match node1_commitment.reveal_with_key(node1_key) {
            Ok(c) => c,
            Err(e) => {
                return Err(ZkProofError::InvalidReveal(e));
            },
        };
        let node2_revealed = match node2_commitment.reveal_with_key(node2_key) {
            Ok(c) => c,
            Err(e) => {
                return Err(ZkProofError::InvalidReveal(e));
            },
        };
        let success = node1_revealed.key().value() != node2_revealed.key().value();
        let ghost before = self.rounds@;
        let mut round = match self.rounds.pop() {
            Some(round) => round,
            None => {
                proof {
                    assert(false);
                }
                vstd::pervasive::unreached()
            },
        };
        round.response = Some(
            ProverResponse {
                round_id,
                edge,
                node1: NodeReveal { node_idx: node1_idx, node_key: node1_revealed.key().duplicate() },
                node2: NodeReveal { node_idx: node2_idx, node_key: node2_revealed.key().duplicate() },
            },
        );
        round.verified = success;
        self.rounds.push(round);
        proof {
            assert forall|i: int| 0 <= i < before.len() && i != round_idx implies #[trigger] self.rounds@[i]
                == before[i] by {
                assert(before.drop_last()[i] == before[i]);
            }
        }
        Ok(VerifierResult { round_id, success })
    }

    /// Number of edges the Verifier can challenge.
    pub fn edge_map_len(&self) -> (r: usize)
        ensures
            r == self.spec_edge_map().len(),
    {
        self.edge_map.len()
    }

    /// The ends of edge `edge`, if it is known.
    pub fn edge_ends(&self, edge: usize) -> (r: Option<(usize, usize)>)
        ensures
            r is Some <==> edge < self.spec_edge_map().len(),
            r is Some ==> r->0 == self.spec_edge_map()[edge as int],
    {
        if edge < self.edge_map.len() {
            Some(self.edge_map[edge])
        } else {
            None
        }
    }

    /// Number of rounds started.
    pub fn round_count(&self) -> (r: usize)
        ensures
            r == self.spec_rounds().len(),
    {
        self.rounds.len()
    }

    pub fn current_round(&self) -> (r: RoundId)
        ensures
            r == self.spec_current(),
    {
        self.current_round
    }

    /// The edge challenged in round `round`, if that round was started.
    pub fn challenge_of(&self, round: usize) -> (r: Option<usize>)
        ensures
            r is Some <==> round < self.spec_rounds().len(),
            r is Some ==> r->0 == self.spec_rounds()[round as int].challenge(),
    {
        if round < self.rounds.len() {
            Some(self.rounds[round].challenge_edge)
        } else {
            None
        }
    }

    /// The confidence, in basis points, that the accepted rounds give
    /// against the known edges: `1 − (1 − 1/|E|)^N` for `N` accepted
    /// rounds, rounded down and never above the true value; 0 without
    /// edges.
    pub fn confidence_level(&self) -> (r: u64)
        ensures
            r <= BASIS,
            self.spec_edge_map().len() == 0 ==> r == 0,
            self.spec_edge_map().len() > 0 ==> ({
                let e = self.spec_edge_map().len() as int;
                let n = count_verified(self.spec_rounds());
                let p = power(e, n);
                let q = power(e - 1, n);
                &&& r * p <= BASIS * (p - q)
                &&& BASIS * (p - q) * SCALE < (r + 1) * p * SCALE + BASIS * n * p
            }),
    {
        confidence_bp(self.edge_map.len(), self.successful_rounds())
    }

    /// Number of accepted rounds.
    pub fn successful_rounds(&self) -> (r: usize)
        ensures
            r == count_verified(self.spec_rounds()),
    {
        let mut count: usize = 0;
        for i in 0..self.rounds.len()
            invariant
                count == count_verified(self.spec_rounds().subrange(0, i as int)),
                count <= i,
        {
            proof {
                let s = self.spec_rounds().subrange(0, i + 1);
                assert(s.drop_last() =~= self.spec_rounds().subrange(0, i as int));
            }
            if self.rounds[i].verified {
                count += 1;
            }
        }
        proof {
            assert(self.spec_rounds().subrange(0, self.spec_rounds().len() as int) =~= self.spec_rounds());
        }
        count
    }
}

} // verus!
