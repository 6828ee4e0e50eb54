use vstd::prelude::*;

use crate::commitment::{Commitment, CommitmentError, CommitmentKey, Hidden};

verus! {

/// Number of a protocol round, counted from zero.
#[derive(Debug, Clone, Copy, PartialEq, Eq, Hash, Structural)]
pub struct RoundId(pub usize);

/// The two ends of each edge of the graph, by edge index: all the Verifier
/// knows of the graph.
pub type EdgeNodeMap = Vec<(usize, usize)>;

/// The Prover's commitments of one round, one per node, by node index.
#[derive(Debug, Clone)]
pub struct ProverCommitment {
    pub round_id: RoundId,
    pub commitments: Vec<Commitment<Hidden>>,
}

/// The edge whose two ends the Verifier asks to see.
#[derive(Debug, Clone, Copy, PartialEq, Eq, Structural)]
pub struct VerifierChallenge {
    pub round_id: RoundId,
    pub edge: usize,
}

/// A node and the key that opens its commitment.
#[derive(Debug, Clone)]
pub struct NodeReveal {
    pub node_idx: usize,
    pub node_key: CommitmentKey,
}

/// The Prover's answer to a challenge: the keys of both ends of the edge.
#[derive(Debug, Clone)]
pub struct ProverResponse {
    pub round_id: RoundId,
    pub edge: usize,
    pub node1: NodeReveal,
    pub node2: NodeReveal,
}

/// The Verifier's verdict on a round.
#[derive(Debug, Clone, Copy, PartialEq, Eq, Structural)]
pub struct VerifierResult {
    pub round_id: RoundId,
    pub success: bool,
}

/// What can go wrong in a round of the protocol.
#[derive(Debug, Clone)]
pub enum ZkProofError {
    /// A node has no commitment.
    NodeNotFound(usize),
    /// The challenge names an edge the graph does not have.
    EdgeNotFound(usize),
    /// The revealed nodes are not the ends of the challenged edge, in order.
    NodeMismatch,
    /// A key does not open its commitment.
    InvalidReveal(CommitmentError),
    /// The Verifier knows no edge to challenge.
    NoEdges,
    /// A round number is out of step.
    RoundMismatch,
    /// The edge was already revealed in this round.
    AlreadyRevealed,
    /// A cell that must carry a value is empty.
    ValueNotFound,
    /// An inconsistent graph lookup.
    GraphError(String),
    /// The grid fails a structural check.
    SudokuError(String),
}

} // verus!
