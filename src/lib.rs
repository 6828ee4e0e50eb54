//! An interactive zero-knowledge proof that a Prover knows a solution of a
//! Sudoku puzzle: the puzzle is reduced to a 9-colouring of a graph, and each
//! round the Prover commits to a freshly permuted colouring of which the
//! Verifier opens the two ends of one random edge.

mod cell;
mod colour_shuffle;
mod colouring;
mod commitment;
mod confidence;
mod graph;
mod grid;
mod point;
mod position;
mod protocol;
mod prover;
mod random;
mod set;
mod types;
mod value;
mod zk_verifier;

pub use cell::{cell_char, char_meaning, digit_char, Cell};
pub use colour_shuffle::{is_permutation, lemma_reveal_pairs, swap_value, ColourShuffle};
pub use colouring::lemma_proper_colouring_iff_valid;
pub use commitment::{
    blake3_digest, bytes_equal, commitment_digest, commitment_input, compute_hash, lemma_binding,
    lemma_commitment_input_injective, Commitment, CommitmentError, CommitmentKey, Hidden, Revealed,
    NONCE_LEN,
};
pub use confidence::{
    confidence_bp, confidence_reached, power, rounds_for_confidence, BASIS, SCALE,
};
pub use graph::{
    adjacent, node_label, pair_rank, pet_edges, pet_nodes, same_unit, Graph,
    GraphError, SudokuNode, NODE_COUNT,
};
pub use grid::{divider_text, grid_text, is_grid_text, parsed_cell, row_text, SudokuGrid};
pub use point::Point;
pub use position::{box_first, box_second, Position};
pub use protocol::ZKProtocol;
pub use prover::{lemma_completeness, Prover, ProverRound};
pub use set::{all_empty, all_filled, no_repeated_value, Box, CellSet, Column, Row, SetType};
pub use types::{
    EdgeNodeMap, NodeReveal, ProverCommitment, ProverResponse, RoundId, VerifierChallenge,
    VerifierResult, ZkProofError,
};
pub use value::Value;
pub use zk_verifier::{count_verified, Verifier, VerifierRound};
