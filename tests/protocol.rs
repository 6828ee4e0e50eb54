use std::str::FromStr;

use zk_sudoku_prover::{
    Cell, CommitmentKey, Graph, NodeReveal, Position, Prover, ProverCommitment, ProverResponse,
    RoundId, SudokuGrid, Value, Verifier, VerifierChallenge, ZKProtocol, ZkProofError, Commitment,
    Hidden, EdgeNodeMap,
};

const VALID: &str =
    "296541378851273694743698251915764832387152946624839517139486725478325169562917483";
const INVALID: &str =
    "296541378851273694743698251915764832387152946624839517139486725478325169562917482";

fn create_valid_sudoku() -> SudokuGrid {
    SudokuGrid::from_str(VALID).unwrap()
}

fn create_invalid_sudoku() -> SudokuGrid {
    SudokuGrid::from_str(INVALID).unwrap()
}

fn create_test_edge_map() -> EdgeNodeMap {
    let mut edge_map = Vec::new();
    for i in 0..10 {
        edge_map.push((i, i + 1));
    }
    edge_map
}

fn create_test_commitment(round_id: RoundId) -> ProverCommitment {
    let grid = SudokuGrid::from_str(VALID).unwrap();
    let (mut prover, _) = Prover::new(&grid).unwrap();
    let commitment = prover.start_round();
    ProverCommitment {
        round_id,
        commitments: commitment.commitments,
    }
}

fn dummy_key(value: Value) -> CommitmentKey {
    CommitmentKey::new(value, vec![1, 2, 3, 4])
}

/// Commitments for nodes `0..=10` of the test edge map, coloured alternately,
/// with their keys.
fn committed_path(round_id: RoundId) -> (ProverCommitment, Vec<CommitmentKey>) {
    let mut commitments: Vec<Commitment<Hidden>> = Vec::new();
    let mut keys = Vec::new();
    for i in 0..11usize {
        let value = if i % 2 == 0 { Value::One } else { Value::Two };
        let (c, k) = Commitment::with_nonce(value, i, vec![i as u8; 32]);
        commitments.push(c);
        keys.push(k);
    }
    (ProverCommitment { round_id, commitments }, keys)
}

fn answer(challenge: VerifierChallenge, edge_map: &EdgeNodeMap, keys: &[CommitmentKey]) -> ProverResponse {
    let (a, b) = edge_map[challenge.edge];
    ProverResponse {
        round_id: challenge.round_id,
        edge: challenge.edge,
        node1: NodeReveal { node_idx: a, node_key: keys[a].clone() },
        node2: NodeReveal { node_idx: b, node_key: keys[b].clone() },
    }
}

#[test]
fn test_prover_creation_valid_sudoku() {
    let grid = create_valid_sudoku();
    let result = Prover::new(&grid);
    assert!(result.is_ok());

    let (_, edge_map) = result.unwrap();
    assert!(!edge_map.is_empty());
}

// Validity of the solution is left to the protocol: a Prover for an invalid
// but full grid is built, and caught by the rounds.
#[test]
fn test_prover_creation_invalid_sudoku() {
    let grid = create_invalid_sudoku();
    let result = Prover::new(&grid);
    assert!(result.is_ok());
    assert!(!matches!(result, Err(ZkProofError::SudokuError(_))));
}

#[test]
fn test_start_round() {
    let grid = create_valid_sudoku();
    let (mut prover, _) = Prover::new(&grid).unwrap();

    let commitment = prover.start_round();
    assert_eq!(commitment.round_id, RoundId(0));
    assert!(!commitment.commitments.is_empty());
}

#[test]
fn prover_test_multiple_rounds() {
    let grid = create_valid_sudoku();
    let (mut prover, _) = Prover::new(&grid).unwrap();

    let commitment1 = prover.start_round();
    assert_eq!(commitment1.round_id, RoundId(0));

    let commitment2 = prover.start_round();
    assert_eq!(commitment2.round_id, RoundId(1));

    let mut all_different = true;
    for (node, comm1) in commitment1.commitments.iter().enumerate() {
        if let Some(comm2) = commitment2.commitments.get(node) {
            if comm1.hash() == comm2.hash() {
                all_different = false;
                break;
            }
        }
    }
    assert!(
        all_different,
        "Commitments from different rounds should differ"
    );
}

#[test]
fn test_respond_to_challenge() {
    let grid = create_valid_sudoku();
    let (mut prover, edge_map) = Prover::new(&grid).unwrap();

    let commitment = prover.start_round();

    let edge = 0;
    let challenge = VerifierChallenge {
        round_id: commitment.round_id,
        edge,
    };

    let response = prover.respond_to_challenge(challenge);
    assert!(response.is_ok());

    let response = response.unwrap();
    assert_eq!(response.round_id, commitment.round_id);
    assert_eq!(response.edge, edge);

    let (expected_node1, expected_node2) = edge_map[edge];
    assert!(
        (response.node1.node_idx == expected_node1 && response.node2.node_idx == expected_node2)
            || (response.node1.node_idx == expected_node2
                && response.node2.node_idx == expected_node1)
    );
}

#[test]
fn test_challenge_wrong_round() {
    let grid = create_valid_sudoku();
    let (mut prover, _) = Prover::new(&grid).unwrap();

    prover.start_round();
    prover.start_round();

    let challenge = VerifierChallenge {
        round_id: RoundId(0),
        edge: 0,
    };

    let response = prover.respond_to_challenge(challenge);
    assert!(matches!(response, Err(ZkProofError::RoundMismatch)));
}

#[test]
fn test_challenge_same_edge_twice() {
    let grid = create_valid_sudoku();
    let (mut prover, _) = Prover::new(&grid).unwrap();

    let commitment = prover.start_round();

    let challenge = VerifierChallenge {
        round_id: commitment.round_id,
        edge: 0,
    };

    assert!(prover.respond_to_challenge(challenge).is_ok());

    let result = prover.respond_to_challenge(challenge);
    assert!(matches!(result, Err(ZkProofError::AlreadyRevealed)));
}

#[test]
fn test_challenge_nonexistent_edge() {
    let grid = create_valid_sudoku();
    let (mut prover, edge_map) = Prover::new(&grid).unwrap();

    let commitment = prover.start_round();

    let invalid_edge = edge_map.len();

    let challenge = VerifierChallenge {
        round_id: commitment.round_id,
        edge: invalid_edge,
    };

    let result = prover.respond_to_challenge(challenge);
    assert!(matches!(result, Err(ZkProofError::EdgeNotFound(_))));
}

#[test]
fn test_revealed_values_valid_for_edge() {
    let grid = create_valid_sudoku();
    let (mut prover, edge_map) = Prover::new(&grid).unwrap();

    let commitment = prover.start_round();

    for edge in 0..edge_map.len() {
        let challenge = VerifierChallenge {
            round_id: commitment.round_id,
            edge,
        };
        let response = prover.respond_to_challenge(challenge).unwrap();
        assert_ne!(
            response.node1.node_key.value(),
            response.node2.node_key.value(),
            "Connected nodes should have different values"
        );
    }
}

#[test]
fn test_verifier_creation() {
    let edge_map = create_test_edge_map();
    let verifier = Verifier::new(edge_map.clone());

    assert_eq!(verifier.round_count(), 0);
    assert_eq!(verifier.current_round(), RoundId(0));
    assert_eq!(verifier.edge_map_len(), edge_map.len());
}

#[test]
fn test_receive_valid_commitment() {
    let edge_map = create_test_edge_map();
    let mut verifier = Verifier::new(edge_map);

    let commitment = create_test_commitment(RoundId(0));
    let challenge_result = verifier.receive_commitment(commitment);

    assert!(challenge_result.is_ok());

    let challenge = challenge_result.unwrap();
    assert_eq!(challenge.round_id, RoundId(0));
    assert!(verifier.edge_ends(challenge.edge).is_some());
}

#[test]
fn test_receive_commitment_wrong_round_id() {
    let edge_map = create_test_edge_map();
    let mut verifier = Verifier::new(edge_map);

    let commitment = create_test_commitment(RoundId(5));
    let result = verifier.receive_commitment(commitment);

    assert!(matches!(result, Err(ZkProofError::RoundMismatch)));
}

#[test]
fn test_receive_commitment_no_edges() {
    let empty_edge_map = Vec::new();
    let mut verifier = Verifier::new(empty_edge_map);

    let commitment = create_test_commitment(RoundId(0));
    let result = verifier.receive_commitment(commitment);

    assert!(matches!(result, Err(ZkProofError::NoEdges)));
}

#[test]
fn verifier_test_multiple_rounds() {
    let edge_map = create_test_edge_map();
    let mut verifier = Verifier::new(edge_map);

    let commitment0 = create_test_commitment(RoundId(0));
    let challenge0 = verifier.receive_commitment(commitment0).unwrap();
    assert_eq!(challenge0.round_id, RoundId(0));

    let commitment1 = create_test_commitment(RoundId(1));
    let challenge1 = verifier.receive_commitment(commitment1).unwrap();
    assert_eq!(challenge1.round_id, RoundId(1));

    assert_eq!(verifier.round_count(), 2);
    assert_eq!(verifier.current_round(), RoundId(1));
}

#[test]
fn test_verify_response_success() {
    let grid = SudokuGrid::from_str(VALID).unwrap();
    let (mut prover, edge_map) = Prover::new(&grid).unwrap();
    let mut verifier = Verifier::new(edge_map);

    let commitment = prover.start_round();
    let challenge = verifier.receive_commitment(commitment).unwrap();

    let response = prover.respond_to_challenge(challenge).unwrap();

    let result = verifier.verify_response(response);

    assert!(result.is_ok());
    let result = result.unwrap();
    assert!(result.success);
}

#[test]
fn test_verify_response_wrong_round() {
    let edge_map = create_test_edge_map();
    let mut verifier = Verifier::new(edge_map);

    let commitment = create_test_commitment(RoundId(0));
    let challenge = verifier.receive_commitment(commitment).unwrap();

    let response = ProverResponse {
        round_id: RoundId(5),
        edge: challenge.edge,
        node1: NodeReveal { node_idx: 0, node_key: dummy_key(Value::One) },
        node2: NodeReveal { node_idx: 1, node_key: dummy_key(Value::Two) },
    };

    let result = verifier.verify_response(response);
    assert!(matches!(result, Err(ZkProofError::RoundMismatch)));
}

#[test]
fn test_verify_response_wrong_edge() {
    let edge_map = create_test_edge_map();
    let mut verifier = Verifier::new(edge_map);

    let commitment = create_test_commitment(RoundId(0));
    verifier.receive_commitment(commitment).unwrap();

    let wrong_edge = 99;
    let response = ProverResponse {
        round_id: RoundId(0),
        edge: wrong_edge,
        node1: NodeReveal { node_idx: 0, node_key: dummy_key(Value::One) },
        node2: NodeReveal { node_idx: 1, node_key: dummy_key(Value::Two) },
    };

    let result = verifier.verify_response(response);
    assert!(result.is_err());
}

#[test]
fn test_verify_response_wrong_nodes() {
    let mut edge_map = create_test_edge_map();
    let test_edge = 0;
    edge_map[test_edge] = (99, 100);

    let mut verifier = Verifier::new(edge_map);

    let commitment = create_test_commitment(RoundId(0));
    verifier.issue_challenge(commitment, test_edge).unwrap();

    let response = ProverResponse {
        round_id: RoundId(0),
        edge: test_edge,
        node1: NodeReveal { node_idx: 0, node_key: dummy_key(Value::One) },
        node2: NodeReveal { node_idx: 1, node_key: dummy_key(Value::Two) },
    };

    let result = verifier.verify_response(response);
    assert!(matches!(result, Err(ZkProofError::NodeMismatch)));
}

#[test]
fn test_confidence_level() {
    let edge_map = create_test_edge_map();
    let mut verifier = Verifier::new(edge_map.clone());

    assert_eq!(verifier.confidence_level(), 0);

    for i in 0..10 {
        let (commitment, keys) = committed_path(RoundId(i));
        let challenge = verifier.receive_commitment(commitment).unwrap();
        let result = verifier.verify_response(answer(challenge, &edge_map, &keys)).unwrap();
        assert!(result.success);
    }

    let confidence = verifier.confidence_level();
    assert!(confidence > 0);
    assert!(confidence <= 10000);
    // 1 - 0.9^10 = 65.13...%
    assert_eq!(confidence, 6513);

    for i in 10..20 {
        let (commitment, keys) = committed_path(RoundId(i));
        let challenge = verifier.receive_commitment(commitment).unwrap();
        verifier.verify_response(answer(challenge, &edge_map, &keys)).unwrap();
    }

    let new_confidence = verifier.confidence_level();
    assert!(new_confidence > confidence);
    // 1 - 0.9^20 = 87.84...%
    assert_eq!(new_confidence, 8784);
    assert_eq!(verifier.successful_rounds(), 20);
}

#[test]
fn test_full_zkproof_flow() {
    let grid = SudokuGrid::from_str(VALID).unwrap();

    let (mut prover, edge_map) = Prover::new(&grid).unwrap();
    let mut verifier = Verifier::new(edge_map);

    for _ in 0..100 {
        let commitment = prover.start_round();
        let challenge = verifier.receive_commitment(commitment).unwrap();
        let response = prover.respond_to_challenge(challenge).unwrap();
        let result = verifier.verify_response(response).unwrap();
        assert!(result.success);

        let confidence = verifier.confidence_level();
        println!("Confidence: {:.2}%", confidence as f64 / 100.0);
    }

    let confidence = verifier.confidence_level();
    println!("Confidence: {:.2}%", confidence as f64 / 100.0);
    assert!(confidence > 900);
}

#[test]
fn valid_solution_proves_with_full_confidence() {
    let grid = create_valid_sudoku();
    let mut protocol = ZKProtocol::new(&grid).unwrap();
    assert_eq!(protocol.prove_with_confidence(9900).unwrap(), true);
    let rounds = protocol.verifier_ref().round_count();
    assert_eq!(rounds, 3894);
    assert_eq!(protocol.verifier_ref().successful_rounds(), rounds);
}

#[test]
fn invalid_solution_is_rejected() {
    let grid = create_invalid_sudoku();
    let mut protocol = ZKProtocol::new(&grid).unwrap();
    assert_eq!(protocol.run_proof(20000).unwrap(), false);
    let rounds = protocol.verifier_ref().round_count();
    assert_eq!(protocol.verifier_ref().successful_rounds(), rounds - 1);
}

#[test]
fn tampered_key_value_is_an_invalid_reveal() {
    let grid = create_valid_sudoku();
    let (mut prover, edge_map) = Prover::new(&grid).unwrap();
    let mut verifier = Verifier::new(edge_map);
    let commitment = prover.start_round();
    let challenge = verifier.receive_commitment(commitment).unwrap();
    let mut response = prover.respond_to_challenge(challenge).unwrap();
    let key = &response.node1.node_key;
    let other = if key.value() == Value::One { Value::Two } else { Value::One };
    response.node1.node_key = CommitmentKey::new(other, key.nonce().to_vec());
    assert!(matches!(
        verifier.verify_response(response),
        Err(ZkProofError::InvalidReveal(_))
    ));
}

#[test]
fn swapped_endpoints_are_a_node_mismatch() {
    let grid = create_valid_sudoku();
    let (mut prover, edge_map) = Prover::new(&grid).unwrap();
    let mut verifier = Verifier::new(edge_map);
    let commitment = prover.start_round();
    let challenge = verifier.receive_commitment(commitment).unwrap();
    let response = prover.respond_to_challenge(challenge).unwrap();
    let swapped = ProverResponse {
        round_id: response.round_id,
        edge: response.edge,
        node1: response.node2,
        node2: response.node1,
    };
    assert!(matches!(
        verifier.verify_response(swapped),
        Err(ZkProofError::NodeMismatch)
    ));
}

#[test]
fn round_desync_is_a_round_mismatch() {
    let grid = create_valid_sudoku();
    let (mut prover, _) = Prover::new(&grid).unwrap();
    prover.start_round();
    let challenge = VerifierChallenge { round_id: RoundId(1), edge: 0 };
    assert!(matches!(
        prover.respond_to_challenge(challenge),
        Err(ZkProofError::RoundMismatch)
    ));
}

#[test]
fn double_reveal_is_refused() {
    let grid = create_valid_sudoku();
    let (mut prover, edge_map) = Prover::new(&grid).unwrap();
    let mut verifier = Verifier::new(edge_map);
    let commitment = prover.start_round();
    let challenge = verifier.receive_commitment(commitment).unwrap();
    assert!(prover.respond_to_challenge(challenge).is_ok());
    assert!(matches!(
        prover.respond_to_challenge(challenge),
        Err(ZkProofError::AlreadyRevealed)
    ));
}

#[test]
fn response_before_any_round_is_a_round_mismatch() {
    let grid = create_valid_sudoku();
    let (mut prover, _) = Prover::new(&grid).unwrap();
    let challenge = VerifierChallenge { round_id: RoundId(0), edge: 0 };
    assert!(matches!(
        prover.respond_to_challenge(challenge),
        Err(ZkProofError::RoundMismatch)
    ));
}

#[test]
fn empty_cell_gives_value_not_found() {
    let grid = SudokuGrid::from_str(&format!(".{}", &VALID[1..])).unwrap();
    assert!(matches!(Prover::new(&grid), Err(ZkProofError::ValueNotFound)));
    assert!(matches!(ZKProtocol::new(&grid), Err(ZkProofError::ValueNotFound)));
}

#[test]
fn missing_commitment_gives_node_not_found() {
    let mut verifier = Verifier::new(vec![(0, 95)]);
    let commitment = create_test_commitment(RoundId(0));
    let challenge = verifier.issue_challenge(commitment, 0).unwrap();
    let response = ProverResponse {
        round_id: challenge.round_id,
        edge: 0,
        node1: NodeReveal { node_idx: 0, node_key: dummy_key(Value::One) },
        node2: NodeReveal { node_idx: 95, node_key: dummy_key(Value::Two) },
    };
    assert!(matches!(
        verifier.verify_response(response),
        Err(ZkProofError::NodeNotFound(95))
    ));
}

#[test]
fn challenging_an_unknown_edge_is_refused() {
    let mut verifier = Verifier::new(create_test_edge_map());
    let commitment = create_test_commitment(RoundId(0));
    assert!(matches!(
        verifier.issue_challenge(commitment, 10),
        Err(ZkProofError::EdgeNotFound(10))
    ));
    assert_eq!(verifier.round_count(), 0);
}

#[test]
fn rounds_needed_for_confidence() {
    assert_eq!(ZKProtocol::calculate_rounds_needed(846, 9900), 3894);
    assert_eq!(ZKProtocol::calculate_rounds_needed(1, 9900), 1);
    assert_eq!(ZKProtocol::calculate_rounds_needed(2, 5000), 1);
    assert_eq!(ZKProtocol::calculate_rounds_needed(10, 9900), 44);
    assert_eq!(ZKProtocol::calculate_rounds_needed(100, 9000), 230);
    for (edges, bp) in [(846usize, 9900u64), (10, 9900), (100, 9000), (2000, 9999)] {
        let n = ZKProtocol::calculate_rounds_needed(edges, bp);
        let escape = (1.0 - 1.0 / edges as f64).powi(n as i32);
        assert!(1.0 - escape >= bp as f64 / 10000.0 - 1e-12);
        let escape_before = (1.0 - 1.0 / edges as f64).powi(n as i32 - 1);
        assert!(1.0 - escape_before < bp as f64 / 10000.0);
    }
}

#[test]
fn colouring_graph_of_a_solution_is_proper() {
    let grid = create_valid_sudoku();
    let graph = Graph::from_sudoku(&grid);
    assert_eq!(graph.node_count(), 90);
    // 324 row, 324 column and 162 further box pairs, 36 clique pairs.
    assert_eq!(graph.edge_count(), 846);
    for (a, b) in graph.edges() {
        assert!(a < b);
        assert_ne!(graph.node_value(a), graph.node_value(b));
    }
    let nodes = graph.nodes();
    assert_eq!(nodes[0], (0, Value::Two));
    assert_eq!(nodes[81], (81, Value::One));
    assert_eq!(nodes[89], (89, Value::Nine));
}

#[test]
fn colouring_graph_of_a_non_solution_has_a_monochrome_edge() {
    let grid = create_invalid_sudoku();
    let graph = Graph::from_sudoku(&grid);
    let clashes = graph
        .edges()
        .into_iter()
        .filter(|&(a, b)| graph.node_value(a) == graph.node_value(b))
        .count();
    // The last cell clashes with one cell of its row, column and box.
    assert_eq!(clashes, 3);
    assert!(graph.get_edge_nodes(graph.edge_count()).is_err());
}

#[test]
fn hints_are_joined_to_the_other_clique_nodes() {
    let mut cells = [[Cell::Empty; 9]; 9];
    for (i, c) in VALID.chars().enumerate() {
        cells[i / 9][i % 9] = Cell::guess_from_char(c);
    }
    cells[0][0] = Cell::hint_from_char('2');
    let grid = SudokuGrid::from_cells(cells);
    assert_eq!(
        grid.get_cell(zk_sudoku_prover::Point::new(Position::ONE, Position::ONE)),
        Cell::Hint(Value::Two)
    );
    let graph = Graph::from_sudoku(&grid);
    assert_eq!(graph.edge_count(), 846 + 8);
    let hint_edges: Vec<(usize, usize)> =
        graph.edges().into_iter().filter(|&(a, b)| a == 0 && b >= 81).collect();
    assert_eq!(hint_edges.len(), 8);
    assert!(!hint_edges.contains(&(0, 82)));
    let mut protocol = ZKProtocol::new(&grid).unwrap();
    assert_eq!(protocol.run_proof(200).unwrap(), true);
}

#[test]
fn protocol_round_ids_advance() {
    let grid = create_valid_sudoku();
    let mut protocol = ZKProtocol::new(&grid).unwrap();
    for i in 0..5 {
        let result = protocol.run_round().unwrap();
        assert_eq!(result.round_id, RoundId(i));
        assert!(result.success);
    }
    assert_eq!(protocol.prover_ref().round_count(), 5);
    assert_eq!(protocol.prover_ref().current_round(), RoundId(4));
    assert_eq!(protocol.verifier_ref().challenge_of(5), None);
    assert!(protocol.verifier_ref().challenge_of(4).unwrap() < 846);
}
