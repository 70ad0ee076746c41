use aeonmi::quantum_algorithms::{
    brute_force_matching, decode_correction_chains, fired_defects, generate_permutations, greedy_matching,
    manhattan_distance, minimum_weight_matching, nearest_boundary, shors_factoring, FactoringError,
};

#[test]
fn manhattan_distance_adds_both_axes() {
    assert_eq!(manhattan_distance((1, 2), (4, 0)), 5);
    assert_eq!(manhattan_distance((4, 0), (1, 2)), 5);
    assert_eq!(manhattan_distance((3, 3), (3, 3)), 0);
}

#[test]
fn nearest_boundary_prefers_top_then_bottom_then_left() {
    assert_eq!(nearest_boundary((1, 3), 5), (0, 3));
    assert_eq!(nearest_boundary((3, 2), 5), (4, 2));
    assert_eq!(nearest_boundary((2, 0), 5), (2, 0));
    assert_eq!(nearest_boundary((2, 4), 5), (2, 4));
    // a tie between top and left goes to the top
    assert_eq!(nearest_boundary((1, 1), 5), (0, 1));
}

#[test]
fn index_sequences_shrink_their_range() {
    assert_eq!(generate_permutations(0), vec![Vec::<usize>::new()]);
    assert_eq!(generate_permutations(2), vec![vec![0, 0], vec![1, 0]]);
    let three = generate_permutations(3);
    assert_eq!(three.len(), 6);
    assert_eq!(three[0], vec![0, 0, 0]);
    assert_eq!(three[1], vec![0, 1, 0]);
    assert_eq!(three[5], vec![2, 1, 0]);
}

#[test]
fn brute_force_keeps_the_first_lightest_sequence() {
    // the sequence [0, 0] pairs the first defect with itself at distance 0
    assert_eq!(brute_force_matching(&[(0, 0), (0, 1)], 3), vec![(0, 0), (0, 0)]);
    // an odd count gets the virtual defect at the far corner
    assert_eq!(brute_force_matching(&[(1, 1)], 3), vec![(1, 1), (1, 1)]);
}

#[test]
fn greedy_pairs_closest_first_and_sends_the_last_to_the_boundary() {
    let chain = greedy_matching(&[(0, 0), (0, 5), (0, 1)], 10);
    assert_eq!(chain, vec![(0, 0), (0, 1), (0, 5), (0, 5)]);
    let chain = greedy_matching(&[(4, 4), (9, 9), (4, 6)], 10);
    assert_eq!(chain, vec![(4, 4), (4, 6), (9, 9), (9, 9)]);
}

#[test]
fn minimum_weight_matching_picks_the_matcher_by_size() {
    assert!(minimum_weight_matching(&[], 5).is_empty());
    assert_eq!(minimum_weight_matching(&[(0, 0), (0, 1)], 3), vec![(0, 0), (0, 0)]);
    let defects = [(0, 0), (0, 1), (5, 5), (5, 6), (10, 0), (10, 1), (0, 10), (1, 10)];
    let chain = minimum_weight_matching(&defects, 20);
    assert_eq!(chain, defects.to_vec());
}

#[test]
fn fired_defects_keep_order() {
    let syndromes = [(0, 0, true), (1, 1, false), (2, 3, true)];
    assert_eq!(fired_defects(&syndromes), vec![(0, 0), (2, 3)]);
    assert!(fired_defects(&[(4, 4, false)]).is_empty());
}

#[test]
fn decoder_matches_each_kind() {
    let (x, z) = decode_correction_chains(&[(0, 0, true), (0, 1, true), (2, 2, false)], &[(1, 1, false)], 3);
    assert_eq!(x, vec![(0, 0), (0, 0)]);
    assert!(z.is_empty());
}

#[test]
fn test_shors_factoring() {
    let result = shors_factoring(15).unwrap();
    assert!(result.0 * result.1 == 15);
    assert_eq!(result, (3, 5));
}

#[test]
fn factoring_cases() {
    assert_eq!(shors_factoring(0), Err(FactoringError::TooSmall));
    assert_eq!(shors_factoring(1), Err(FactoringError::TooSmall));
    assert_eq!(shors_factoring(14), Ok((2, 7)));
    assert_eq!(shors_factoring(49), Ok((7, 7)));
    assert_eq!(shors_factoring(97), Ok((1, 97)));
    assert_eq!(shors_factoring(105), Ok((3, 35)));
    assert_eq!(shors_factoring(125), Ok((5, 25)));
    assert_eq!(shors_factoring(221), Err(FactoringError::NoFactor));
    assert_eq!(FactoringError::TooSmall.message(), "Cannot factor numbers <= 1");
    assert_eq!(FactoringError::NoFactor.message(), "Factoring failed, try again");
}
