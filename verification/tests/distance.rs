use concorde_rs::Distance;
use concorde_rs::LowerDistanceMatrix;
use concorde_rs::MatrixError;
use concorde_rs::Node;

#[test]
fn test_get_node() {
    assert_eq!(LowerDistanceMatrix::get_node(0, 0), 0);
    assert_eq!(LowerDistanceMatrix::get_node(2, 3), 8);
    assert_eq!(LowerDistanceMatrix::get_node(3, 2), 8);
}

#[test]
fn test_get_node_distinct_pairs() {
    // Distinct unordered pairs within bounds get distinct storage slots.
    let n = 6usize;
    let mut seen = vec![false; n * (n + 1) / 2];
    for i in 0..n {
        for j in 0..=i {
            let slot = LowerDistanceMatrix::get_node(i, j);
            assert_eq!(slot, LowerDistanceMatrix::get_node(j, i));
            assert!(slot < seen.len());
            assert!(!seen[slot]);
            seen[slot] = true;
        }
    }
    assert!(seen.iter().all(|&s| s));
}

#[test]
fn test_dist_example() {
    let dist_mat = LowerDistanceMatrix::new(4, vec![0, 3, 0, 4, 4, 0, 2, 6, 5, 0]);
    assert_eq!(dist_mat.dist(3, 2), 5);
    assert_eq!(dist_mat.dist(2, 3), 5);
}

#[test]
fn test_dist_symmetry() {
    let dist_mat = LowerDistanceMatrix::new(5, vec![0, 3, 0, 4, 4, 0, 2, 6, 5, 0, 7, 3, 8, 6, 0]);
    for a in 0..5 {
        for b in 0..5 {
            assert_eq!(dist_mat.dist(a, b), dist_mat.dist(b, a));
        }
    }
}

#[test]
fn test_dist_mut_example() {
    let mut dist_mat = LowerDistanceMatrix::new(4, vec![0, 3, 0, 4, 4, 0, 2, 6, 5, 0]);
    *dist_mat.dist_mut(3, 2) = 10;
    assert_eq!(dist_mat.dist(2, 3), 10);
}

#[test]
fn test_try_dist_out_of_range() {
    let dist_mat = LowerDistanceMatrix::new(4, vec![0, 3, 0, 4, 4, 0, 2, 6, 5, 0]);
    assert_eq!(dist_mat.try_dist(4, 0), Err(MatrixError::OutOfRange));
    assert_eq!(dist_mat.try_dist(0, 4), Err(MatrixError::OutOfRange));
    assert_eq!(dist_mat.try_dist(3, 1), Ok(6));
    assert_eq!(dist_mat.try_dist(1, 3), Ok(6));
}

#[test]
fn test_try_dist_malformed_matrix() {
    // Packed storage too short for the claimed node count: in-range node
    // indices still surface the typed failure instead of reading beyond it.
    let dist_mat = LowerDistanceMatrix::new(4, vec![0, 3, 0]);
    assert_eq!(dist_mat.try_dist(3, 3), Err(MatrixError::OutOfRange));
    assert_eq!(dist_mat.try_dist(1, 0), Ok(3));
}

#[test]
fn test_try_new_checks_length() {
    let ok = LowerDistanceMatrix::try_new(4, vec![0, 3, 0, 4, 4, 0, 2, 6, 5, 0]);
    match ok {
        Ok(m) => {
            assert_eq!(m.num_nodes, 4);
            assert_eq!(m.values.len(), 10);
        }
        Err(_) => panic!("ten packed values fit four nodes"),
    }
    let bad = LowerDistanceMatrix::try_new(4, vec![0, 3, 0]);
    match bad {
        Ok(_) => panic!("three packed values do not fit four nodes"),
        Err(e) => assert_eq!(e, MatrixError::WrongLength),
    }
}

#[test]
fn test_construction_from_nodes() {
    let nodes: Vec<Node> = vec![Node(0, 0), Node(0, 3), Node(5, 6), Node(9, 1)];
    let mat = LowerDistanceMatrix::from_nodes(&nodes);
    assert_eq!(mat.num_nodes, 4);
    assert_eq!(mat.values, vec![0, 3, 0, 11, 8, 0, 10, 11, 9, 0]);
}

#[test]
fn test_construction_from_single_node() {
    let nodes: Vec<Node> = vec![Node(7, -3)];
    let mat = LowerDistanceMatrix::from_nodes(&nodes);
    assert_eq!(mat.num_nodes, 1);
    assert_eq!(mat.values, vec![0]);
}

#[test]
fn test_node_manhattan_distance() {
    assert_eq!(Node(2, 3).calc_shortest_dist(&Node(5, 1)), 5);
    assert_eq!(Node(-4, 0).calc_shortest_dist(&Node(4, -1)), 9);
    assert_eq!(Node(1, 1).calc_shortest_dist(&Node(1, 1)), 0);
    // The cost saturates instead of overflowing.
    assert_eq!(
        Node(i32::MIN, i32::MIN).calc_shortest_dist(&Node(i32::MAX, i32::MAX)),
        u32::MAX
    );
}
