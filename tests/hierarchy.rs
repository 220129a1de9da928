use path_tracer::bvh::{build_bvh, split_node, BvhTree, NodeSplit};

/// The objects of `t`, left to right.
fn leaves(t: &BvhTree) -> Vec<usize> {
    match t {
        BvhTree::Single { object } => vec![*object],
        BvhTree::Pair { first, second } => vec![*first, *second],
        BvhTree::Split { left, right } => {
            let mut v = leaves(left);
            v.extend(leaves(right));
            v
        }
    }
}

fn levels(t: &BvhTree) -> usize {
    match t {
        BvhTree::Split { left, right } => 1 + levels(left).max(levels(right)),
        _ => 1,
    }
}

/// Keys that place object `i` at `position[i]`.
fn keys_from(position: Vec<u64>) -> impl Fn(&Vec<usize>) -> Vec<u64> {
    move |items: &Vec<usize>| items.iter().map(|&i| position[i]).collect()
}

#[test]
fn one_object_is_a_single_node() {
    let t = build_bvh(1, &keys_from(vec![7]));
    assert!(matches!(t, BvhTree::Single { object: 0 }));
}

#[test]
fn two_objects_are_ordered_by_key() {
    let t = build_bvh(2, &keys_from(vec![5, 3]));
    assert!(matches!(t, BvhTree::Pair { first: 1, second: 0 }));
    let t = build_bvh(2, &keys_from(vec![3, 5]));
    assert!(matches!(t, BvhTree::Pair { first: 0, second: 1 }));
    // Equal keys: the second object goes first.
    let t = build_bvh(2, &keys_from(vec![4, 4]));
    assert!(matches!(t, BvhTree::Pair { first: 1, second: 0 }));
}

#[test]
fn larger_ranges_are_sorted_and_split_at_the_midpoint() {
    let t = build_bvh(5, &keys_from(vec![40, 10, 30, 20, 0]));
    assert_eq!(leaves(&t), vec![4, 1, 3, 2, 0]);
    match &t {
        BvhTree::Split { left, right } => {
            assert!(matches!(**left, BvhTree::Pair { first: 4, second: 1 }));
            assert_eq!(leaves(right), vec![3, 2, 0]);
        }
        _ => panic!("five objects make a split node"),
    }
}

#[test]
fn equal_keys_keep_their_order_when_sorted() {
    let t = build_bvh(4, &keys_from(vec![1, 0, 1, 0]));
    assert_eq!(leaves(&t), vec![3, 1, 2, 0]);
}

#[test]
fn keys_of_the_wrong_count_keep_the_input_order() {
    let t = build_bvh(3, &|_: &Vec<usize>| vec![9]);
    assert_eq!(leaves(&t), vec![0, 2, 1]);
}

#[test]
fn every_object_is_in_exactly_one_leaf_and_depth_is_logarithmic() {
    for count in [1usize, 2, 3, 7, 100, 1000] {
        let position: Vec<u64> = (0..count as u64).map(|i| (i * 7919) % 1009).collect();
        let t = build_bvh(count, &keys_from(position));
        let mut seen = leaves(&t);
        seen.sort();
        assert_eq!(seen, (0..count).collect::<Vec<usize>>());
        let k = (usize::BITS - (count - 1).leading_zeros()).max(1) as usize;
        assert!(levels(&t) <= k, "{} objects, {} levels", count, levels(&t));
    }
}

#[test]
fn split_node_of_one_or_two_objects() {
    assert!(matches!(split_node(vec![9], vec![4]), NodeSplit::Single { object: 9 }));
    assert!(matches!(split_node(vec![8, 9], vec![1, 2]), NodeSplit::Pair { first: 8, second: 9 }));
    assert!(matches!(split_node(vec![8, 9], vec![2, 1]), NodeSplit::Pair { first: 9, second: 8 }));
    assert!(matches!(split_node(vec![8, 9], vec![2, 2]), NodeSplit::Pair { first: 9, second: 8 }));
}

#[test]
fn split_node_sorts_stably_and_cuts_at_the_midpoint() {
    match split_node(vec![5, 6, 7], vec![3, 1, 2]) {
        NodeSplit::Halves { left, right } => {
            assert_eq!(left, vec![6]);
            assert_eq!(right, vec![7, 5]);
        }
        other => panic!("three objects make halves, got {:?}", other),
    }
    match split_node(vec![10, 11, 12, 13, 14, 15], vec![2, 1, 2, 1, 0, 2]) {
        NodeSplit::Halves { left, right } => {
            assert_eq!(left, vec![14, 11, 13]);
            assert_eq!(right, vec![10, 12, 15]);
        }
        other => panic!("six objects make halves, got {:?}", other),
    }
}
