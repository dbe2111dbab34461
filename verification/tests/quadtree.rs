use terrain_lod::quadtree::{full_size, node_index, QuadTree};

#[test]
fn tree_makes_sense_three_levels() {
    let q = QuadTree::build_complete_tree((0..21).collect(), 3);
    println!("{q:?}");
}

#[test]
fn at_level() {
    let q = QuadTree::build_complete_tree((0..21).collect(), 3);
    assert_eq!(q.items_at_level(0), vec![&0]);
    assert_eq!(q.items_at_level(1), vec![&1, &2, &3, &4]);
    assert_eq!(
        q.items_at_level(2)
            .into_iter()
            .map(|i| *i)
            .collect::<Vec<_>>(),
        (5..21).collect::<Vec<_>>()
    );
}

#[test]
fn mut_view() {
    let mut q = QuadTree::build_complete_tree((0..21).collect(), 3);
    let view = q.mut_view();
    for i in view.iter_mut() {
        *i += 1;
    }
    assert_eq!(q.items_at_level(0), vec![&1]);
}

#[test]
fn full_size_matches_node_counts() {
    // (4^d - 1) / 3 for d = 1 ..= 10, checked against direct enumeration:
    // each depth adds a fully populated level of 4^(d-1) nodes.
    let expected = [1u32, 5, 21, 85, 341, 1365, 5461, 21845, 87381, 349525];
    let mut nodes = 0u32;
    let mut level_count = 1u32;
    for d in 1..=10u32 {
        nodes += level_count;
        level_count *= 4;
        assert_eq!(full_size(d), nodes);
        assert_eq!(full_size(d), (4u32.pow(d) - 1) / 3);
        assert_eq!(expected[(d - 1) as usize], full_size(d));
    }
    assert_eq!(full_size(0), 0);
}

#[test]
fn node_index_is_bijective_per_level() {
    // Level 2 occupies positions 5 .. 21; every (row, col) pair maps to a
    // distinct position in that range and all of it is covered.
    let mut seen = vec![false; 21];
    for row in 0..4 {
        for col in 0..4 {
            let i = node_index(2, row, col) as usize;
            assert!(i >= 5 && i < 21);
            assert!(!seen[i]);
            seen[i] = true;
        }
    }
    assert!(seen[5..21].iter().all(|&b| b));
    assert_eq!(node_index(0, 0, 0), 0);
    assert_eq!(node_index(1, 0, 1), 2);
    assert_eq!(node_index(1, 1, 0), 3);
    assert_eq!(node_index(2, 1, 2), 5 + 4 + 2);
}

#[test]
fn levels_partition_the_input() {
    // Concatenating the levels of the built tree, in order, recovers the
    // input list exactly.
    let q = QuadTree::build_complete_tree((0..85).collect(), 4);
    let mut recovered: Vec<i32> = Vec::new();
    for level in 0..4 {
        recovered.extend(q.items_at_level(level).into_iter().map(|i| *i));
    }
    assert_eq!(recovered, (0..85).collect::<Vec<_>>());
}

#[test]
fn depth_is_recorded() {
    let q = QuadTree::build_complete_tree((0..5).collect(), 2);
    assert_eq!(q.depth(), 2);
    let q = QuadTree::build_complete_tree(vec![7u16], 1);
    assert_eq!(q.depth(), 1);
}
