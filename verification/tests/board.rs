use wasm_goban::grid::{grid_segments, size2grid_node};
use wasm_goban::stars::size2stars;

#[test]
fn grid_node_corner_edge_and_centre_of_nine() {
    let node = size2grid_node((9, 9));
    assert_eq!(node.len(), 9);
    for column in &node {
        assert_eq!(column.len(), 9);
    }
    assert_eq!(node[0][0], vec![[1, 0], [0, 1]]);
    assert_eq!(node[8][8], vec![[7, 8], [8, 7]]);
    assert_eq!(node[0][4], vec![[0, 3], [1, 4], [0, 5]]);
    assert_eq!(node[4][4], vec![[3, 4], [4, 3], [5, 4], [4, 5]]);
    assert_eq!(node[8][0], vec![[7, 0], [8, 1]]);
}

#[test]
fn grid_node_of_single_point_has_no_lines() {
    let node = size2grid_node((1, 1));
    assert_eq!(node, vec![vec![Vec::<[usize; 2]>::new()]]);
}

#[test]
fn grid_node_of_empty_board() {
    assert!(size2grid_node((0, 0)).is_empty());
    assert!(size2grid_node((0, 5)).iter().all(|column| column.is_empty()));
    assert_eq!(size2grid_node((0, 5)).len(), 5);
    assert!(size2grid_node((5, 0)).is_empty());
}

#[test]
fn grid_node_of_non_square_board_follows_the_table_shape() {
    // 3 entries per column, 2 columns: the last column still lists a
    // following column, since its index is not `x - 1`.
    let node = size2grid_node((3, 2));
    assert_eq!(node.len(), 2);
    assert_eq!(node[0].len(), 3);
    assert_eq!(node[1][0], vec![[0, 0], [2, 0], [1, 1]]);
}

#[test]
fn grid_neighbours_are_adjacent_and_symmetric_on_square_boards() {
    for n in [1u32, 2, 5, 9, 13, 19] {
        let node = size2grid_node((n, n));
        let n = n as usize;
        for c in 0..n {
            for r in 0..n {
                let links = &node[c][r];
                let mut expected = 0;
                if c > 0 { expected += 1; }
                if r > 0 { expected += 1; }
                if c + 1 < n { expected += 1; }
                if r + 1 < n { expected += 1; }
                assert_eq!(links.len(), expected);
                for q in links {
                    assert!(q[0] < n && q[1] < n);
                    assert_eq!(q[0].abs_diff(c) + q[1].abs_diff(r), 1);
                    assert!(node[q[0]][q[1]].contains(&[c, r]));
                }
            }
        }
    }
}

#[test]
fn segments_of_nine_by_nine() {
    let node = size2grid_node((9, 9));
    let segs = grid_segments(&node);
    // 2 directions * 2 orientations * 9 lines * 8 gaps
    assert_eq!(segs.len(), 288);
    assert_eq!(segs[0], ([0, 0], [1, 0]));
    assert_eq!(segs[1], ([0, 0], [0, 1]));
    assert_eq!(segs[2], ([0, 1], [0, 0]));
    assert_eq!(segs[3], ([0, 1], [1, 1]));
    for (p, q) in &segs {
        assert_eq!(p[0].abs_diff(q[0]) + p[1].abs_diff(q[1]), 1);
        assert!(segs.contains(&(*q, *p)));
    }
}

#[test]
fn segments_of_empty_table() {
    assert!(grid_segments(&Vec::new()).is_empty());
    assert!(grid_segments(&size2grid_node((1, 1))).is_empty());
}

#[test]
fn stars_of_nineteen() {
    let stars = size2stars((19, 19));
    let expected: Vec<Vec<usize>> = vec![
        vec![3, 3], vec![3, 9], vec![3, 15],
        vec![9, 3], vec![9, 9], vec![9, 15],
        vec![15, 3], vec![15, 9], vec![15, 15],
    ];
    assert_eq!(stars, expected);
}

#[test]
fn stars_of_thirteen() {
    let stars = size2stars((13, 13));
    assert_eq!(stars.len(), 9);
    assert_eq!(stars[0], vec![3, 3]);
    assert_eq!(stars[4], vec![6, 6]);
    assert_eq!(stars[8], vec![9, 9]);
}

#[test]
fn stars_of_small_and_even_boards() {
    assert_eq!(size2stars((9, 9)), vec![vec![4, 4]]);
    assert_eq!(size2stars((11, 11)), vec![vec![5, 5]]);
    assert_eq!(size2stars((1, 1)), vec![vec![0, 0]]);
    assert!(size2stars((8, 8)).is_empty());
    assert!(size2stars((19, 18)).is_empty());
    assert!(size2stars((0, 0)).is_empty());
    // one side too short for nine points: the centre alone
    assert_eq!(size2stars((19, 9)), vec![vec![9, 4]]);
}

#[test]
fn stars_are_on_board_and_symmetric() {
    for x in 0u32..24 {
        for y in 0u32..24 {
            let stars = size2stars((x, y));
            assert!(stars.len() == 0 || stars.len() == 1 || stars.len() == 9);
            assert_eq!(!stars.is_empty(), x % 2 == 1 && y % 2 == 1);
            for s in &stars {
                assert!(s[0] < x as usize && s[1] < y as usize);
                assert!(stars.contains(&vec![x as usize - 1 - s[0], s[1]]));
                assert!(stars.contains(&vec![s[0], y as usize - 1 - s[1]]));
            }
            if !stars.is_empty() {
                assert!(stars.contains(&vec![x as usize / 2, y as usize / 2]));
            }
        }
    }
}
