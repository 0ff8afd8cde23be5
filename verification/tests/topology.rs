use two_kings::position::{touching_neighbors, Position};

fn cells(found: &[Position]) -> Vec<(usize, usize)> {
    found.iter().map(|p| (p.x, p.y)).collect()
}

#[test]
fn position_new_keeps_both_coordinates() {
    let p = Position::new(3, 7);
    assert_eq!(p.x, 3);
    assert_eq!(p.y, 7);
    assert_eq!(p, Position { x: 3, y: 7 });
}

#[test]
fn corner_cell_has_three_neighbors() {
    let found = touching_neighbors(0, 0, 10, 10);
    assert_eq!(cells(&found), vec![(0, 1), (1, 0), (1, 1)]);
}

#[test]
fn far_corner_cell_has_three_neighbors() {
    let found = touching_neighbors(9, 9, 10, 10);
    assert_eq!(cells(&found), vec![(8, 8), (8, 9), (9, 8)]);
}

#[test]
fn edge_cell_has_five_neighbors() {
    let found = touching_neighbors(0, 4, 10, 10);
    assert_eq!(cells(&found), vec![(0, 3), (0, 5), (1, 3), (1, 4), (1, 5)]);
    let found = touching_neighbors(4, 9, 10, 10);
    assert_eq!(cells(&found), vec![(3, 8), (3, 9), (4, 8), (5, 8), (5, 9)]);
}

#[test]
fn inner_cell_has_eight_neighbors() {
    let found = touching_neighbors(5, 5, 10, 10);
    assert_eq!(
        cells(&found),
        vec![(4, 4), (4, 5), (4, 6), (5, 4), (5, 6), (6, 4), (6, 5), (6, 6)]
    );
}

#[test]
fn neighbors_never_hold_the_centre() {
    for x in 0..4 {
        for y in 0..4 {
            let found = touching_neighbors(x, y, 4, 4);
            assert!(!found.contains(&Position::new(x, y)));
        }
    }
}

#[test]
fn neighbors_are_in_bounds_and_come_once() {
    for x in 0..5 {
        for y in 0..3 {
            let found = touching_neighbors(x, y, 5, 3);
            for (i, p) in found.iter().enumerate() {
                assert!(p.x < 5 && p.y < 3);
                assert!(p.x + 1 >= x && p.x <= x + 1);
                assert!(p.y + 1 >= y && p.y <= y + 1);
                for q in &found[i + 1..] {
                    assert!(p.x < q.x || (p.x == q.x && p.y < q.y));
                }
            }
        }
    }
}

#[test]
fn neighbors_count_matches_the_block() {
    for x in 0..5usize {
        for y in 0..3usize {
            let mut expected = 0;
            for nx in 0..5usize {
                for ny in 0..3usize {
                    let near = nx + 1 >= x && nx <= x + 1 && ny + 1 >= y && ny <= y + 1;
                    if near && (nx, ny) != (x, y) {
                        expected += 1;
                    }
                }
            }
            assert_eq!(touching_neighbors(x, y, 5, 3).len(), expected);
        }
    }
}

#[test]
fn single_cell_grid_has_no_neighbors() {
    assert!(touching_neighbors(0, 0, 1, 1).is_empty());
}

#[test]
fn single_row_grid_has_neighbors_left_and_right() {
    assert_eq!(cells(&touching_neighbors(2, 0, 5, 1)), vec![(1, 0), (3, 0)]);
}

#[test]
fn centre_just_outside_keeps_what_lies_inside() {
    let found = touching_neighbors(10, 5, 10, 10);
    assert_eq!(cells(&found), vec![(9, 4), (9, 5), (9, 6)]);
    let found = touching_neighbors(10, 10, 10, 10);
    assert_eq!(cells(&found), vec![(9, 9)]);
}

#[test]
fn centre_far_outside_has_no_neighbors() {
    assert!(touching_neighbors(12, 5, 10, 10).is_empty());
    assert!(touching_neighbors(usize::MAX, usize::MAX, 10, 10).is_empty());
    assert!(touching_neighbors(usize::MAX, 0, 10, 10).is_empty());
}

#[test]
fn empty_grid_has_no_neighbors() {
    assert!(touching_neighbors(0, 0, 0, 0).is_empty());
    assert!(touching_neighbors(3, 3, 0, 10).is_empty());
    assert!(touching_neighbors(3, 3, 10, 0).is_empty());
}

#[test]
fn largest_grid_does_not_overflow() {
    let found = touching_neighbors(usize::MAX - 1, usize::MAX - 1, usize::MAX, usize::MAX);
    assert_eq!(
        cells(&found),
        vec![
            (usize::MAX - 2, usize::MAX - 2),
            (usize::MAX - 2, usize::MAX - 1),
            (usize::MAX - 1, usize::MAX - 2),
        ]
    );
}
