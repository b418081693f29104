//! Runtime checks of marker relocation.

use jumpy_vim::sample::{has_spare_walkable, sample_position, spare_walkable_cells};
use jumpy_vim::Position;

#[test]
fn sample_with_single_candidate_is_forced() {
    // Two walkable cells and one taken by the marker: the draw has exactly
    // one cell to land on.
    let w: Vec<Vec<u8>> = vec![vec![1, 1]];
    let r = sample_position(&Position { x: 0, y: 0 }, &w);
    assert_eq!(r, Position { x: 1, y: 0 });

    let w: Vec<Vec<u8>> = vec![vec![1, 0], vec![0, 3]];
    let r = sample_position(&Position { x: 0, y: 0 }, &w);
    assert_eq!(r, Position { x: 1, y: 1 });
}

#[test]
fn sample_lands_on_a_walkable_cell_elsewhere() {
    let w: Vec<Vec<u8>> = vec![
        vec![0, 0, 2, 1, 1, 1, 1, 3, 0, 2, 1, 1, 3, 0, 0],
        vec![2, 1, 1, 1, 3, 0, 0, 0, 0, 2, 1, 1, 3, 0, 0],
    ];
    let p = Position { x: 9, y: 1 };
    for _ in 0..50 {
        let r = sample_position(&p, &w);
        assert!(r != p);
        assert!(0 <= r.x && (r.x as usize) < w[0].len());
        assert!(0 <= r.y && (r.y as usize) < w.len());
        assert!(w[r.y as usize][r.x as usize] != 0);
    }
}

#[test]
fn spare_walkable_cells_lists_each_candidate_once() {
    let w: Vec<Vec<u8>> = vec![vec![1, 0, 2], vec![0, 3, 0]];
    let cands = spare_walkable_cells(&Position { x: 0, y: 0 }, &w);
    assert_eq!(
        cands,
        vec![
            Position { x: 2, y: 0 },
            Position { x: 1, y: 1 },
        ]
    );
}

#[test]
fn has_spare_walkable_tells_candidates_apart() {
    let lone: Vec<Vec<u8>> = vec![vec![1]];
    assert!(!has_spare_walkable(&Position { x: 0, y: 0 }, &lone));

    let walled: Vec<Vec<u8>> = vec![vec![1, 0], vec![0, 0]];
    assert!(!has_spare_walkable(&Position { x: 0, y: 0 }, &walled));

    let open: Vec<Vec<u8>> = vec![vec![1, 1]];
    assert!(has_spare_walkable(&Position { x: 0, y: 0 }, &open));
    assert!(has_spare_walkable(&Position { x: 1, y: 0 }, &open));
}
