//! Runtime checks of the movement resolver on concrete grids.

use jumpy_vim::grid::{grid_is_wf, position_on_grid};
use jumpy_vim::moves::{
    apply_motion, vim_move_b, vim_move_e, vim_move_h, vim_move_j, vim_move_k, vim_move_l,
    vim_move_w, Motion,
};
use jumpy_vim::Position;

/// The level grid of the game: 9 rows of 15 cells.
fn level_grid() -> Vec<Vec<u8>> {
    vec![
        vec![0, 0, 2, 1, 1, 1, 1, 3, 0, 2, 1, 1, 3, 0, 0],
        vec![2, 1, 1, 1, 3, 0, 0, 0, 0, 2, 1, 1, 3, 0, 0],
        vec![0, 0, 2, 1, 1, 1, 1, 3, 0, 2, 1, 1, 3, 0, 0],
        vec![2, 1, 1, 1, 3, 0, 0, 0, 0, 2, 1, 1, 3, 0, 0],
        vec![0, 0, 2, 1, 1, 1, 1, 3, 0, 2, 1, 1, 3, 0, 0],
        vec![2, 1, 1, 1, 3, 0, 0, 0, 0, 2, 1, 1, 3, 0, 0],
        vec![0, 0, 2, 1, 1, 1, 1, 3, 0, 2, 1, 1, 3, 0, 0],
        vec![2, 1, 1, 1, 3, 0, 0, 0, 0, 2, 1, 1, 3, 0, 0],
        vec![0, 0, 2, 1, 1, 1, 1, 3, 0, 2, 1, 1, 3, 0, 0],
    ]
}

/// A single-row grid with one word in the middle and one near the end.
fn word_row_grid() -> Vec<Vec<u8>> {
    vec![vec![0, 1, 1, 1, 3, 0, 0, 0, 0, 2, 1, 1, 3, 0, 0]]
}

#[test]
fn left_onto_walkable_cell() {
    let w = level_grid();
    let r = vim_move_h(&Position { x: 2, y: 1 }, &w);
    assert_eq!(r, Position { x: 1, y: 1 });
}

#[test]
fn left_blocked_by_wall() {
    // On row 0 the cell left of column 2 is void, so the move fails silently.
    let w = level_grid();
    let r = vim_move_h(&Position { x: 2, y: 0 }, &w);
    assert_eq!(r, Position { x: 2, y: 0 });
}

#[test]
fn left_clamped_at_void_corner() {
    // Column 0 of row 0 is void: moving left from (0,0) clamps to x=0 and
    // then rejects the void cell, so nothing changes.
    let w = level_grid();
    let r = vim_move_h(&Position { x: 0, y: 0 }, &w);
    assert_eq!(r, Position { x: 0, y: 0 });
}

#[test]
fn down_onto_walkable_cell() {
    let w = level_grid();
    let r = vim_move_j(&Position { x: 2, y: 1 }, &w);
    assert_eq!(r, Position { x: 2, y: 0 });
}

#[test]
fn down_clamped_at_bottom_row() {
    // At row 0 the candidate clamps to the position itself, which is
    // walkable, so the move is a no-op.
    let w = level_grid();
    let r = vim_move_j(&Position { x: 2, y: 0 }, &w);
    assert_eq!(r, Position { x: 2, y: 0 });
}

#[test]
fn up_onto_walkable_cell() {
    let w = level_grid();
    let r = vim_move_k(&Position { x: 2, y: 1 }, &w);
    assert_eq!(r, Position { x: 2, y: 2 });
}

#[test]
fn up_clamped_at_top_row() {
    let w = level_grid();
    let r = vim_move_k(&Position { x: 2, y: 8 }, &w);
    assert_eq!(r, Position { x: 2, y: 8 });
}

#[test]
fn right_onto_walkable_cell() {
    let w = level_grid();
    let r = vim_move_l(&Position { x: 2, y: 1 }, &w);
    assert_eq!(r, Position { x: 3, y: 1 });
}

#[test]
fn right_blocked_by_wall() {
    // The cell right of column 4 on row 1 is void.
    let w = level_grid();
    let r = vim_move_l(&Position { x: 4, y: 1 }, &w);
    assert_eq!(r, Position { x: 4, y: 1 });
}

#[test]
fn right_clamped_at_last_column() {
    // Column 14 is the last one; its cell is void, so the clamped candidate
    // is rejected and the position keeps still.
    let w = level_grid();
    let r = vim_move_l(&Position { x: 14, y: 1 }, &w);
    assert_eq!(r, Position { x: 14, y: 1 });
}

#[test]
fn prev_word_start_found() {
    // Left of column 2 on row 1 the nearest word start is column 0.
    let w = level_grid();
    let r = vim_move_w(&Position { x: 2, y: 1 }, &w);
    assert_eq!(r, Position { x: 0, y: 1 });
}

#[test]
fn prev_word_start_none_in_range() {
    // Left of column 7 on the single word row there is no word-start cell.
    let w = word_row_grid();
    let r = vim_move_w(&Position { x: 7, y: 0 }, &w);
    assert_eq!(r, Position { x: 7, y: 0 });
}

#[test]
fn prev_word_start_at_row_start() {
    // An empty scan range: nothing lies left of column 0.
    let w = word_row_grid();
    let r = vim_move_w(&Position { x: 0, y: 0 }, &w);
    assert_eq!(r, Position { x: 0, y: 0 });
}

#[test]
fn next_word_start_found() {
    // Scanning right of column 7 the first word-start cell sits at column 9.
    let w = word_row_grid();
    let r = vim_move_b(&Position { x: 7, y: 0 }, &w);
    assert_eq!(r, Position { x: 9, y: 0 });
}

#[test]
fn next_word_start_skips_nearer_codes() {
    let w = level_grid();
    let r = vim_move_b(&Position { x: 3, y: 1 }, &w);
    assert_eq!(r, Position { x: 9, y: 1 });
}

#[test]
fn next_word_end_found() {
    // Scanning right of column 7 the first word-end cell sits at column 12.
    let w = word_row_grid();
    let r = vim_move_e(&Position { x: 7, y: 0 }, &w);
    assert_eq!(r, Position { x: 12, y: 0 });
}

#[test]
fn next_word_end_none_in_range() {
    // Right of column 12 only void cells remain.
    let w = word_row_grid();
    let r = vim_move_e(&Position { x: 12, y: 0 }, &w);
    assert_eq!(r, Position { x: 12, y: 0 });
}

#[test]
fn repeated_motion_from_terminal_position_is_idempotent() {
    // A wall-blocked move leaves the position unchanged, so taking the same
    // motion twice is the same as taking it once.
    let w = level_grid();
    let p = Position { x: 2, y: 0 };
    let once = vim_move_h(&p, &w);
    let twice = vim_move_h(&once, &w);
    assert_eq!(once, p);
    assert_eq!(twice, once);

    let once = vim_move_e(&Position { x: 12, y: 0 }, &w);
    let twice = vim_move_e(&once, &w);
    assert_eq!(once, Position { x: 12, y: 0 });
    assert_eq!(twice, once);
}

#[test]
fn apply_motion_dispatches_to_each_resolver() {
    let w = level_grid();
    let p = Position { x: 2, y: 1 };
    assert_eq!(apply_motion(&p, &w, Motion::Left), vim_move_h(&p, &w));
    assert_eq!(apply_motion(&p, &w, Motion::Down), vim_move_j(&p, &w));
    assert_eq!(apply_motion(&p, &w, Motion::Up), vim_move_k(&p, &w));
    assert_eq!(apply_motion(&p, &w, Motion::Right), vim_move_l(&p, &w));
    assert_eq!(apply_motion(&p, &w, Motion::PrevWordStart), vim_move_w(&p, &w));
    assert_eq!(apply_motion(&p, &w, Motion::NextWordStart), vim_move_b(&p, &w));
    assert_eq!(apply_motion(&p, &w, Motion::NextWordEnd), vim_move_e(&p, &w));
}

#[test]
fn word_motions_keep_the_row() {
    let w = level_grid();
    for y in 0..9 {
        let p = Position { x: 9, y };
        assert_eq!(vim_move_w(&p, &w).y, y);
        assert_eq!(vim_move_b(&p, &w).y, y);
        assert_eq!(vim_move_e(&p, &w).y, y);
    }
}

#[test]
fn grid_is_wf_accepts_the_level_grid() {
    assert!(grid_is_wf(&level_grid()));
    assert!(grid_is_wf(&word_row_grid()));
}

#[test]
fn grid_is_wf_rejects_malformed_grids() {
    let empty: Vec<Vec<u8>> = vec![];
    assert!(!grid_is_wf(&empty));
    let empty_row: Vec<Vec<u8>> = vec![vec![]];
    assert!(!grid_is_wf(&empty_row));
    let ragged: Vec<Vec<u8>> = vec![vec![1, 1, 1], vec![1, 1]];
    assert!(!grid_is_wf(&ragged));
}

#[test]
fn position_on_grid_checks_both_bounds() {
    let w = level_grid();
    assert!(position_on_grid(&Position { x: 0, y: 0 }, &w));
    assert!(position_on_grid(&Position { x: 14, y: 8 }, &w));
    assert!(!position_on_grid(&Position { x: -1, y: 0 }, &w));
    assert!(!position_on_grid(&Position { x: 15, y: 0 }, &w));
    assert!(!position_on_grid(&Position { x: 0, y: 9 }, &w));
}
