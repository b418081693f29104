//! The movement resolver: pure functions from a position and a grid to the
//! next position.
//!
//! Each directional motion clamps its one-step candidate to the grid
//! boundary and then takes it only if the candidate cell is walkable;
//! otherwise the position is returned unchanged. Word motions scan the
//! current row for the nearest marker cell in their direction and leave the
//! position unchanged when none exists.

use vstd::prelude::*;

use crate::Position;
use crate::grid::{
    cell, first_from, grid_height, grid_of, grid_wf, grid_width, last_before, on_grid, VOID,
    WORD_END, WORD_START,
};

verus! {

/// One of the seven named motions a player can take.
#[derive(Clone, Copy, Debug, PartialEq, Eq, Structural)]
pub enum Motion {
    /// One step left (column - 1).
    Left,
    /// One step down (row - 1).
    Down,
    /// One step up (row + 1).
    Up,
    /// One step right (column + 1).
    Right,
    /// To the start of the previous word (nearest code-2 cell left of here).
    PrevWordStart,
    /// To the start of the next word (nearest code-2 cell right of here).
    NextWordStart,
    /// To the end of the next word (nearest code-3 cell right of here).
    NextWordEnd,
}

/// Candidate column of a step left: one less, clamped to the left edge.
pub open spec fn left_candidate(px: int) -> int {
    if px <= 0 {
        0
    } else {
        px - 1
    }
}

/// Candidate row of a step down: one less, clamped to the bottom edge.
pub open spec fn down_candidate(py: int) -> int {
    if py <= 0 {
        0
    } else {
        py - 1
    }
}

/// Candidate row of a step up: one more, clamped to the top edge.
pub open spec fn up_candidate(g: Seq<Seq<u8>>, py: int) -> int {
    if py + 1 >= grid_height(g) {
        grid_height(g) - 1
    } else {
        py + 1
    }
}

/// Candidate column of a step right: one more, clamped to the right edge.
pub open spec fn right_candidate(g: Seq<Seq<u8>>, px: int) -> int {
    if px + 1 >= grid_width(g) {
        grid_width(g) - 1
    } else {
        px + 1
    }
}

/// The step rule shared by the four directional motions: the clamped
/// candidate cell is taken exactly when it is walkable.
pub open spec fn step_to(g: Seq<Seq<u8>>, px: int, py: int, cx: int, cy: int) -> (int, int) {
    if cell(g, cx, cy) != VOID {
        (cx, cy)
    } else {
        (px, py)
    }
}

/// Result of a step left from `(px, py)`.
pub open spec fn move_left_spec(g: Seq<Seq<u8>>, px: int, py: int) -> (int, int) {
    step_to(g, px, py, left_candidate(px), py)
}

/// Result of a step down from `(px, py)`.
pub open spec fn move_down_spec(g: Seq<Seq<u8>>, px: int, py: int) -> (int, int) {
    step_to(g, px, py, px, down_candidate(py))
}

/// Result of a step up from `(px, py)`.
pub open spec fn move_up_spec(g: Seq<Seq<u8>>, px: int, py: int) -> (int, int) {
    step_to(g, px, py, px, up_candidate(g, py))
}

/// Result of a step right from `(px, py)`.
pub open spec fn move_right_spec(g: Seq<Seq<u8>>, px: int, py: int) -> (int, int) {
    step_to(g, px, py, right_candidate(g, px), py)
}

/// Result of moving to the start of the previous word: the nearest code-2
/// cell strictly left of `px` on row `py`, or no move at all.
pub open spec fn move_prev_word_start_spec(g: Seq<Seq<u8>>, px: int, py: int) -> (int, int) {
    match last_before(g[py], px, WORD_START) {
        Some(j) => (j, py),
        None => (px, py),
    }
}

/// Result of moving to the start of the next word: the nearest code-2 cell
/// strictly right of `px` on row `py`, or no move at all.
pub open spec fn move_next_word_start_spec(g: Seq<Seq<u8>>, px: int, py: int) -> (int, int) {
    match first_from(g[py], px + 1, WORD_START) {
        Some(j) => (j, py),
        None => (px, py),
    }
}

/// Result of moving to the end of the next word: the nearest code-3 cell
/// strictly right of `px` on row `py`, or no move at all.
pub open spec fn move_next_word_end_spec(g: Seq<Seq<u8>>, px: int, py: int) -> (int, int) {
    match first_from(g[py], px + 1, WORD_END) {
        Some(j) => (j, py),
        None => (px, py),
    }
}

/// Result of applying any one of the seven motions from `(px, py)`.
pub open spec fn motion_spec(g: Seq<Seq<u8>>, px: int, py: int, m: Motion) -> (int, int) {
    match m {
        Motion::Left => move_left_spec(g, px, py),
        Motion::Down => move_down_spec(g, px, py),
        Motion::Up => move_up_spec(g, px, py),
        Motion::Right => move_right_spec(g, px, py),
        Motion::PrevWordStart => move_prev_word_start_spec(g, px, py),
        Motion::NextWordStart => move_next_word_start_spec(g, px, py),
        Motion::NextWordEnd => move_next_word_end_spec(g, px, py),
    }
}

/// Step left: column - 1 clamped to 0, taken only onto a walkable cell.
pub fn vim_move_h(p: &Position, w: &Vec<Vec<u8>>) -> (r: Position)
    requires
        grid_wf(grid_of(w)),
        on_grid(grid_of(w), p.x as int, p.y as int),
    ensures
        (r.x as int, r.y as int) == move_left_spec(grid_of(w), p.x as int, p.y as int),
        on_grid(grid_of(w), r.x as int, r.y as int),
{
    let x = if p.x > 0 {
        p.x - 1
    } else {
        0
    };
    let y = p.y;
    let mut r = Position { x: p.x, y: p.y };
    proof {
        crate::grid::lemma_row_len(w, y as int);
    }
    if w[y as usize][x as usize] != VOID {
        r.x = x;
        r.y = y;
    }
    r
}

/// Step down: row - 1 clamped to 0, taken only onto a walkable cell.
pub fn vim_move_j(p: &Position, w: &Vec<Vec<u8>>) -> (r: Position)
    requires
        grid_wf(grid_of(w)),
        on_grid(grid_of(w), p.x as int, p.y as int),
    ensures
        (r.x as int, r.y as int) == move_down_spec(grid_of(w), p.x as int, p.y as int),
        on_grid(grid_of(w), r.x as int, r.y as int),
{
    let x = p.x;
    let y = if p.y > 0 {
        p.y - 1
    } else {
        0
    };
    let mut r = Position { x: p.x, y: p.y };
    proof {
        crate::grid::lemma_row_len(w, y as int);
    }
    if w[y as usize][x as usize] != VOID {
        r.x = x;
        r.y = y;
    }
    r
}

/// Step up: row + 1 clamped to the last row, taken only onto a walkable cell.
pub fn vim_move_k(p: &Position, w: &Vec<Vec<u8>>) -> (r: Position)
    requires
        grid_wf(grid_of(w)),
        on_grid(grid_of(w), p.x as int, p.y as int),
    ensures
        (r.x as int, r.y as int) == move_up_spec(grid_of(w), p.x as int, p.y as int),
        on_grid(grid_of(w), r.x as int, r.y as int),
{
    let x = p.x;
    let height = w.len();
    let y = if ((p.y + 1) as usize) < height {
        p.y + 1
    } else {
        p.y
    };
    let mut r = Position { x: p.x, y: p.y };
    proof {
        crate::grid::lemma_row_len(w, y as int);
    }
    if w[y as usize][x as usize] != VOID {
        r.x = x;
        r.y = y;
    }
    r
}

/// Step right: column + 1 clamped to the last column, taken only onto a
/// walkable cell.
pub fn vim_move_l(p: &Position, w: &Vec<Vec<u8>>) -> (r: Position)
    requires
        grid_wf(grid_of(w)),
        on_grid(grid_of(w), p.x as int, p.y as int),
    ensures
        (r.x as int, r.y as int) == move_right_spec(grid_of(w), p.x as int, p.y as int),
        on_grid(grid_of(w), r.x as int, r.y as int),
{
    let width = w[0].len();
    let x = if ((p.x + 1) as usize) < width {
        p.x + 1
    } else {
        p.x
    };
    let y = p.y;
    let mut r = Position { x: p.x, y: p.y };
    proof {
        crate::grid::lemma_row_len(w, y as int);
    }
    if w[y as usize][x as usize] != VOID {
        r.x = x;
        r.y = y;
    }
    r
}

/// Move to the start of the previous word: the nearest code-2 cell strictly
/// left of the current column on the current row, or stay put.
pub fn vim_move_w(p: &Position, w: &Vec<Vec<u8>>) -> (r: Position)
    requires
        grid_wf(grid_of(w)),
        on_grid(grid_of(w), p.x as int, p.y as int),
    ensures
        (r.x as int, r.y as int) == move_prev_word_start_spec(
            grid_of(w),
            p.x as int,
            p.y as int,
        ),
        on_grid(grid_of(w), r.x as int, r.y as int),
{
    proof {
        crate::grid::lemma_row_len(w, p.y as int);
    }
    let ghost row = grid_of(w)[p.y as int];
    let mut r = Position { x: p.x, y: p.y };
    let mut i: usize = p.x as usize;
    while i > 0 && w[p.y as usize][i - 1] != WORD_START
        invariant
            grid_wf(grid_of(w)),
            on_grid(grid_of(w), p.x as int, p.y as int),
            row == grid_of(w)[p.y as int],
            row.len() == grid_width(grid_of(w)),
            w@.len() == grid_height(grid_of(w)),
            w@[p.y as int]@ == row,
            0 <= i <= p.x as int,
            last_before(row, p.x as int, WORD_START) == last_before(row, i as int, WORD_START),
        decreases i,
    {
        i -= 1;
    }
    if i > 0 {
        r.x = (i - 1) as i32;
    }
    r
}

/// Move to the start of the next word: the nearest code-2 cell strictly
/// right of the current column on the current row, or stay put.
pub fn vim_move_b(p: &Position, w: &Vec<Vec<u8>>) -> (r: Position)
    requires
        grid_wf(grid_of(w)),
        on_grid(grid_of(w), p.x as int, p.y as int),
    ensures
        (r.x as int, r.y as int) == move_next_word_start_spec(
            grid_of(w),
            p.x as int,
            p.y as int,
        ),
        on_grid(grid_of(w), r.x as int, r.y as int),
{
    scan_right(p, w, WORD_START)
}

/// Move to the end of the next word: the nearest code-3 cell strictly right
/// of the current column on the current row, or stay put.
pub fn vim_move_e(p: &Position, w: &Vec<Vec<u8>>) -> (r: Position)
    requires
        grid_wf(grid_of(w)),
        on_grid(grid_of(w), p.x as int, p.y as int),
    ensures
        (r.x as int, r.y as int) == move_next_word_end_spec(grid_of(w), p.x as int, p.y as int),
        on_grid(grid_of(w), r.x as int, r.y as int),
{
    scan_right(p, w, WORD_END)
}

/// The rightward scan shared by the two next-word motions: jump to the
/// nearest cell right of the current column whose code is `code`, or stay.
fn scan_right(p: &Position, w: &Vec<Vec<u8>>, code: u8) -> (r: Position)
    requires
        grid_wf(grid_of(w)),
        on_grid(grid_of(w), p.x as int, p.y as int),
    ensures
        r.y == p.y,
        ({
            let found = first_from(grid_of(w)[p.y as int], p.x as int + 1, code);
            match found {
                Some(j) => r.x as int == j,
                None => r.x == p.x,
            }
        }),
        on_grid(grid_of(w), r.x as int, r.y as int),
{
    proof {
        crate::grid::lemma_row_len(w, p.y as int);
    }
    let ghost row = grid_of(w)[p.y as int];
    let width = w[0].len();
    let mut r = Position { x: p.x, y: p.y };
    let mut i: usize = (p.x + 1) as usize;
    while i < width && w[p.y as usize][i] != code
        invariant
            grid_wf(grid_of(w)),
            on_grid(grid_of(w), p.x as int, p.y as int),
            row == grid_of(w)[p.y as int],
            row.len() == grid_width(grid_of(w)),
            w@.len() == grid_height(grid_of(w)),
            w@[p.y as int]@ == row,
            width == grid_width(grid_of(w)),
            p.x as int + 1 <= i as int <= width as int,
            first_from(row, p.x as int + 1, code) == first_from(row, i as int, code),
        decreases width - i,
    {
        i += 1;
    }
    if i < width {
        r.x = i as i32;
    }
    r
}

/// Apply one named motion, dispatching to its resolver.
pub fn apply_motion(p: &Position, w: &Vec<Vec<u8>>, m: Motion) -> (r: Position)
    requires
        grid_wf(grid_of(w)),
        on_grid(grid_of(w), p.x as int, p.y as int),
    ensures
        (r.x as int, r.y as int) == motion_spec(grid_of(w), p.x as int, p.y as int, m),
        on_grid(grid_of(w), r.x as int, r.y as int),
{
    match m {
        Motion::Left => vim_move_h(p, w),
        Motion::Down => vim_move_j(p, w),
        Motion::Up => vim_move_k(p, w),
        Motion::Right => vim_move_l(p, w),
        Motion::PrevWordStart => vim_move_w(p, w),
        Motion::NextWordStart => vim_move_b(p, w),
        Motion::NextWordEnd => vim_move_e(p, w),
    }
}

} // verus!
