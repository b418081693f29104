//! Laws of the movement resolver, stated over the motion spec functions and
//! proved once and for all: boundary clamping is a no-op, walls block, a
//! walkable candidate is always taken, word motions stay on their row and
//! land on the nearest marker, and a motion that did not move is idempotent.

use vstd::prelude::*;

use crate::grid::{
    cell, first_from, grid_height, grid_wf, grid_width, last_before, lemma_first_from_props,
    lemma_last_before_props, on_grid, VOID, WORD_END, WORD_START,
};
use crate::moves::{
    down_candidate, left_candidate, motion_spec, move_down_spec, move_left_spec,
    move_next_word_end_spec, move_next_word_start_spec, move_prev_word_start_spec, move_right_spec,
    move_up_spec, right_candidate, up_candidate, Motion,
};

verus! {

/// Clamp idempotence: a directional motion taken at the grid edge it points
/// past leaves the position unchanged.
pub proof fn lemma_boundary_motion_unchanged(g: Seq<Seq<u8>>, px: int, py: int)
    requires
        grid_wf(g),
        on_grid(g, px, py),
    ensures
        px == 0 ==> move_left_spec(g, px, py) == (px, py),
        py == 0 ==> move_down_spec(g, px, py) == (px, py),
        py == grid_height(g) - 1 ==> move_up_spec(g, px, py) == (px, py),
        px == grid_width(g) - 1 ==> move_right_spec(g, px, py) == (px, py),
{
}

/// Wall blocking: a directional motion whose clamped candidate cell is void
/// leaves the position unchanged.
pub proof fn lemma_wall_blocks(g: Seq<Seq<u8>>, px: int, py: int)
    requires
        grid_wf(g),
        on_grid(g, px, py),
    ensures
        cell(g, left_candidate(px), py) == VOID ==> move_left_spec(g, px, py) == (px, py),
        cell(g, px, down_candidate(py)) == VOID ==> move_down_spec(g, px, py) == (px, py),
        cell(g, px, up_candidate(g, py)) == VOID ==> move_up_spec(g, px, py) == (px, py),
        cell(g, right_candidate(g, px), py) == VOID ==> move_right_spec(g, px, py) == (px, py),
{
}

/// A walkable candidate is taken: a directional motion whose clamped
/// candidate cell is not void moves exactly onto that candidate.
pub proof fn lemma_walkable_candidate_taken(g: Seq<Seq<u8>>, px: int, py: int)
    requires
        grid_wf(g),
        on_grid(g, px, py),
    ensures
        cell(g, left_candidate(px), py) != VOID ==> move_left_spec(g, px, py) == (
            left_candidate(px),
            py,
        ),
        cell(g, px, down_candidate(py)) != VOID ==> move_down_spec(g, px, py) == (
            px,
            down_candidate(py),
        ),
        cell(g, px, up_candidate(g, py)) != VOID ==> move_up_spec(g, px, py) == (
            px,
            up_candidate(g, py),
        ),
        cell(g, right_candidate(g, px), py) != VOID ==> move_right_spec(g, px, py) == (
            right_candidate(g, px),
            py,
        ),
{
}

/// Word motions never change the row, and move the column exactly to the
/// nearest matching marker in their scan direction, or not at all when no
/// marker exists in range.
pub proof fn lemma_word_motion_nearest_marker(g: Seq<Seq<u8>>, px: int, py: int)
    requires
        grid_wf(g),
        on_grid(g, px, py),
    ensures
        move_prev_word_start_spec(g, px, py).1 == py,
        move_next_word_start_spec(g, px, py).1 == py,
        move_next_word_end_spec(g, px, py).1 == py,
        ({
            let r = move_prev_word_start_spec(g, px, py);
            match last_before(g[py], px, WORD_START) {
                Some(j) => r.0 == j && 0 <= j < px && cell(g, j, py) == WORD_START && (forall|
                    k: int,
                |
                    j < k < px ==> cell(g, k, py) != WORD_START),
                None => r.0 == px && (forall|k: int|
                    0 <= k < px ==> cell(g, k, py) != WORD_START),
            }
        }),
        ({
            let r = move_next_word_start_spec(g, px, py);
            match first_from(g[py], px + 1, WORD_START) {
                Some(j) => r.0 == j && px < j < grid_width(g) && cell(g, j, py) == WORD_START && (
                forall|k: int| px < k < j ==> cell(g, k, py) != WORD_START),
                None => r.0 == px && (forall|k: int|
                    px < k < grid_width(g) ==> cell(g, k, py) != WORD_START),
            }
        }),
        ({
            let r = move_next_word_end_spec(g, px, py);
            match first_from(g[py], px + 1, WORD_END) {
                Some(j) => r.0 == j && px < j < grid_width(g) && cell(g, j, py) == WORD_END && (
                forall|k: int| px < k < j ==> cell(g, k, py) != WORD_END),
                None => r.0 == px && (forall|k: int|
                    px < k < grid_width(g) ==> cell(g, k, py) != WORD_END),
            }
        }),
{
    assert(g[py].len() == g[0].len());
    lemma_last_before_props(g[py], px, WORD_START);
    lemma_first_from_props(g[py], px + 1, WORD_START);
    lemma_first_from_props(g[py], px + 1, WORD_END);
}

/// Every motion lands on the grid when it starts on the grid.
pub proof fn lemma_motion_stays_on_grid(g: Seq<Seq<u8>>, px: int, py: int, m: Motion)
    requires
        grid_wf(g),
        on_grid(g, px, py),
    ensures
        on_grid(g, motion_spec(g, px, py, m).0, motion_spec(g, px, py, m).1),
{
    match m {
        Motion::PrevWordStart => {
            lemma_last_before_props(g[py], px, WORD_START);
        },
        Motion::NextWordStart => {
            assert(g[py].len() == g[0].len());
            lemma_first_from_props(g[py], px + 1, WORD_START);
        },
        Motion::NextWordEnd => {
            assert(g[py].len() == g[0].len());
            lemma_first_from_props(g[py], px + 1, WORD_END);
        },
        _ => {},
    }
}

/// A motion that did not move is idempotent: taking the same motion again
/// from a terminal position (a wall or the boundary) changes nothing.
pub proof fn lemma_terminal_motion_idempotent(g: Seq<Seq<u8>>, px: int, py: int, m: Motion)
    requires
        grid_wf(g),
        on_grid(g, px, py),
        motion_spec(g, px, py, m) == (px, py),
    ensures
        ({
            let q = motion_spec(g, px, py, m);
            motion_spec(g, q.0, q.1, m) == q
        }),
{
}

} // verus!
