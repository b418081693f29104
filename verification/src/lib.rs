//! A small grid-puzzle movement library.
//!
//! A player token lives on a rectangular grid of cell codes and moves with
//! vim-style motions: single steps in the four directions and word motions
//! that scan along the current row. Walls (cells coded 0) block movement,
//! and every motion clamps to the grid boundary. The resolver in [`moves`]
//! is a set of pure functions from a position and a grid to the next
//! position; [`sample`] draws a fresh, walkable marker cell at random.

use vstd::prelude::*;

pub mod grid;
pub mod laws;
pub mod moves;
pub mod sample;

verus! {

/// A location on the grid: column `x`, row `y`, both 0-indexed.
#[derive(Clone, Copy, Debug, PartialEq, Eq, Structural)]
pub struct Position {
    pub x: i32,
    pub y: i32,
}

} // verus!
