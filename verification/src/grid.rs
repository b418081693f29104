//! The mathematical model of a grid and executable validity checks.
//!
//! A grid is a non-empty rectangular table of cell codes. Code 0 is a void
//! (non-walkable) cell, any non-zero code is walkable; code 2 marks the
//! start of a word and code 3 its end. Contracts speak of the grid through
//! [`grid_of`], which views a `Vec<Vec<u8>>` as a sequence of rows.

use vstd::prelude::*;

use crate::Position;

verus! {

/// Cell code of a void (non-walkable) cell.
pub const VOID: u8 = 0;

/// Cell code marking the start of a word.
pub const WORD_START: u8 = 2;

/// Cell code marking the end of a word.
pub const WORD_END: u8 = 3;

/// The mathematical view of a grid value: each row as a sequence of codes.
pub open spec fn grid_of(w: &Vec<Vec<u8>>) -> Seq<Seq<u8>> {
    w@.map_values(|row: Vec<u8>| row@)
}

/// Number of rows of the grid.
pub open spec fn grid_height(g: Seq<Seq<u8>>) -> int {
    g.len() as int
}

/// Number of columns of the grid, read off its first row.
pub open spec fn grid_width(g: Seq<Seq<u8>>) -> int {
    g[0].len() as int
}

/// A well-formed grid: non-empty, rectangular, and with dimensions that fit
/// the `i32` coordinates of a [`Position`].
pub open spec fn grid_wf(g: Seq<Seq<u8>>) -> bool {
    &&& 0 < g.len() <= i32::MAX as int
    &&& 0 < g[0].len() <= i32::MAX as int
    &&& forall|r: int| 0 <= r < g.len() ==> #[trigger] g[r].len() == g[0].len()
}

/// Whether column `x`, row `y` names a cell of the grid.
pub open spec fn on_grid(g: Seq<Seq<u8>>, x: int, y: int) -> bool {
    &&& 0 <= x < grid_width(g)
    &&& 0 <= y < grid_height(g)
}

/// The code of the cell in column `x` of row `y`.
pub open spec fn cell(g: Seq<Seq<u8>>, x: int, y: int) -> u8 {
    g[y][x]
}

/// Whether the cell in column `x` of row `y` can be stood on.
pub open spec fn walkable(g: Seq<Seq<u8>>, x: int, y: int) -> bool {
    cell(g, x, y) != VOID
}

/// The column of the first cell at or right of column `i` in `row` whose
/// code is `code`, if any.
pub open spec fn first_from(row: Seq<u8>, i: int, code: u8) -> Option<int>
    decreases row.len() - i,
{
    if i < 0 || i >= row.len() {
        None
    } else if row[i] == code {
        Some(i)
    } else {
        first_from(row, i + 1, code)
    }
}

/// The column of the last cell strictly left of column `i` in `row` whose
/// code is `code`, if any.
pub open spec fn last_before(row: Seq<u8>, i: int, code: u8) -> Option<int>
    decreases i,
{
    if i <= 0 {
        None
    } else if row[i - 1] == code {
        Some(i - 1)
    } else {
        last_before(row, i - 1, code)
    }
}

/// `first_from` finds the nearest match: its result carries `code` and no
/// column between the scan start and the result does.
pub proof fn lemma_first_from_props(row: Seq<u8>, i: int, code: u8)
    requires
        0 <= i,
    ensures
        match first_from(row, i, code) {
            Some(j) => i <= j < row.len() && row[j] == code && (forall|k: int|
                i <= k < j ==> row[k] != code),
            None => forall|k: int| i <= k < row.len() ==> row[k] != code,
        },
    decreases row.len() - i,
{
    if i < row.len() && row[i] != code {
        lemma_first_from_props(row, i + 1, code);
    }
}

/// `last_before` finds the nearest match: its result carries `code` and no
/// column between the result and the scan start does.
pub proof fn lemma_last_before_props(row: Seq<u8>, i: int, code: u8)
    requires
        i <= row.len(),
    ensures
        match last_before(row, i, code) {
            Some(j) => 0 <= j < i && row[j] == code && (forall|k: int|
                j < k < i ==> row[k] != code),
            None => forall|k: int| 0 <= k < i ==> row[k] != code,
        },
    decreases i,
{
    if i > 0 && row[i - 1] != code {
        lemma_last_before_props(row, i - 1, code);
    }
}

/// Connects a grid value to its view: row `y` of the value is row `y` of
/// the model, and on a well-formed grid it is `grid_width` cells long.
pub proof fn lemma_row_len(w: &Vec<Vec<u8>>, y: int)
    requires
        grid_wf(grid_of(w)),
        0 <= y < grid_height(grid_of(w)),
    ensures
        w@.len() == grid_height(grid_of(w)),
        w@[y]@ == grid_of(w)[y],
        w@[y]@.len() == grid_width(grid_of(w)),
{
    assert(grid_of(w)[y].len() == grid_of(w)[0].len());
}

/// Whether `w` is a well-formed grid: non-empty, rectangular, and small
/// enough for `i32` coordinates.
pub fn grid_is_wf(w: &Vec<Vec<u8>>) -> (r: bool)
    ensures
        r == grid_wf(grid_of(w)),
{
    if w.len() == 0 || w.len() > (i32::MAX as usize) {
        return false;
    }
    if w[0].len() == 0 || w[0].len() > (i32::MAX as usize) {
        return false;
    }
    let width = w[0].len();
    let mut y: usize = 1;
    while y < w.len()
        invariant
            1 <= y <= w@.len(),
            width == grid_of(w)[0].len(),
            forall|r: int| 0 <= r < y ==> #[trigger] grid_of(w)[r].len() == width,
        decreases w@.len() - y,
    {
        if w[y].len() != width {
            proof {
                assert(grid_of(w)[y as int].len() != grid_of(w)[0].len());
            }
            return false;
        }
        y += 1;
    }
    true
}

/// Whether `p` names a cell of the grid.
pub fn position_on_grid(p: &Position, w: &Vec<Vec<u8>>) -> (r: bool)
    requires
        grid_wf(grid_of(w)),
    ensures
        r == on_grid(grid_of(w), p.x as int, p.y as int),
{
    p.x >= 0 && (p.x as usize) < w[0].len() && p.y >= 0 && (p.y as usize) < w.len()
}

} // verus!
