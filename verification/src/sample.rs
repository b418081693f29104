//! Random relocation of the marker: pick a uniformly random walkable cell
//! other than the one the marker is on.
//!
//! The only unverified step is the random draw itself; which cells may be
//! drawn at all is computed and proved here.

use rand::Rng;
use vstd::prelude::*;

use crate::grid::{grid_height, grid_of, grid_wf, grid_width, lemma_row_len, on_grid, walkable, VOID};
use crate::Position;

verus! {

/// Relies on rand::Rng::gen_range on the thread-local generator of
/// rand::thread_rng: for the non-empty range `0..n` it returns a value of
/// that range.
#[verifier::external_body]
fn rand_below(n: usize) -> (r: usize)
    requires
        n > 0,
    ensures
        r < n,
{
    rand::thread_rng().gen_range(0..n)
}

/// Whether `a` comes strictly before `b` in row-major order: on an earlier
/// row, or further left on the same row.
pub open spec fn row_major_before(a: Position, b: Position) -> bool {
    (a.y as int) < (b.y as int) || (a.y == b.y && (a.x as int) < (b.x as int))
}

/// Every walkable cell of the grid other than `p` itself, gathered in
/// strict row-major order.
pub fn spare_walkable_cells(p: &Position, w: &Vec<Vec<u8>>) -> (r: Vec<Position>)
    requires
        grid_wf(grid_of(w)),
    ensures
        forall|k: int|
            0 <= k < r@.len() ==> {
                let q = #[trigger] r@[k];
                &&& on_grid(grid_of(w), q.x as int, q.y as int)
                &&& walkable(grid_of(w), q.x as int, q.y as int)
                &&& !(q.x == p.x && q.y == p.y)
            },
        forall|x: int, y: int|
            #[trigger] on_grid(grid_of(w), x, y) && walkable(grid_of(w), x, y) && !(x == p.x
                as int && y == p.y as int) ==> exists|k: int|
                0 <= k < r@.len() && r@[k].x as int == x && r@[k].y as int == y,
        forall|k1: int, k2: int|
            0 <= k1 < k2 < r@.len() ==> row_major_before(#[trigger] r@[k1], #[trigger] r@[k2]),
{
    let ghost g = grid_of(w);
    let mut r: Vec<Position> = Vec::new();
    let mut y: usize = 0;
    while y < w.len()
        invariant
            grid_wf(g),
            g == grid_of(w),
            w@.len() == grid_height(g),
            0 <= (y as int) <= grid_height(g),
            forall|k: int|
                0 <= k < r@.len() ==> {
                    let q = #[trigger] r@[k];
                    &&& on_grid(g, q.x as int, q.y as int)
                    &&& walkable(g, q.x as int, q.y as int)
                    &&& !(q.x == p.x && q.y == p.y)
                },
            forall|x: int, yy: int|
                #[trigger] on_grid(g, x, yy) && yy < y as int && walkable(g, x, yy) && !(x
                    == p.x as int && yy == p.y as int) ==> exists|k: int|
                    0 <= k < r@.len() && r@[k].x as int == x && r@[k].y as int == yy,
            forall|k: int| 0 <= k < r@.len() ==> (#[trigger] r@[k].y as int) < y as int,
            forall|k1: int, k2: int|
                0 <= k1 < k2 < r@.len() ==> row_major_before(#[trigger] r@[k1], #[trigger] r@[k2]),
        decreases w@.len() - y,
    {
        proof {
            lemma_row_len(w, y as int);
        }
        let mut x: usize = 0;
        while x < w[y].len()
            invariant
                grid_wf(g),
                g == grid_of(w),
                w@.len() == grid_height(g),
                0 <= (y as int) < grid_height(g),
                w@[y as int]@.len() == grid_width(g),
                w@[y as int]@ == g[y as int],
                0 <= (x as int) <= grid_width(g),
                forall|k: int|
                    0 <= k < r@.len() ==> {
                        let q = #[trigger] r@[k];
                        &&& on_grid(g, q.x as int, q.y as int)
                        &&& walkable(g, q.x as int, q.y as int)
                        &&& !(q.x == p.x && q.y == p.y)
                    },
                forall|xx: int, yy: int|
                    #[trigger] on_grid(g, xx, yy) && (yy < y as int || (yy == y as int && xx < x
                        as int)) && walkable(g, xx, yy) && !(xx == p.x as int && yy == p.y
                        as int) ==> exists|k: int|
                        0 <= k < r@.len() && r@[k].x as int == xx && r@[k].y as int == yy,
                forall|k: int|
                    0 <= k < r@.len() ==> ((#[trigger] r@[k].y as int) < y as int || (r@[k].y
                        as int == y as int && (r@[k].x as int) < x as int)),
                forall|k1: int, k2: int|
                    0 <= k1 < k2 < r@.len() ==> row_major_before(
                        #[trigger] r@[k1],
                        #[trigger] r@[k2],
                    ),
            decreases w@[y as int]@.len() - x,
        {
            if w[y][x] != VOID && !(x as i32 == p.x && y as i32 == p.y) {
                let q = Position { x: x as i32, y: y as i32 };
                let ghost r_prefix = r@;
                r.push(q);
                proof {
                    assert(r@[r@.len() - 1] == q);
                    assert(forall|k: int| 0 <= k < r_prefix.len() ==> r@[k] == r_prefix[k]);
                }
            }
            x += 1;
        }
        y += 1;
    }
    r
}

/// Whether some walkable cell other than `p` exists on the grid at all.
pub fn has_spare_walkable(p: &Position, w: &Vec<Vec<u8>>) -> (r: bool)
    requires
        grid_wf(grid_of(w)),
    ensures
        r == exists|x: int, y: int|
            #[trigger] on_grid(grid_of(w), x, y) && walkable(grid_of(w), x, y) && !(x == p.x
                as int && y == p.y as int),
{
    let cands = spare_walkable_cells(p, w);
    let non_empty = cands.len() > 0;
    proof {
        if non_empty {
            let q = cands@[0];
            assert(on_grid(grid_of(w), q.x as int, q.y as int) && walkable(
                grid_of(w),
                q.x as int,
                q.y as int,
            ) && !(q.x as int == p.x as int && q.y as int == p.y as int));
        } else {
            if exists|x: int, y: int|
                #[trigger] on_grid(grid_of(w), x, y) && walkable(grid_of(w), x, y) && !(x
                    == p.x as int && y == p.y as int) {
                let (x, y): (int, int) = choose|x: int, y: int|
                    #[trigger] on_grid(grid_of(w), x, y) && walkable(grid_of(w), x, y) && !(x
                        == p.x as int && y == p.y as int);
                assert(false);
            }
        }
    }
    non_empty
}

/// Draw a uniformly random walkable cell other than `p`, for the marker to
/// reappear on.
pub fn sample_position(p: &Position, w: &Vec<Vec<u8>>) -> (r: Position)
    requires
        grid_wf(grid_of(w)),
        exists|x: int, y: int|
            #[trigger] on_grid(grid_of(w), x, y) && walkable(grid_of(w), x, y) && !(x == p.x
                as int && y == p.y as int),
    ensures
        on_grid(grid_of(w), r.x as int, r.y as int),
        walkable(grid_of(w), r.x as int, r.y as int),
        !(r.x == p.x && r.y == p.y),
{
    let cands = spare_walkable_cells(p, w);
    proof {
        let (x, y): (int, int) = choose|x: int, y: int|
            #[trigger] on_grid(grid_of(w), x, y) && walkable(grid_of(w), x, y) && !(x == p.x
                as int && y == p.y as int);
        assert(exists|k: int|
            0 <= k < cands@.len() && cands@[k].x as int == x && cands@[k].y as int == y);
    }
    let i = rand_below(cands.len());
    cands[i]
}

} // verus!
