//! From one generation to the next.

use vstd::prelude::*;
use crate::grid::LifeGrid;
use crate::model::{with_cell, live_neighbors, next_cell, next_generation};
use crate::torus::lemma_wrap_fixed;

verus! {

/// How many of the eight cells around row `x`, column `y` are alive.
pub fn neighbors_cell(grid: &LifeGrid, x: i32, y: i32) -> (count: i32)
    requires
        grid.wf(),
    ensures
        count == live_neighbors(grid@, x as int, y as int),
        0 <= count <= 8,
{
    let row = x as i64;
    let col = y as i64;
    let mut accm: i32 = 0;
    if grid.at(row - 1, col - 1) {
        accm += 1;
    }
    if grid.at(row - 1, col) {
        accm += 1;
    }
    if grid.at(row - 1, col + 1) {
        accm += 1;
    }
    if grid.at(row, col - 1) {
        accm += 1;
    }
    if grid.at(row, col + 1) {
        accm += 1;
    }
    if grid.at(row + 1, col - 1) {
        accm += 1;
    }
    if grid.at(row + 1, col) {
        accm += 1;
    }
    if grid.at(row + 1, col + 1) {
        accm += 1;
    }
    accm
}

/// Writes into `newgrid` what the cell in row `x`, column `y` of `oldgrid`
/// becomes in the next generation.
pub fn step_cell(oldgrid: &LifeGrid, newgrid: &mut LifeGrid, x: i32, y: i32)
    requires
        oldgrid.wf(),
        old(newgrid).wf(),
    ensures
        final(newgrid).wf(),
        final(newgrid)@ == with_cell(
            old(newgrid)@,
            x as int,
            y as int,
            next_cell(oldgrid@, x as int, y as int),
        ),
{
    let neighbors = neighbors_cell(oldgrid, x, y);
    let cell_is_alive = oldgrid.get(x, y);
    if cell_is_alive {
        if neighbors < 2 {
            newgrid.set(x, y, false);
        } else if neighbors > 3 {
            newgrid.set(x, y, false);
        } else {
            newgrid.set(x, y, true);
        }
    } else {
        if neighbors == 3 {
            newgrid.set(x, y, true);
        } else {
            newgrid.set(x, y, false);
        }
    }
}

/// Whether the first `x` rows of `new`, and the first `y` cells of row `x`,
/// hold the generation that follows `old`.
spec fn stepped_up_to(old: Seq<Seq<bool>>, new: Seq<Seq<bool>>, x: int, y: int) -> bool {
    forall|r: int, c: int|
        0 <= r < old.len() && 0 <= c < old.len() && (r < x || (r == x && c < y)) ==> #[trigger] new[r][c]
            == next_cell(old, r, c)
}

/// The generation that follows `grid`, as a grid of its own; `grid` stays as
/// it is.
pub fn step(grid: &LifeGrid) -> (next: Box<LifeGrid>)
    requires
        grid.wf(),
    ensures
        next.wf(),
        next@ == next_generation(grid@),
{
    let maxsize = grid.sizei();
    let mut newgrid = LifeGrid::new(grid.size()).unwrap();
    for x in 0..maxsize
        invariant
            grid.wf(),
            newgrid.wf(),
            maxsize == grid@.len(),
            newgrid@.len() == grid@.len(),
            stepped_up_to(grid@, newgrid@, x as int, 0),
    {
        for y in 0..maxsize
            invariant
                grid.wf(),
                newgrid.wf(),
                0 <= x < maxsize,
                maxsize == grid@.len(),
                newgrid@.len() == grid@.len(),
                stepped_up_to(grid@, newgrid@, x as int, y as int),
        {
            proof {
                lemma_wrap_fixed(x as int, maxsize as int);
                lemma_wrap_fixed(y as int, maxsize as int);
            }
            step_cell(grid, &mut newgrid, x, y);
        }
    }
    assert(newgrid@ =~~= next_generation(grid@));
    Box::new(newgrid)
}

} // verus!
