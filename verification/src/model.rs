//! The mathematical model of a grid: a square of cells, each alive or dead.
//!
//! A grid is a sequence of rows, each a sequence of cells. The first
//! coordinate of a cell is its row, the second its column; both are taken
//! round the torus before they are used.

use vstd::prelude::*;
use crate::torus::wrap;

verus! {

/// A grid of side `g.len()`: at least one row, and every row as long as the
/// grid is high.
pub open spec fn is_square(g: Seq<Seq<bool>>) -> bool {
    &&& g.len() > 0
    &&& forall|r: int| 0 <= r < g.len() ==> (#[trigger] g[r]).len() == g.len()
}

/// The grid of side `n` on which nothing lives.
pub open spec fn dead_grid(n: nat) -> Seq<Seq<bool>> {
    Seq::new(n, |r: int| Seq::new(n, |c: int| false))
}

/// The grid of side `n` whose cells are the values of `draws`, laid out row
/// by row: the first `n` values are the top row from left to right, the next
/// `n` the row below it, and so on.
pub open spec fn laid_out(draws: Seq<bool>, n: nat) -> Seq<Seq<bool>> {
    Seq::new(n, |r: int| Seq::new(n, |c: int| draws[r * n + c]))
}

/// Whether the cell in row `x` and column `y` is alive.
pub open spec fn cell(g: Seq<Seq<bool>>, x: int, y: int) -> bool {
    g[wrap(x, g.len() as int)][wrap(y, g.len() as int)]
}

/// The grid `g` with the cell in row `x` and column `y` set to `value`.
pub open spec fn with_cell(g: Seq<Seq<bool>>, x: int, y: int, value: bool) -> Seq<
    Seq<bool>,
> {
    let r = wrap(x, g.len() as int);
    let c = wrap(y, g.len() as int);
    g.update(r, g[r].update(c, value))
}

/// The grid after the first `k` cells of `row` were written, in order, into
/// grid row `y`, the first of them into column `x`.
pub open spec fn stamp_row(g: Seq<Seq<bool>>, x: int, y: int, row: Seq<bool>, k: int) -> Seq<Seq<bool>>
    decreases k,
{
    if k <= 0 {
        g
    } else {
        with_cell(stamp_row(g, x, y, row, k - 1), y, x + (k - 1), row[k - 1])
    }
}

/// The grid after the first `k` rows of `pattern` were written, in order,
/// the first of them into grid row `y`, each starting in column `x`.
pub open spec fn stamp_rows(g: Seq<Seq<bool>>, x: int, y: int, pattern: Seq<Seq<bool>>, k: int) -> Seq<Seq<bool>>
    decreases k,
{
    if k <= 0 {
        g
    } else {
        stamp_row(
            stamp_rows(g, x, y, pattern, k - 1),
            x,
            y + (k - 1),
            pattern[k - 1],
            pattern[k - 1].len() as int,
        )
    }
}

/// The grid after `pattern` was stamped on it with its top-left corner in
/// column `x` of row `y`: one write per pattern cell, row by row and within a
/// row from left to right, so that of two writes to one cell the later stays.
pub open spec fn stamp(g: Seq<Seq<bool>>, x: int, y: int, pattern: Seq<Seq<bool>>) -> Seq<Seq<bool>> {
    stamp_rows(g, x, y, pattern, pattern.len() as int)
}

/// The glider, three rows of three cells:
///
/// ```text
///  x
///   x
/// xxx
/// ```
pub open spec fn glider_shape() -> Seq<Seq<bool>> {
    seq![seq![false, true, false], seq![false, false, true], seq![true, true, true]]
}

/// The lightweight spaceship, four rows of five cells:
///
/// ```text
///  xxxx
/// x   x
///     x
/// x  x
/// ```
pub open spec fn lwss_shape() -> Seq<Seq<bool>> {
    seq![
        seq![false, true, true, true, true],
        seq![true, false, false, false, true],
        seq![false, false, false, false, true],
        seq![true, false, false, true, false],
    ]
}

/// What a cell adds to the count of its neighbours.
pub open spec fn weight(alive: bool) -> nat {
    if alive {
        1
    } else {
        0
    }
}

/// How many of the eight cells around row `x`, column `y` are alive. The cell
/// itself is not counted.
pub open spec fn live_neighbors(g: Seq<Seq<bool>>, x: int, y: int) -> nat {
    weight(cell(g, x - 1, y - 1)) + weight(cell(g, x - 1, y)) + weight(cell(g, x - 1, y + 1))
        + weight(cell(g, x, y - 1)) + weight(cell(g, x, y + 1))
        + weight(cell(g, x + 1, y - 1)) + weight(cell(g, x + 1, y)) + weight(cell(g, x + 1, y + 1))
}

/// The rule of the game: a live cell stays alive with two or three live
/// neighbours, a dead cell comes alive with exactly three.
pub open spec fn next_state(alive: bool, neighbors: nat) -> bool {
    if alive {
        neighbors == 2 || neighbors == 3
    } else {
        neighbors == 3
    }
}

/// The state of the cell in row `x`, column `y` one generation after `g`.
pub open spec fn next_cell(g: Seq<Seq<bool>>, x: int, y: int) -> bool {
    next_state(cell(g, x, y), live_neighbors(g, x, y))
}

/// The generation that follows `g`.
pub open spec fn next_generation(g: Seq<Seq<bool>>) -> Seq<Seq<bool>> {
    Seq::new(g.len(), |r: int| Seq::new(g.len(), |c: int| next_cell(g, r, c)))
}

} // verus!
