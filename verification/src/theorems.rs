//! What holds of every grid: theorems about the model that the grid's
//! operations are specified by.

use vstd::prelude::*;
use crate::model::{
    is_square, cell, dead_grid, laid_out, live_neighbors, next_cell, next_generation, next_state, weight,
};
use crate::torus::{
    wrap, lemma_wrap_range, lemma_wrap_fixed, lemma_wrap_turns, lemma_wrap_step, lemma_wrap_beside,
    lemma_wrap_meets,
};

verus! {

/// Values laid out row by row make a square grid in which the cell in row
/// `x`, column `y` is the value in place `x * n + y`; where every value is
/// false, it is the grid on which nothing lives.
pub proof fn theorem_laid_out(draws: Seq<bool>, n: nat, x: int, y: int)
    requires
        n > 0,
        draws.len() == n * n,
        0 <= x < n,
        0 <= y < n,
    ensures
        is_square(laid_out(draws, n)),
        laid_out(draws, n).len() == n,
        0 <= x * n + y < draws.len(),
        cell(laid_out(draws, n), x, y) == draws[x * n + y],
        (forall|k: int| 0 <= k < draws.len() ==> !draws[k]) ==> laid_out(draws, n) == dead_grid(n),
{
    lemma_wrap_fixed(x, n as int);
    lemma_wrap_fixed(y, n as int);
    assert(0 <= x * n + y < n * n) by (nonlinear_arith)
        requires
            0 <= x < n,
            0 <= y < n,
    ;
    if forall|k: int| 0 <= k < draws.len() ==> !draws[k] {
        assert forall|r: int, c: int| 0 <= r < n && 0 <= c < n implies laid_out(draws, n)[r][c]
            == false by {
            assert(0 <= r * n + c < n * n) by (nonlinear_arith)
                requires
                    0 <= r < n,
                    0 <= c < n,
            ;
        }
        assert(laid_out(draws, n) =~~= dead_grid(n));
    }
}

/// Two different places of a grid laid out row by row take different values
/// of the sequence: no value is used twice.
pub proof fn theorem_laid_out_once(n: nat, x: int, y: int, u: int, v: int)
    requires
        0 <= x < n,
        0 <= y < n,
        0 <= u < n,
        0 <= v < n,
        x * n + y == u * n + v,
    ensures
        x == u,
        y == v,
{
    if x < u {
        assert(x * n + y < u * n + v) by (nonlinear_arith)
            requires
                0 <= x < u,
                0 <= y < n,
                0 <= v,
        ;
    } else if u < x {
        assert(u * n + v < x * n + y) by (nonlinear_arith)
            requires
                0 <= u < x,
                0 <= v < n,
                0 <= y,
        ;
    }
}

/// A cell read at any coordinate is the cell at the wrapped coordinate, which
/// lies on the grid. One step before the first row or column is the last
/// one, and one step past the last is the first.
pub proof fn theorem_wrapped_access(g: Seq<Seq<bool>>, c: int, y: int)
    requires
        is_square(g),
    ensures
        0 <= wrap(c, g.len() as int) < g.len(),
        cell(g, c, y) == cell(g, wrap(c, g.len() as int), y),
        cell(g, y, c) == cell(g, y, wrap(c, g.len() as int)),
        cell(g, -1, y) == cell(g, g.len() - 1, y),
        cell(g, y, -1) == cell(g, y, g.len() - 1),
        cell(g, g.len() as int, y) == cell(g, 0, y),
        cell(g, y, g.len() as int) == cell(g, y, 0),
{
    let n = g.len() as int;
    lemma_wrap_range(c, n);
    lemma_wrap_fixed(wrap(c, n), n);
    lemma_wrap_fixed(0, n);
    lemma_wrap_fixed(n - 1, n);
    lemma_wrap_turns(-1, 1, n);
    lemma_wrap_turns(0, 1, n);
    assert(-1 + 1 * n == n - 1);
    assert(0 + 1 * n == n);
}

/// Going round the torus any number of times, in either direction, leads
/// back to the same cell.
pub proof fn theorem_torus(g: Seq<Seq<bool>>, x: int, y: int, i: int, j: int)
    requires
        is_square(g),
    ensures
        cell(g, x + i * g.len(), y + j * g.len()) == cell(g, x, y),
{
    lemma_wrap_turns(x, i, g.len() as int);
    lemma_wrap_turns(y, j, g.len() as int);
}

/// Where the cell in row 0 and column 0 is the only live one, the cell at
/// row `c` of column 0 is alive exactly when `c` wraps to 0.
pub proof fn theorem_lone_origin(g: Seq<Seq<bool>>, c: int)
    requires
        is_square(g),
        forall|r: int, k: int| 0 <= r < g.len() && 0 <= k < g.len() ==> (#[trigger] g[r][k] <==> r == 0 && k == 0),
    ensures
        cell(g, c, 0) <==> wrap(c, g.len() as int) == 0,
        cell(g, 0, c) <==> wrap(c, g.len() as int) == 0,
{
    let n = g.len() as int;
    lemma_wrap_range(c, n);
    lemma_wrap_fixed(0, n);
}

/// The neighbours of a cell are the neighbours of the cell that its
/// coordinates wrap to.
pub proof fn lemma_neighbors_wrapped(g: Seq<Seq<bool>>, x: int, y: int)
    requires
        is_square(g),
    ensures
        live_neighbors(g, wrap(x, g.len() as int), wrap(y, g.len() as int)) == live_neighbors(g, x, y),
        cell(g, wrap(x, g.len() as int), wrap(y, g.len() as int)) == cell(g, x, y),
        next_cell(g, wrap(x, g.len() as int), wrap(y, g.len() as int)) == next_cell(g, x, y),
{
    let n = g.len() as int;
    lemma_wrap_step(x, -1, n);
    lemma_wrap_step(x, 0, n);
    lemma_wrap_step(x, 1, n);
    lemma_wrap_step(y, -1, n);
    lemma_wrap_step(y, 0, n);
    lemma_wrap_step(y, 1, n);
}

/// A cell has no more than eight live neighbours.
pub proof fn theorem_neighbor_bounds(g: Seq<Seq<bool>>, x: int, y: int)
    ensures
        0 <= live_neighbors(g, x, y) <= 8,
{
}

/// The next generation is a grid of the same side, and each of its cells is
/// what the rule makes of the cell before it and that cell's neighbours.
pub proof fn theorem_next_generation(g: Seq<Seq<bool>>, x: int, y: int)
    requires
        is_square(g),
    ensures
        is_square(next_generation(g)),
        next_generation(g).len() == g.len(),
        cell(next_generation(g), x, y) == next_state(cell(g, x, y), live_neighbors(g, x, y)),
{
    let n = g.len() as int;
    lemma_wrap_range(x, n);
    lemma_wrap_range(y, n);
    lemma_neighbors_wrapped(g, x, y);
    lemma_wrap_fixed(wrap(x, n), n);
    lemma_wrap_fixed(wrap(y, n), n);
}

/// Birth: a dead cell is alive in the next generation exactly when three of
/// its neighbours are alive.
pub proof fn theorem_birth(g: Seq<Seq<bool>>, x: int, y: int)
    requires
        is_square(g),
        !cell(g, x, y),
    ensures
        cell(next_generation(g), x, y) <==> live_neighbors(g, x, y) == 3,
{
    theorem_next_generation(g, x, y);
}

/// Survival: a live cell is alive in the next generation exactly when two or
/// three of its neighbours are alive.
pub proof fn theorem_survival(g: Seq<Seq<bool>>, x: int, y: int)
    requires
        is_square(g),
        cell(g, x, y),
    ensures
        cell(next_generation(g), x, y) <==> live_neighbors(g, x, y) == 2 || live_neighbors(g, x, y) == 3,
{
    theorem_next_generation(g, x, y);
}

/// The grid `g` has exactly one live cell, in column `b` of row `a`.
pub open spec fn lone_cell(g: Seq<Seq<bool>>, a: int, b: int) -> bool {
    &&& is_square(g)
    &&& 0 <= a < g.len()
    &&& 0 <= b < g.len()
    &&& forall|r: int, c: int|
        0 <= r < g.len() && 0 <= c < g.len() ==> (#[trigger] g[r][c] <==> r == a && c == b)
}

/// Whether the coordinate `(x, y)` names the cell `(a, b)` of a torus of
/// side `n`.
pub open spec fn lands_on(n: int, x: int, y: int, a: int, b: int) -> bool {
    wrap(x, n) == a && wrap(y, n) == b
}

/// How many of the eight steps from `(x, y)` to a neighbour lead to the cell
/// `(a, b)`. On a torus of side 1 or 2 several of them can.
pub open spec fn ways_to(n: int, x: int, y: int, a: int, b: int) -> nat {
    weight(lands_on(n, x - 1, y - 1, a, b)) + weight(lands_on(n, x - 1, y, a, b)) + weight(
        lands_on(n, x - 1, y + 1, a, b),
    ) + weight(lands_on(n, x, y - 1, a, b)) + weight(lands_on(n, x, y + 1, a, b)) + weight(
        lands_on(n, x + 1, y - 1, a, b),
    ) + weight(lands_on(n, x + 1, y, a, b)) + weight(lands_on(n, x + 1, y + 1, a, b))
}

/// Whether `(x, y)` names one of the eight cells around `(a, b)` on a torus
/// of side `n`: no more than one row and one column away, and not the cell
/// itself.
pub open spec fn adjacent(n: int, x: int, y: int, a: int, b: int) -> bool {
    let dx = wrap(x - a, n);
    let dy = wrap(y - b, n);
    &&& dx == 0 || dx == 1 || dx == n - 1
    &&& dy == 0 || dy == 1 || dy == n - 1
    &&& !(dx == 0 && dy == 0)
}

/// Around a lone live cell, a cell counts as many live neighbours as it has
/// steps that lead to the live cell.
pub proof fn theorem_lone_cell_count(g: Seq<Seq<bool>>, a: int, b: int, x: int, y: int)
    requires
        lone_cell(g, a, b),
    ensures
        live_neighbors(g, x, y) == ways_to(g.len() as int, x, y, a, b),
{
    let n = g.len() as int;
    lemma_wrap_range(x - 1, n);
    lemma_wrap_range(x, n);
    lemma_wrap_range(x + 1, n);
    lemma_wrap_range(y - 1, n);
    lemma_wrap_range(y, n);
    lemma_wrap_range(y + 1, n);
}

/// On a torus of side 3 or more with a lone live cell, each of the eight
/// cells around the live cell counts exactly one live neighbour, and every
/// other cell counts none.
pub proof fn theorem_lone_cell_neighbors(g: Seq<Seq<bool>>, a: int, b: int, x: int, y: int)
    requires
        lone_cell(g, a, b),
        g.len() >= 3,
    ensures
        live_neighbors(g, x, y) == (if adjacent(g.len() as int, x, y, a, b) {
            1nat
        } else {
            0nat
        }),
{
    let n = g.len() as int;
    theorem_lone_cell_count(g, a, b, x, y);
    lemma_wrap_meets(x - 1, a, n);
    lemma_wrap_meets(x, a, n);
    lemma_wrap_meets(x + 1, a, n);
    lemma_wrap_meets(y - 1, b, n);
    lemma_wrap_meets(y, b, n);
    lemma_wrap_meets(y + 1, b, n);
    lemma_wrap_beside(x - a, n);
    lemma_wrap_beside(y - b, n);
    lemma_wrap_range(x - a, n);
    lemma_wrap_range(y - b, n);
    assert(x - 1 - a == x - a - 1);
    assert(x + 1 - a == x - a + 1);
    assert(y - 1 - b == y - b - 1);
    assert(y + 1 - b == y - b + 1);
}

/// On a torus of side 3 or more, a lone live cell has no live neighbour.
pub proof fn theorem_lone_cell_alone(g: Seq<Seq<bool>>, a: int, b: int)
    requires
        lone_cell(g, a, b),
        g.len() >= 3,
    ensures
        live_neighbors(g, a, b) == 0,
{
    theorem_lone_cell_neighbors(g, a, b, a, b);
    lemma_wrap_fixed(0, g.len() as int);
}

/// The same in steps: on a torus of side 3 or more with a lone live cell,
/// the cell `i` rows and `j` columns from the live one, one step away at
/// most and not the live cell itself, counts exactly one live neighbour.
pub proof fn theorem_lone_cell_ring(g: Seq<Seq<bool>>, a: int, b: int, i: int, j: int)
    requires
        lone_cell(g, a, b),
        g.len() >= 3,
        -1 <= i <= 1,
        -1 <= j <= 1,
        i != 0 || j != 0,
    ensures
        live_neighbors(g, a + i, b + j) == 1,
{
    let n = g.len() as int;
    theorem_lone_cell_neighbors(g, a, b, a + i, b + j);
    lemma_wrap_fixed(0, n);
    lemma_wrap_fixed(1, n);
    lemma_wrap_turns(-1, 1, n);
    lemma_wrap_fixed(n - 1, n);
    assert(-1 + 1 * n == n - 1);
    assert(a + i - a == i);
    assert(b + j - b == j);
}

} // verus!
