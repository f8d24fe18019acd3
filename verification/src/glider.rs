//! The glider: five live cells that, on a torus of side 5 or more, are found
//! one row down and one column to the right every four generations.

use vstd::prelude::*;
use crate::model::{dead_grid, next_generation, stamp, glider_shape};
use crate::pictures::{
    cell_from, shows, becomes, theorem_shape_step, theorem_shape_only, theorem_shape_from_next_corner,
};
use crate::stamping::{
    theorem_stamp_cellwise, theorem_stamp_shows_pattern, theorem_stamp_leaves_rest, covered, fits,
};
use crate::torus::{wrap, lemma_wrap_range, lemma_wrap_apart};

verus! {

/// The grid `k` generations after `g`.
pub open spec fn generations(g: Seq<Seq<bool>>, k: nat) -> Seq<Seq<bool>>
    decreases k,
{
    if k == 0 {
        g
    } else {
        next_generation(generations(g, (k - 1) as nat))
    }
}

/// Whether the cell `i` rows below and `j` columns right of the glider's
/// corner is alive `k` generations after the glider was stamped, for `k` from
/// 0 to 4. After four generations the glider is its first shape again, one
/// row down and one column to the right.
pub open spec fn glider_phase(k: int, i: int, j: int) -> bool {
    if k == 0 {
        (i == 0 && j == 1) || (i == 1 && j == 2) || (i == 2 && 0 <= j <= 2)
    } else if k == 1 {
        (i == 1 && (j == 0 || j == 2)) || (i == 2 && (j == 1 || j == 2)) || (i == 3 && j == 1)
    } else if k == 2 {
        (i == 1 && j == 2) || (i == 2 && (j == 0 || j == 2)) || (i == 3 && (j == 1 || j == 2))
    } else if k == 3 {
        (i == 1 && j == 1) || (i == 2 && (j == 2 || j == 3)) || (i == 3 && (j == 1 || j == 2))
    } else {
        (i == 1 && j == 2) || (i == 2 && j == 3) || (i == 3 && 1 <= j <= 3)
    }
}

/// The grid `g` holds a glider in phase `k` with its corner in row `r`,
/// column `c`, and nothing else.
pub open spec fn glider_at(g: Seq<Seq<bool>>, r: int, c: int, k: int) -> bool {
    shows(g, r, c, |i: int, j: int| glider_phase(k, i, j))
}

/// One generation takes a glider in one phase to the glider in the next.
pub proof fn theorem_glider_step(g: Seq<Seq<bool>>, r: int, c: int, k: int)
    requires
        glider_at(g, r, c, k),
        g.len() >= 5,
        0 <= k <= 3,
    ensures
        glider_at(next_generation(g), r, c, k + 1),
        next_generation(g).len() == g.len(),
{
    let now = |i: int, j: int| glider_phase(k, i, j);
    let later = |i: int, j: int| glider_phase(k + 1, i, j);
    assert(becomes(now, later, g.len() as int));
    theorem_shape_step(g, r, c, now, later);
}

/// Four generations take a glider to the same glider one row down and one
/// column to the right.
pub proof fn theorem_glider_period(g: Seq<Seq<bool>>, r: int, c: int)
    requires
        glider_at(g, r, c, 0),
        g.len() >= 5,
    ensures
        glider_at(generations(g, 4), r + 1, c + 1, 0),
        generations(g, 4).len() == g.len(),
{
    let g1 = next_generation(g);
    let g2 = next_generation(g1);
    let g3 = next_generation(g2);
    let g4 = next_generation(g3);
    assert(generations(g, 4) == g4) by {
        reveal_with_fuel(generations, 5);
    }
    theorem_glider_step(g, r, c, 0);
    theorem_glider_step(g1, r, c, 1);
    theorem_glider_step(g2, r, c, 2);
    theorem_glider_step(g3, r, c, 3);
    theorem_shape_from_next_corner(
        g4,
        r,
        c,
        |i: int, j: int| glider_phase(4, i, j),
        |i: int, j: int| glider_phase(0, i, j),
    );
}

/// A glider stamped on a dead grid of side 4 or more is the glider in its
/// first phase, its corner where it was stamped.
pub proof fn theorem_glider_stamped(n: nat, x: int, y: int)
    requires
        n >= 4,
    ensures
        glider_at(stamp(dead_grid(n), x, y, glider_shape()), y, x, 0),
        stamp(dead_grid(n), x, y, glider_shape()).len() == n,
{
    let g = dead_grid(n);
    let p = glider_shape();
    let s = stamp(g, x, y, p);
    let side = n as int;
    theorem_stamp_cellwise(g, x, y, p, 0, 0);
    assert(fits(p, side));
    assert forall|i: int, j: int| -1 <= i <= side - 2 && -1 <= j <= side - 2 implies (#[trigger] cell_from(
        s,
        y,
        x,
        i,
        j,
    ) <==> glider_phase(0, i, j)) by {
        let a = wrap(y + i, side);
        let b = wrap(x + j, side);
        lemma_wrap_range(y + i, side);
        lemma_wrap_range(x + j, side);
        if 0 <= i <= 2 && 0 <= j <= 2 {
            theorem_stamp_shows_pattern(g, x, y, p, j, i);
            assert(p[i][j] == glider_phase(0, i, j));
        } else {
            assert forall|dy: int, dx: int|
                0 <= dy < p.len() && 0 <= dx < p[dy].len() implies !(#[trigger] wrap(y + dy, side) == a
                && #[trigger] wrap(x + dx, side) == b) by {
                if i < 0 {
                    lemma_wrap_apart(y + i, dy - i, side);
                    assert(y + i + (dy - i) == y + dy);
                } else if i > 2 {
                    lemma_wrap_apart(y + dy, i - dy, side);
                    assert(y + dy + (i - dy) == y + i);
                } else if j < 0 {
                    lemma_wrap_apart(x + j, dx - j, side);
                    assert(x + j + (dx - j) == x + dx);
                } else {
                    lemma_wrap_apart(x + dx, j - dx, side);
                    assert(x + dx + (j - dx) == x + j);
                }
            }
            assert(!covered(side, x, y, p, a, b));
            theorem_stamp_leaves_rest(g, x, y, p, a, b);
        }
    }
}

/// On a torus of side 5 or more, four generations after a glider was stamped
/// on a dead grid, the grid is the one with the glider stamped one row
/// further down and one column further right.
pub proof fn theorem_glider_moves(n: nat, x: int, y: int)
    requires
        n >= 5,
    ensures
        generations(stamp(dead_grid(n), x, y, glider_shape()), 4) == stamp(
            dead_grid(n),
            x + 1,
            y + 1,
            glider_shape(),
        ),
{
    let start = stamp(dead_grid(n), x, y, glider_shape());
    let moved = stamp(dead_grid(n), x + 1, y + 1, glider_shape());
    theorem_glider_stamped(n, x, y);
    theorem_glider_stamped(n, x + 1, y + 1);
    theorem_glider_period(start, y, x);
    theorem_shape_only(generations(start, 4), moved, y + 1, x + 1, |i: int, j: int| glider_phase(0, i, j));
}

} // verus!
