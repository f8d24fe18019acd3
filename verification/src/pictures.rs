//! Shapes drawn on a torus: a grid described by the steps from one of its
//! cells, so that what is proved of a shape holds wherever it lies and
//! whatever the side of the grid.

use vstd::prelude::*;
use crate::model::{is_square, cell, live_neighbors, next_generation, next_state, weight};
use crate::theorems::{theorem_next_generation, theorem_torus};
use crate::torus::{wrap, lemma_wrap_range, lemma_wrap_step, lemma_wrap_fixed};

verus! {

/// The cell `i` rows below and `j` columns right of row `r`, column `c`.
pub open spec fn cell_from(g: Seq<Seq<bool>>, r: int, c: int, i: int, j: int) -> bool {
    cell(g, r + i, c + j)
}

/// The grid `g` shows `shape` with its corner in row `r`, column `c`, and
/// nothing else: the cell `i` rows below and `j` columns right of the corner
/// is alive exactly when `shape(i, j)` says so. Every cell of the torus is
/// named once by the steps from -1 to `g.len() - 2`.
pub open spec fn shows(g: Seq<Seq<bool>>, r: int, c: int, shape: spec_fn(int, int) -> bool) -> bool {
    &&& is_square(g)
    &&& forall|i: int, j: int|
        -1 <= i <= g.len() - 2 && -1 <= j <= g.len() - 2 ==> (#[trigger] cell_from(g, r, c, i, j)
            <==> shape(i, j))
}

/// The step that names the same cell as `i` among the steps from -1 to
/// `n - 2`, for a step no more than once round the torus beyond them.
pub open spec fn folded(i: int, n: int) -> int {
    if i < -1 {
        i + n
    } else if i > n - 2 {
        i - n
    } else {
        i
    }
}

/// How many of the eight cells around the one at steps `(i, j)` the shape
/// has alive on a torus of side `n`.
pub open spec fn shape_neighbors(shape: spec_fn(int, int) -> bool, n: int, i: int, j: int) -> nat {
    weight(shape(folded(i - 1, n), folded(j - 1, n))) + weight(shape(folded(i - 1, n), j)) + weight(
        shape(folded(i - 1, n), folded(j + 1, n)),
    ) + weight(shape(i, folded(j - 1, n))) + weight(shape(i, folded(j + 1, n))) + weight(
        shape(folded(i + 1, n), folded(j - 1, n)),
    ) + weight(shape(folded(i + 1, n), j)) + weight(shape(folded(i + 1, n), folded(j + 1, n)))
}

/// Whether the rule makes `later` of `shape` on a torus of side `n`.
pub open spec fn becomes(shape: spec_fn(int, int) -> bool, later: spec_fn(int, int) -> bool, n: int) -> bool {
    forall|i: int, j: int|
        -1 <= i <= n - 2 && -1 <= j <= n - 2 ==> #[trigger] later(i, j) == next_state(
            shape(i, j),
            shape_neighbors(shape, n, i, j),
        )
}

/// A cell one step outside the steps from -1 to `n - 2` is the cell at the
/// folded step.
proof fn lemma_folded(g: Seq<Seq<bool>>, r: int, c: int, i: int, j: int)
    requires
        is_square(g),
        -2 <= i <= g.len() - 1,
        -2 <= j <= g.len() - 1,
    ensures
        cell(g, r + i, c + j) == cell_from(g, r, c, folded(i, g.len() as int), folded(j, g.len() as int)),
        -1 <= folded(i, g.len() as int) <= g.len() - 2,
        -1 <= folded(j, g.len() as int) <= g.len() - 2,
{
    let n = g.len() as int;
    let fi = folded(i, n);
    let fj = folded(j, n);
    let ti = if i < -1 {
        -1int
    } else if i > n - 2 {
        1int
    } else {
        0int
    };
    let tj = if j < -1 {
        -1int
    } else if j > n - 2 {
        1int
    } else {
        0int
    };
    theorem_torus(g, r + fi, c + fj, ti, tj);
    assert(r + fi + ti * n == r + i) by (nonlinear_arith)
        requires
            fi + ti * n == i,
    ;
    assert(c + fj + tj * n == c + j) by (nonlinear_arith)
        requires
            fj + tj * n == j,
    ;
}

/// Among the steps from -1 to `n - 2` there is one that leads from `r` to
/// any given cell of the ring.
proof fn lemma_reached(n: int, r: int, a: int) -> (i: int)
    requires
        n > 0,
        0 <= a < n,
    ensures
        -1 <= i <= n - 2,
        wrap(r + i, n) == a,
{
    let i = wrap(a - r + 1, n) - 1;
    lemma_wrap_range(a - r + 1, n);
    lemma_wrap_step(r - 1, a - r + 1, n);
    lemma_wrap_fixed(a, n);
    assert(r - 1 + (a - r + 1) == a);
    assert(r - 1 + wrap(a - r + 1, n) == r + i);
    i
}

/// Where the rule makes `later` of `shape`, the generation after a grid that
/// shows `shape` shows `later` at the same place.
pub proof fn theorem_shape_step(
    g: Seq<Seq<bool>>,
    r: int,
    c: int,
    shape: spec_fn(int, int) -> bool,
    later: spec_fn(int, int) -> bool,
)
    requires
        shows(g, r, c, shape),
        becomes(shape, later, g.len() as int),
    ensures
        shows(next_generation(g), r, c, later),
        next_generation(g).len() == g.len(),
{
    let n = g.len() as int;
    let next = next_generation(g);
    theorem_next_generation(g, 0, 0);
    assert forall|i: int, j: int| -1 <= i <= n - 2 && -1 <= j <= n - 2 implies (#[trigger] cell_from(
        next,
        r,
        c,
        i,
        j,
    ) <==> later(i, j)) by {
        theorem_next_generation(g, r + i, c + j);
        lemma_folded(g, r, c, i - 1, j - 1);
        lemma_folded(g, r, c, i - 1, j);
        lemma_folded(g, r, c, i - 1, j + 1);
        lemma_folded(g, r, c, i, j - 1);
        lemma_folded(g, r, c, i, j);
        lemma_folded(g, r, c, i, j + 1);
        lemma_folded(g, r, c, i + 1, j - 1);
        lemma_folded(g, r, c, i + 1, j);
        lemma_folded(g, r, c, i + 1, j + 1);
        assert(live_neighbors(g, r + i, c + j) == shape_neighbors(shape, n, i, j));
        assert(later(i, j) == next_state(shape(i, j), shape_neighbors(shape, n, i, j)));
    }
}

/// A grid that shows a shape shows, from the cell one row down and one
/// column right, the shape moved one row up and one column left.
pub proof fn theorem_shape_from_next_corner(
    g: Seq<Seq<bool>>,
    r: int,
    c: int,
    shape: spec_fn(int, int) -> bool,
    moved: spec_fn(int, int) -> bool,
)
    requires
        shows(g, r, c, shape),
        forall|i: int, j: int|
            -1 <= i <= g.len() - 2 && -1 <= j <= g.len() - 2 ==> #[trigger] moved(i, j) == shape(
                folded(i + 1, g.len() as int),
                folded(j + 1, g.len() as int),
            ),
    ensures
        shows(g, r + 1, c + 1, moved),
{
    let n = g.len() as int;
    assert forall|i: int, j: int| -1 <= i <= n - 2 && -1 <= j <= n - 2 implies (#[trigger] cell_from(
        g,
        r + 1,
        c + 1,
        i,
        j,
    ) <==> moved(i, j)) by {
        lemma_folded(g, r, c, i + 1, j + 1);
        assert(r + 1 + i == r + (i + 1));
        assert(c + 1 + j == c + (j + 1));
        assert(moved(i, j) == shape(folded(i + 1, n), folded(j + 1, n)));
    }
}

/// Two grids of one side that show the same shape at the same place are the
/// same grid.
pub proof fn theorem_shape_only(
    g: Seq<Seq<bool>>,
    h: Seq<Seq<bool>>,
    r: int,
    c: int,
    shape: spec_fn(int, int) -> bool,
)
    requires
        shows(g, r, c, shape),
        shows(h, r, c, shape),
        g.len() == h.len(),
    ensures
        g == h,
{
    let n = g.len() as int;
    assert forall|a: int, b: int| 0 <= a < n && 0 <= b < n implies g[a][b] == h[a][b] by {
        let i = lemma_reached(n, r, a);
        let j = lemma_reached(n, c, b);
        assert(cell_from(g, r, c, i, j) <==> shape(i, j));
        assert(cell_from(h, r, c, i, j) <==> shape(i, j));
    }
    assert(g =~~= h);
}

} // verus!
