//! What stamping a pattern does to each cell of a grid.

use vstd::prelude::*;
use crate::model::{is_square, cell, with_cell, stamp, stamp_row, stamp_rows};
use crate::torus::{wrap, lemma_wrap_range, lemma_wrap_apart};

verus! {

/// What a cell in column `c` holds after the first `k` cells of `row` were
/// written along its grid row from column `x`: the last of them that came to
/// lie on it, or `before` where none did.
pub open spec fn row_stamped_cell(before: bool, n: int, x: int, row: Seq<bool>, c: int, k: int) -> bool
    decreases k,
{
    if k <= 0 {
        before
    } else if wrap(x + (k - 1), n) == c {
        row[k - 1]
    } else {
        row_stamped_cell(before, n, x, row, c, k - 1)
    }
}

/// What the cell in row `r`, column `c` holds after the first `k` rows of
/// `pattern` were stamped with the top-left corner in column `x` of row `y`.
pub open spec fn stamped_cell(
    before: bool,
    n: int,
    x: int,
    y: int,
    pattern: Seq<Seq<bool>>,
    r: int,
    c: int,
    k: int,
) -> bool
    decreases k,
{
    if k <= 0 {
        before
    } else {
        let above = stamped_cell(before, n, x, y, pattern, r, c, k - 1);
        if wrap(y + (k - 1), n) == r {
            row_stamped_cell(above, n, x, pattern[k - 1], c, pattern[k - 1].len() as int)
        } else {
            above
        }
    }
}

/// Setting a cell keeps the grid square and changes that cell alone.
pub proof fn lemma_with_cell(g: Seq<Seq<bool>>, x: int, y: int, value: bool, r: int, c: int)
    requires
        is_square(g),
        0 <= r < g.len(),
        0 <= c < g.len(),
    ensures
        is_square(with_cell(g, x, y, value)),
        with_cell(g, x, y, value).len() == g.len(),
        with_cell(g, x, y, value)[r][c] == (if r == wrap(x, g.len() as int) && c == wrap(
            y,
            g.len() as int,
        ) {
            value
        } else {
            g[r][c]
        }),
        cell(with_cell(g, x, y, value), x, y) == value,
{
    lemma_wrap_range(x, g.len() as int);
    lemma_wrap_range(y, g.len() as int);
}

/// Writing a row of cells keeps the grid square, and each cell of the grid
/// depends on what it held before and on nothing else of the grid.
pub proof fn lemma_stamp_row(g: Seq<Seq<bool>>, x: int, y: int, row: Seq<bool>, k: int, r: int, c: int)
    requires
        is_square(g),
        0 <= r < g.len(),
        0 <= c < g.len(),
    ensures
        is_square(stamp_row(g, x, y, row, k)),
        stamp_row(g, x, y, row, k).len() == g.len(),
        stamp_row(g, x, y, row, k)[r][c] == (if r == wrap(y, g.len() as int) {
            row_stamped_cell(g[r][c], g.len() as int, x, row, c, k)
        } else {
            g[r][c]
        }),
    decreases k,
{
    if k > 0 {
        lemma_stamp_row(g, x, y, row, k - 1, r, c);
        lemma_with_cell(stamp_row(g, x, y, row, k - 1), y, x + (k - 1), row[k - 1], r, c);
    }
}

/// Stamping rows of a pattern keeps the grid square, and each cell of the
/// grid depends on what it held before and on nothing else of the grid.
pub proof fn lemma_stamp_rows(
    g: Seq<Seq<bool>>,
    x: int,
    y: int,
    pattern: Seq<Seq<bool>>,
    k: int,
    r: int,
    c: int,
)
    requires
        is_square(g),
        0 <= r < g.len(),
        0 <= c < g.len(),
    ensures
        is_square(stamp_rows(g, x, y, pattern, k)),
        stamp_rows(g, x, y, pattern, k).len() == g.len(),
        stamp_rows(g, x, y, pattern, k)[r][c] == stamped_cell(
            g[r][c],
            g.len() as int,
            x,
            y,
            pattern,
            r,
            c,
            k,
        ),
    decreases k,
{
    if k > 0 {
        lemma_stamp_rows(g, x, y, pattern, k - 1, r, c);
        lemma_stamp_row(
            stamp_rows(g, x, y, pattern, k - 1),
            x,
            y + (k - 1),
            pattern[k - 1],
            pattern[k - 1].len() as int,
            r,
            c,
        );
    }
}

/// Stamping keeps the side of the grid, and what a cell holds afterwards
/// depends on what that cell held before, not on the rest of the grid.
pub proof fn theorem_stamp_cellwise(g: Seq<Seq<bool>>, x: int, y: int, pattern: Seq<Seq<bool>>, r: int, c: int)
    requires
        is_square(g),
        0 <= r < g.len(),
        0 <= c < g.len(),
    ensures
        is_square(stamp(g, x, y, pattern)),
        stamp(g, x, y, pattern).len() == g.len(),
        stamp(g, x, y, pattern)[r][c] == stamped_cell(
            g[r][c],
            g.len() as int,
            x,
            y,
            pattern,
            r,
            c,
            pattern.len() as int,
        ),
{
    lemma_stamp_rows(g, x, y, pattern, pattern.len() as int, r, c);
}

/// A cell of a stamped row either kept what it held, or holds what the
/// pattern put there whatever it held.
proof fn lemma_row_cell_kept_or_fixed(p: bool, q: bool, n: int, x: int, row: Seq<bool>, c: int, k: int)
    ensures
        row_stamped_cell(p, n, x, row, c, k) == row_stamped_cell(q, n, x, row, c, k) || (
        row_stamped_cell(p, n, x, row, c, k) == p && row_stamped_cell(q, n, x, row, c, k) == q),
    decreases k,
{
    if k > 0 {
        lemma_row_cell_kept_or_fixed(p, q, n, x, row, c, k - 1);
    }
}

/// A cell of a stamped grid either kept what it held, or holds what the
/// pattern put there whatever it held.
proof fn lemma_cell_kept_or_fixed(
    p: bool,
    q: bool,
    n: int,
    x: int,
    y: int,
    pattern: Seq<Seq<bool>>,
    r: int,
    c: int,
    k: int,
)
    ensures
        stamped_cell(p, n, x, y, pattern, r, c, k) == stamped_cell(q, n, x, y, pattern, r, c, k) || (
        stamped_cell(p, n, x, y, pattern, r, c, k) == p && stamped_cell(q, n, x, y, pattern, r, c, k)
            == q),
    decreases k,
{
    if k > 0 {
        lemma_cell_kept_or_fixed(p, q, n, x, y, pattern, r, c, k - 1);
        let above_p = stamped_cell(p, n, x, y, pattern, r, c, k - 1);
        let above_q = stamped_cell(q, n, x, y, pattern, r, c, k - 1);
        lemma_row_cell_kept_or_fixed(above_p, above_q, n, x, pattern[k - 1], c, pattern[k - 1].len() as int);
    }
}

/// Stamping a pattern a second time at the same place changes nothing.
pub proof fn theorem_stamp_twice(g: Seq<Seq<bool>>, x: int, y: int, pattern: Seq<Seq<bool>>)
    requires
        is_square(g),
    ensures
        stamp(stamp(g, x, y, pattern), x, y, pattern) == stamp(g, x, y, pattern),
{
    let n = g.len() as int;
    let once = stamp(g, x, y, pattern);
    let twice = stamp(once, x, y, pattern);
    theorem_stamp_cellwise(g, x, y, pattern, 0, 0);
    theorem_stamp_cellwise(once, x, y, pattern, 0, 0);
    assert forall|r: int, c: int| 0 <= r < n && 0 <= c < n implies twice[r][c] == once[r][c] by {
        theorem_stamp_cellwise(g, x, y, pattern, r, c);
        theorem_stamp_cellwise(once, x, y, pattern, r, c);
        lemma_cell_kept_or_fixed(once[r][c], g[r][c], n, x, y, pattern, r, c, pattern.len() as int);
    }
    assert(twice =~~= once);
}

/// A pattern no wider and no higher than the grid lies on it without
/// folding over.
pub open spec fn fits(pattern: Seq<Seq<bool>>, n: int) -> bool {
    &&& pattern.len() <= n
    &&& forall|i: int| 0 <= i < pattern.len() ==> (#[trigger] pattern[i]).len() <= n
}

/// In a row no longer than the grid is wide, every written cell stays as it
/// was written.
proof fn lemma_row_cell_written(before: bool, n: int, x: int, row: Seq<bool>, dx: int, k: int)
    requires
        n > 0,
        0 <= dx < k <= row.len() <= n,
    ensures
        row_stamped_cell(before, n, x, row, wrap(x + dx, n), k) == row[dx],
    decreases k,
{
    if k - 1 > dx {
        lemma_wrap_apart(x + dx, k - 1 - dx, n);
        assert(x + dx + (k - 1 - dx) == x + (k - 1));
        lemma_row_cell_written(before, n, x, row, dx, k - 1);
    }
}

/// A cell in a column that no cell of the row came to lie on keeps what it
/// held.
proof fn lemma_row_cell_missed(before: bool, n: int, x: int, row: Seq<bool>, c: int, k: int)
    requires
        k <= row.len(),
        forall|dx: int| 0 <= dx < row.len() ==> #[trigger] wrap(x + dx, n) != c,
    ensures
        row_stamped_cell(before, n, x, row, c, k) == before,
    decreases k,
{
    if k > 0 {
        assert(wrap(x + (k - 1), n) != c);
        lemma_row_cell_missed(before, n, x, row, c, k - 1);
    }
}

proof fn lemma_cell_written(
    before: bool,
    n: int,
    x: int,
    y: int,
    pattern: Seq<Seq<bool>>,
    dx: int,
    dy: int,
    k: int,
)
    requires
        n > 0,
        fits(pattern, n),
        0 <= dy < k <= pattern.len(),
        0 <= dx < pattern[dy].len(),
    ensures
        stamped_cell(before, n, x, y, pattern, wrap(y + dy, n), wrap(x + dx, n), k) == pattern[dy][dx],
    decreases k,
{
    if k - 1 > dy {
        lemma_wrap_apart(y + dy, k - 1 - dy, n);
        assert(y + dy + (k - 1 - dy) == y + (k - 1));
        lemma_cell_written(before, n, x, y, pattern, dx, dy, k - 1);
    } else {
        let above = stamped_cell(before, n, x, y, pattern, wrap(y + dy, n), wrap(x + dx, n), k - 1);
        lemma_row_cell_written(above, n, x, pattern[dy], dx, pattern[dy].len() as int);
    }
}

/// Where the pattern fits on the grid, the stamped grid shows it whole: the
/// pattern's cell in its row `dy` and column `dx` is found in row `y + dy`
/// and column `x + dx` of the grid.
pub proof fn theorem_stamp_shows_pattern(
    g: Seq<Seq<bool>>,
    x: int,
    y: int,
    pattern: Seq<Seq<bool>>,
    dx: int,
    dy: int,
)
    requires
        is_square(g),
        fits(pattern, g.len() as int),
        0 <= dy < pattern.len(),
        0 <= dx < pattern[dy].len(),
    ensures
        cell(stamp(g, x, y, pattern), y + dy, x + dx) == pattern[dy][dx],
{
    let n = g.len() as int;
    let r = wrap(y + dy, n);
    let c = wrap(x + dx, n);
    lemma_wrap_range(y + dy, n);
    lemma_wrap_range(x + dx, n);
    theorem_stamp_cellwise(g, x, y, pattern, r, c);
    lemma_cell_written(g[r][c], n, x, y, pattern, dx, dy, pattern.len() as int);
}

/// Whether some cell of the pattern comes to lie on row `r`, column `c`.
pub open spec fn covered(n: int, x: int, y: int, pattern: Seq<Seq<bool>>, r: int, c: int) -> bool {
    exists|dy: int, dx: int|
        0 <= dy < pattern.len() && 0 <= dx < pattern[dy].len() && #[trigger] wrap(y + dy, n) == r
            && #[trigger] wrap(x + dx, n) == c
}

proof fn lemma_cell_missed(
    before: bool,
    n: int,
    x: int,
    y: int,
    pattern: Seq<Seq<bool>>,
    r: int,
    c: int,
    k: int,
)
    requires
        k <= pattern.len(),
        !covered(n, x, y, pattern, r, c),
    ensures
        stamped_cell(before, n, x, y, pattern, r, c, k) == before,
    decreases k,
{
    if k > 0 {
        lemma_cell_missed(before, n, x, y, pattern, r, c, k - 1);
        if wrap(y + (k - 1), n) == r {
            let row = pattern[k - 1];
            assert forall|dx: int| 0 <= dx < row.len() implies #[trigger] wrap(x + dx, n) != c by {
                if wrap(x + dx, n) == c {
                    assert(wrap(y + (k - 1), n) == r && wrap(x + dx, n) == c);
                }
            }
            lemma_row_cell_missed(before, n, x, row, c, row.len() as int);
        }
    }
}

/// A cell that no cell of the pattern comes to lie on keeps what it held.
pub proof fn theorem_stamp_leaves_rest(
    g: Seq<Seq<bool>>,
    x: int,
    y: int,
    pattern: Seq<Seq<bool>>,
    r: int,
    c: int,
)
    requires
        is_square(g),
        0 <= r < g.len(),
        0 <= c < g.len(),
        !covered(g.len() as int, x, y, pattern, r, c),
    ensures
        stamp(g, x, y, pattern)[r][c] == g[r][c],
{
    theorem_stamp_cellwise(g, x, y, pattern, r, c);
    lemma_cell_missed(g[r][c], g.len() as int, x, y, pattern, r, c, pattern.len() as int);
}

} // verus!
