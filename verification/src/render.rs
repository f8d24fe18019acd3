//! The grid as text: a frame of `+`, `-` and `|` around one character per
//! cell.

use vstd::prelude::*;
use vstd::string::StringExecFns;
use crate::grid::LifeGrid;
use crate::model::dead_grid;

verus! {

/// The horizontal rule above and below a grid of side `n`: `n` dashes
/// between two `+`, and the end of the line.
pub open spec fn rule(n: nat) -> Seq<char> {
    seq!['+'] + Seq::new(n, |i: int| '-') + seq!['+', '\n']
}

/// The character that stands for a cell.
pub open spec fn glyph(alive: bool) -> char {
    if alive {
        'x'
    } else {
        ' '
    }
}

/// The cells of one row, one character each.
pub open spec fn cells_text(row: Seq<bool>) -> Seq<char> {
    Seq::new(row.len(), |i: int| glyph(row[i]))
}

/// The line of one row: its cells between two `|`, and the end of the line.
pub open spec fn row_text(row: Seq<bool>) -> Seq<char> {
    seq!['|'] + cells_text(row) + seq!['|', '\n']
}

/// The lines of the first `k` rows of `g`, from the top.
pub open spec fn rows_text(g: Seq<Seq<bool>>, k: int) -> Seq<char>
    decreases k,
{
    if k <= 0 {
        Seq::empty()
    } else {
        rows_text(g, k - 1) + row_text(g[k - 1])
    }
}

/// The whole picture: a rule, the rows, and a rule again.
pub open spec fn picture(g: Seq<Seq<bool>>) -> Seq<char> {
    rule(g.len()) + rows_text(g, g.len() as int) + rule(g.len())
}

/// The line of a row on which nothing lives: `n` spaces between two `|`, and
/// the end of the line.
pub open spec fn blank_line(n: nat) -> Seq<char> {
    seq!['|'] + Seq::new(n, |i: int| ' ') + seq!['|', '\n']
}

/// The same line `k` times over.
pub open spec fn repeated(line: Seq<char>, k: nat) -> Seq<char>
    decreases k,
{
    if k == 0 {
        Seq::empty()
    } else {
        repeated(line, (k - 1) as nat) + line
    }
}

proof fn lemma_dead_rows(n: nat, k: nat)
    requires
        k <= n,
    ensures
        rows_text(dead_grid(n), k as int) == repeated(blank_line(n), k),
    decreases k,
{
    if k > 0 {
        lemma_dead_rows(n, (k - 1) as nat);
        assert(cells_text(dead_grid(n)[k - 1]) =~= Seq::new(n, |i: int| ' '));
    }
}

/// The picture of a grid of side `n` on which nothing lives: a rule of `n`
/// dashes, `n` lines of `n` spaces each, and the rule again.
pub proof fn theorem_dead_picture(n: nat)
    ensures
        picture(dead_grid(n)) == rule(n) + repeated(blank_line(n), n) + rule(n),
        rule(n).len() == n + 3,
        blank_line(n).len() == n + 3,
        picture(dead_grid(n)).len() == (n + 2) * (n + 3),
{
    lemma_dead_rows(n, n);
    lemma_repeated_len(blank_line(n), n);
    assert((n + 3) + n * (n + 3) + (n + 3) == (n + 2) * (n + 3)) by (nonlinear_arith);
}

proof fn lemma_repeated_len(line: Seq<char>, k: nat)
    ensures
        repeated(line, k).len() == k * line.len(),
    decreases k,
{
    if k > 0 {
        lemma_repeated_len(line, (k - 1) as nat);
        assert((k - 1) * line.len() + line.len() == k * line.len()) by (nonlinear_arith);
    } else {
        assert(0 * line.len() == 0);
    }
}

/// The picture of a square grid of side `n` has `n + 2` lines of `n + 3`
/// characters each, the ends of the lines counted.
pub proof fn theorem_picture_len(g: Seq<Seq<bool>>)
    requires
        forall|r: int| 0 <= r < g.len() ==> (#[trigger] g[r]).len() == g.len(),
    ensures
        picture(g).len() == (g.len() + 2) * (g.len() + 3),
{
    let n = g.len();
    lemma_rows_len(g, n as int);
    assert((n + 3) + n * (n + 3) + (n + 3) == (n + 2) * (n + 3)) by (nonlinear_arith);
}

proof fn lemma_rows_len(g: Seq<Seq<bool>>, k: int)
    requires
        0 <= k <= g.len(),
        forall|r: int| 0 <= r < g.len() ==> (#[trigger] g[r]).len() == g.len(),
    ensures
        rows_text(g, k).len() == k * (g.len() + 3),
    decreases k,
{
    if k > 0 {
        lemma_rows_len(g, k - 1);
        assert(row_text(g[k - 1]).len() == g.len() + 3);
        assert((k - 1) * (g.len() + 3) + (g.len() + 3) == k * (g.len() + 3)) by (nonlinear_arith);
    } else {
        assert(0 * (g.len() + 3) == 0);
    }
}

/// Appends to `out` the rule of a grid of side `n`.
pub fn write_dashes(n: usize, out: &mut String)
    ensures
        final(out)@ == old(out)@ + rule(n as nat),
{
    proof {
        reveal_strlit("+");
        reveal_strlit("+\n");
    }
    out.append("+");
    assert(out@ =~= old(out)@ + seq!['+'] + Seq::new(0, |k: int| '-'));
    for i in 0..n
        invariant
            out@ == old(out)@ + seq!['+'] + Seq::new(i as nat, |k: int| '-'),
    {
        proof {
            reveal_strlit("-");
        }
        out.append("-");
        assert(out@ =~= old(out)@ + seq!['+'] + Seq::new((i + 1) as nat, |k: int| '-'));
    }
    out.append("+\n");
    assert(out@ =~= old(out)@ + rule(n as nat));
}

impl LifeGrid {
    /// The grid as text, ready to be printed.
    pub fn render(&self) -> (text: String)
        ensures
            text@ == picture(self@),
    {
        let n = self.size();
        let mut text = String::new();
        write_dashes(n, &mut text);
        assert(text@ =~= rule(n as nat) + rows_text(self@, 0));
        for r in 0..n
            invariant
                n == self@.len(),
                text@ == rule(n as nat) + rows_text(self@, r as int),
        {
            let ghost above = text@;
            let ghost cells = cells_text(self@[r as int]);
            proof {
                reveal_strlit("|");
                reveal_strlit("|\n");
            }
            text.append("|");
            assert(text@ =~= above + seq!['|'] + cells.take(0));
            let width = self.width(r);
            for c in 0..width
                invariant
                    n == self@.len(),
                    r < n,
                    width == self@[r as int].len(),
                    cells == cells_text(self@[r as int]),
                    text@ == above + seq!['|'] + cells.take(c as int),
            {
                proof {
                    reveal_strlit("x");
                    reveal_strlit(" ");
                }
                if self.peek(r, c) {
                    text.append("x");
                } else {
                    text.append(" ");
                }
                assert(text@ =~= above + seq!['|'] + cells.take(c + 1));
            }
            text.append("|\n");
            assert(cells.take(width as int) =~= cells);
            assert(text@ =~= rule(n as nat) + rows_text(self@, r + 1));
        }
        write_dashes(n, &mut text);
        text
    }
}

} // verus!
