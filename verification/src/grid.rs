//! The grid of cells and the accessors that wrap their coordinates.

use vstd::prelude::*;
use crate::model::{
    is_square, cell, with_cell, dead_grid, laid_out, stamp, stamp_row, stamp_rows, glider_shape,
    lwss_shape,
};
use crate::torus::{wrap_index, lemma_wrap_step, lemma_wrap_fixed};

verus! {

/// The largest side a grid can have: coordinates are signed 32-bit numbers.
pub const MAX_SIZE: usize = 2147483647;

/// Why a grid could not be made.
#[derive(Debug, Clone, Copy, PartialEq, Eq, Structural)]
pub enum GridError {
    /// A grid has at least one cell.
    ZeroSize,
    /// The side is more than `MAX_SIZE`.
    TooLarge,
}

/// One draw from `rand::random`, which asks the thread's generator for a
/// boolean. The two values are equally likely; which one comes is left open,
/// so nothing is claimed of it.
#[verifier::external_body]
fn random_bool() -> (bit: bool) {
    rand::random()
}

/// The state of a game: a square of cells on a torus.
pub struct LifeGrid {
    cells: Vec<Vec<bool>>,
}

impl View for LifeGrid {
    type V = Seq<Seq<bool>>;

    /// The rows of the grid, from the top.
    closed spec fn view(&self) -> Seq<Seq<bool>> {
        Seq::new(self.cells@.len(), |r: int| self.cells@[r]@)
    }
}

impl LifeGrid {
    /// What holds of every grid: it is a square of at least one cell whose
    /// side a coordinate can count.
    pub open spec fn wf(&self) -> bool {
        &&& is_square(self@)
        &&& self@.len() <= MAX_SIZE
    }

    /// A grid of the given side on which nothing lives.
    pub fn new(size: usize) -> (made: Result<LifeGrid, GridError>)
        ensures
            match made {
                Ok(grid) => 0 < size <= MAX_SIZE && grid.wf() && grid@ == dead_grid(size as nat),
                Err(GridError::ZeroSize) => size == 0,
                Err(GridError::TooLarge) => size > MAX_SIZE,
            },
    {
        if size == 0 {
            return Err(GridError::ZeroSize);
        }
        if size > MAX_SIZE {
            return Err(GridError::TooLarge);
        }
        let grid = LifeGrid { cells: vec![vec![false; size]; size] };
        assert(grid@ =~~= dead_grid(size as nat));
        Ok(grid)
    }

    /// The grid of the given side whose cells are the values of `draws`, row
    /// by row: the cell in row `x`, column `y` is alive exactly when
    /// `draws[x * size + y]` is true.
    pub fn from_draws(size: usize, draws: &Vec<bool>) -> (made: Result<LifeGrid, GridError>)
        requires
            draws@.len() == size * size,
        ensures
            match made {
                Ok(grid) => 0 < size <= MAX_SIZE && grid.wf() && grid@.len() == size
                    && grid@ == laid_out(draws@, size as nat) && forall|x: int, y: int|
                    0 <= x < size && 0 <= y < size ==> #[trigger] grid@[x][y] == draws@[x * size + y],
                Err(GridError::ZeroSize) => size == 0,
                Err(GridError::TooLarge) => size > MAX_SIZE,
            },
    {
        let mut grid = match LifeGrid::new(size) {
            Ok(grid) => grid,
            Err(e) => {
                return Err(e);
            },
        };
        let side = grid.sizei();
        let total = draws.len();
        let mut k: usize = 0;
        assert(0 * size == 0);
        for x in 0..side
            invariant
                grid.wf(),
                side == size,
                grid@.len() == size,
                draws@.len() == size * size,
                total == draws@.len(),
                k == x * size,
                forall|r: int, c: int|
                    0 <= r < x && 0 <= c < size ==> #[trigger] grid@[r][c] == draws@[r * size + c],
        {
            for y in 0..side
                invariant
                    grid.wf(),
                    side == size,
                    0 <= x < side,
                    grid@.len() == size,
                    draws@.len() == size * size,
                    total == draws@.len(),
                    k == x * size + y,
                    forall|r: int, c: int|
                        0 <= r < size && 0 <= c < size && (r < x || (r == x && c < y))
                            ==> #[trigger] grid@[r][c] == draws@[r * size + c],
            {
                proof {
                    lemma_wrap_fixed(x as int, size as int);
                    lemma_wrap_fixed(y as int, size as int);
                    assert(x * size + y < size * size) by (nonlinear_arith)
                        requires
                            0 <= x < size,
                            0 <= y < size,
                    ;
                }
                grid.set(x, y, draws[k]);
                k = k + 1;
            }
            assert((x + 1) * size == x * size + size) by (nonlinear_arith);
        }
        assert(grid@ =~~= laid_out(draws@, size as nat));
        Ok(grid)
    }

    /// A grid of the given side on which every cell is alive or dead by the
    /// toss of a fair coin, each cell by a toss of its own: one draw is made
    /// for every cell, and the grid is `from_draws` of the draws in the order
    /// in which they came.
    pub fn random(size: usize) -> (made: Result<LifeGrid, GridError>)
        ensures
            match made {
                Ok(grid) => 0 < size <= MAX_SIZE && grid.wf() && grid@.len() == size,
                Err(GridError::ZeroSize) => size == 0,
                Err(GridError::TooLarge) => size > MAX_SIZE,
            },
    {
        if size == 0 {
            return Err(GridError::ZeroSize);
        }
        if size > MAX_SIZE {
            return Err(GridError::TooLarge);
        }
        let mut draws: Vec<bool> = Vec::new();
        assert(0 * size == 0);
        for x in 0..size
            invariant
                draws@.len() == x * size,
        {
            for y in 0..size
                invariant
                    draws@.len() == x * size + y,
            {
                draws.push(random_bool());
            }
            assert((x + 1) * size == x * size + size) by (nonlinear_arith);
        }
        LifeGrid::from_draws(size, &draws)
    }

    /// The side of the grid.
    pub fn size(&self) -> (n: usize)
        ensures
            n == self@.len(),
    {
        self.cells.len()
    }

    /// The side of the grid as a coordinate.
    pub fn sizei(&self) -> (n: i32)
        requires
            self.wf(),
        ensures
            n == self@.len(),
    {
        self.cells.len() as i32
    }

    /// The length of row `r`.
    pub(crate) fn width(&self, r: usize) -> (w: usize)
        requires
            r < self@.len(),
        ensures
            w == self@[r as int].len(),
    {
        self.cells[r].len()
    }

    /// Whether the cell in column `c` of row `r` is alive, for a row and a
    /// column that the grid has.
    pub(crate) fn peek(&self, r: usize, c: usize) -> (alive: bool)
        requires
            r < self@.len(),
            c < self@[r as int].len(),
        ensures
            alive == self@[r as int][c as int],
    {
        self.cells[r][c]
    }

    /// Whether the cell in row `x` and column `y` is alive, for coordinates
    /// of any width that the neighbours of a cell can have.
    pub(crate) fn at(&self, x: i64, y: i64) -> (alive: bool)
        requires
            self.wf(),
        ensures
            alive == cell(self@, x as int, y as int),
    {
        let n = self.cells.len();
        let r = wrap_index(x, n);
        let c = wrap_index(y, n);
        assert(self@[r as int] == self.cells@[r as int]@);
        self.cells[r][c]
    }

    /// Makes the cell in row `x` and column `y` alive or dead, for
    /// coordinates of any width that a pattern's cells can have.
    pub(crate) fn put(&mut self, x: i64, y: i64, value: bool)
        requires
            old(self).wf(),
        ensures
            final(self).wf(),
            final(self)@ == with_cell(old(self)@, x as int, y as int, value),
    {
        let n = self.cells.len();
        let r = wrap_index(x, n);
        let c = wrap_index(y, n);
        assert(self@[r as int] == self.cells@[r as int]@);
        self.cells[r][c] = value;
        assert(self@ =~~= with_cell(old(self)@, x as int, y as int, value));
    }

    /// Whether the cell in row `x` and column `y` is alive. Any coordinate
    /// names a cell: it is taken round the torus first.
    pub fn get(&self, x: i32, y: i32) -> (alive: bool)
        requires
            self.wf(),
        ensures
            alive == cell(self@, x as int, y as int),
    {
        self.at(x as i64, y as i64)
    }

    /// Makes the cell in row `x` and column `y` alive or dead. Any coordinate
    /// names a cell: it is taken round the torus first.
    pub fn set(&mut self, x: i32, y: i32, value: bool)
        requires
            old(self).wf(),
        ensures
            final(self).wf(),
            final(self)@ == with_cell(old(self)@, x as int, y as int, value),
    {
        self.put(x as i64, y as i64, value);
    }

    /// Stamps `pattern` on the grid with its top-left corner in column `x` of
    /// row `y`. A pattern that runs over an edge goes on at the opposite edge.
    pub fn put_pattern(&mut self, x: i32, y: i32, pattern: Vec<Vec<bool>>)
        requires
            old(self).wf(),
        ensures
            final(self).wf(),
            final(self)@ == stamp(old(self)@, x as int, y as int, pattern.deep_view()),
    {
        let n = self.cells.len();
        let ghost shape = pattern.deep_view();
        for yn in 0..pattern.len()
            invariant
                self.wf(),
                self@.len() == n,
                shape == pattern.deep_view(),
                self@ == stamp_rows(old(self)@, x as int, y as int, shape, yn as int),
        {
            let row = &pattern[yn];
            let ghost before = self@;
            assert(shape[yn as int] == row@);
            for xn in 0..row.len()
                invariant
                    self.wf(),
                    self@.len() == n,
                    yn < pattern.len(),
                    row@ == shape[yn as int],
                    self@ == stamp_row(before, x as int, y + yn, row@, xn as int),
            {
                proof {
                    lemma_wrap_step(x as int, xn as int, n as int);
                    lemma_wrap_step(y as int, yn as int, n as int);
                }
                let nx = x as i64 + (xn % n) as i64;
                let ny = y as i64 + (yn % n) as i64;
                self.put(ny, nx, row[xn]);
            }
        }
    }

    /// Stamps a glider with its top-left corner in column `x` of row `y`.
    pub fn glider(&mut self, x: i32, y: i32)
        requires
            old(self).wf(),
        ensures
            final(self).wf(),
            final(self)@ == stamp(old(self)@, x as int, y as int, glider_shape()),
    {
        let g = vec![
            vec![false, true, false],
            vec![false, false, true],
            vec![true, true, true],
        ];
        assert(g.deep_view() =~~= glider_shape());
        self.put_pattern(x, y, g);
    }

    /// Stamps a lightweight spaceship with its top-left corner in column `x`
    /// of row `y`.
    pub fn lwss(&mut self, x: i32, y: i32)
        requires
            old(self).wf(),
        ensures
            final(self).wf(),
            final(self)@ == stamp(old(self)@, x as int, y as int, lwss_shape()),
    {
        let ss = vec![
            vec![false, true, true, true, true],
            vec![true, false, false, false, true],
            vec![false, false, false, false, true],
            vec![true, false, false, true, false],
        ];
        assert(ss.deep_view() =~~= lwss_shape());
        self.put_pattern(x, y, ss);
    }
}

} // verus!
