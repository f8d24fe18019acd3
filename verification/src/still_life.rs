//! The block: four live cells in a square, which the rule leaves as they
//! are.

use vstd::prelude::*;
use crate::model::{is_square, cell, live_neighbors, next_generation, weight};
use crate::pictures::{cell_from, shows, becomes, theorem_shape_step, theorem_shape_only};
use crate::theorems::theorem_next_generation;

verus! {

/// Whether the cell `i` rows below and `j` columns right of a block's
/// top-left cell belongs to the block.
pub open spec fn in_block(i: int, j: int) -> bool {
    0 <= i <= 1 && 0 <= j <= 1
}

/// A block with its top-left cell in row `r`, column `c`, and two rows and
/// two columns of dead cells on every side of it. Further away the grid
/// holds anything.
pub open spec fn isolated_block(g: Seq<Seq<bool>>, r: int, c: int) -> bool {
    forall|i: int, j: int|
        -2 <= i <= 3 && -2 <= j <= 3 ==> (#[trigger] cell_from(g, r, c, i, j) <==> in_block(i, j))
}

/// How many cells of a block lie around the cell `i` rows below and `j`
/// columns right of the block's top-left cell.
pub open spec fn block_cells_around(i: int, j: int) -> nat {
    weight(in_block(i - 1, j - 1)) + weight(in_block(i - 1, j)) + weight(in_block(i - 1, j + 1))
        + weight(in_block(i, j - 1)) + weight(in_block(i, j + 1)) + weight(in_block(i + 1, j - 1))
        + weight(in_block(i + 1, j)) + weight(in_block(i + 1, j + 1))
}

/// A cell of an isolated block, or next to it, has the cells of the block
/// around it for live neighbours and no others.
pub proof fn theorem_block_surroundings(g: Seq<Seq<bool>>, r: int, c: int, i: int, j: int)
    requires
        is_square(g),
        isolated_block(g, r, c),
        -1 <= i <= 2,
        -1 <= j <= 2,
    ensures
        cell(g, r + i, c + j) == in_block(i, j),
        live_neighbors(g, r + i, c + j) == block_cells_around(i, j),
{
    assert(cell_from(g, r, c, i, j) == in_block(i, j));
    assert(cell_from(g, r, c, i - 1, j - 1) == in_block(i - 1, j - 1));
    assert(cell_from(g, r, c, i - 1, j) == in_block(i - 1, j));
    assert(cell_from(g, r, c, i - 1, j + 1) == in_block(i - 1, j + 1));
    assert(cell_from(g, r, c, i, j - 1) == in_block(i, j - 1));
    assert(cell_from(g, r, c, i, j + 1) == in_block(i, j + 1));
    assert(cell_from(g, r, c, i + 1, j - 1) == in_block(i + 1, j - 1));
    assert(cell_from(g, r, c, i + 1, j) == in_block(i + 1, j));
    assert(cell_from(g, r, c, i + 1, j + 1) == in_block(i + 1, j + 1));
}

/// Every cell of an isolated block has exactly three live neighbours.
pub proof fn theorem_block_neighbors(g: Seq<Seq<bool>>, r: int, c: int, i: int, j: int)
    requires
        is_square(g),
        isolated_block(g, r, c),
        in_block(i, j),
    ensures
        live_neighbors(g, r + i, c + j) == 3,
{
    theorem_block_surroundings(g, r, c, i, j);
}

/// One generation on, an isolated block and the cells next to it are what
/// they were: the block alive, the cells around it dead.
pub proof fn theorem_block_stays(g: Seq<Seq<bool>>, r: int, c: int, i: int, j: int)
    requires
        is_square(g),
        isolated_block(g, r, c),
        -1 <= i <= 2,
        -1 <= j <= 2,
    ensures
        cell(next_generation(g), r + i, c + j) == cell(g, r + i, c + j),
        cell(next_generation(g), r + i, c + j) == in_block(i, j),
{
    theorem_next_generation(g, r + i, c + j);
    theorem_block_surroundings(g, r, c, i, j);
}

/// The grid `g` holds a block with its top-left cell in row `r`, column `c`,
/// and no other live cell.
pub open spec fn block_alone(g: Seq<Seq<bool>>, r: int, c: int) -> bool {
    shows(g, r, c, |i: int, j: int| in_block(i, j))
}

/// A grid of side 3 or more that holds a block and nothing else is its own
/// next generation.
pub proof fn theorem_block_is_still(g: Seq<Seq<bool>>, r: int, c: int)
    requires
        block_alone(g, r, c),
        g.len() >= 3,
    ensures
        next_generation(g) == g,
{
    let block = |i: int, j: int| in_block(i, j);
    assert(becomes(block, block, g.len() as int));
    theorem_shape_step(g, r, c, block, block);
    theorem_shape_only(next_generation(g), g, r, c, block);
}

} // verus!
