//! The block grid of one chunk: its extents and its mathematical model.

use vstd::prelude::*;
use crate::block::{Block, BlockType};

verus! {

/// Extent of a chunk along x.
pub const CHUNK_WIDTH: usize = 16;

/// Extent of a chunk along y.
pub const CHUNK_HEIGHT: usize = 30;

/// Extent of a chunk along z.
pub const CHUNK_DEPTH: usize = 16;

/// The model of a block grid: materials addressed `[x][y][z]`.
pub type Grid = Seq<Seq<Seq<BlockType>>>;

/// The materials held by `blocks`, addressed `[x][y][z]`.
pub open spec fn grid_view(blocks: &Vec<Vec<Vec<Block>>>) -> Grid {
    Seq::new(
        blocks@.len(),
        |x: int| Seq::new(blocks@[x]@.len(), |y: int| Seq::new(blocks@[x]@[y]@.len(), |z: int| blocks@[x]@[y]@[z]@)),
    )
}

/// A grid has the extents of a chunk: 16 wide, 30 high, 16 deep.
pub open spec fn is_chunk_grid(g: Grid) -> bool {
    &&& g.len() == CHUNK_WIDTH
    &&& forall|x: int| 0 <= x < CHUNK_WIDTH ==> (#[trigger] g[x]).len() == CHUNK_HEIGHT
    &&& forall|x: int, y: int|
        0 <= x < CHUNK_WIDTH && 0 <= y < CHUNK_HEIGHT ==> (#[trigger] g[x][y]).len() == CHUNK_DEPTH
}

/// `(x, y, z)` addresses a cell of a chunk.
pub open spec fn in_chunk(x: int, y: int, z: int) -> bool {
    0 <= x < CHUNK_WIDTH && 0 <= y < CHUNK_HEIGHT && 0 <= z < CHUNK_DEPTH
}

/// Tells whether `blocks` has the extents of a chunk.
pub fn is_chunk_shaped(blocks: &Vec<Vec<Vec<Block>>>) -> (ok: bool)
    ensures
        ok == is_chunk_grid(grid_view(blocks)),
{
    if blocks.len() != CHUNK_WIDTH {
        return false;
    }
    let mut x: usize = 0;
    while x < CHUNK_WIDTH
        invariant
            0 <= x <= CHUNK_WIDTH,
            blocks@.len() == CHUNK_WIDTH,
            forall|i: int| 0 <= i < x ==> (#[trigger] grid_view(blocks)[i]).len() == CHUNK_HEIGHT,
            forall|i: int, j: int|
                0 <= i < x && 0 <= j < CHUNK_HEIGHT ==> (#[trigger] grid_view(blocks)[i][j]).len()
                    == CHUNK_DEPTH,
        decreases CHUNK_WIDTH - x,
    {
        if blocks[x].len() != CHUNK_HEIGHT {
            assert(grid_view(blocks)[x as int].len() != CHUNK_HEIGHT);
            return false;
        }
        let mut y: usize = 0;
        while y < CHUNK_HEIGHT
            invariant
                0 <= x < CHUNK_WIDTH,
                0 <= y <= CHUNK_HEIGHT,
                blocks@.len() == CHUNK_WIDTH,
                blocks@[x as int]@.len() == CHUNK_HEIGHT,
                forall|j: int|
                    0 <= j < y ==> (#[trigger] grid_view(blocks)[x as int][j]).len() == CHUNK_DEPTH,
            decreases CHUNK_HEIGHT - y,
        {
            if blocks[x][y].len() != CHUNK_DEPTH {
                assert(grid_view(blocks)[x as int][y as int].len() != CHUNK_DEPTH);
                return false;
            }
            y += 1;
        }
        x += 1;
    }
    true
}

/// The cell at `(x, y, z)` of a chunk-shaped grid.
pub fn block_at(blocks: &Vec<Vec<Vec<Block>>>, x: usize, y: usize, z: usize) -> (b: &Block)
    requires
        is_chunk_grid(grid_view(blocks)),
        in_chunk(x as int, y as int, z as int),
    ensures
        b@ == grid_view(blocks)[x as int][y as int][z as int],
{
    proof {
        lemma_grid_view_cell(blocks, x as int, y as int, z as int);
    }
    &blocks[x][y][z]
}

/// The cell of `blocks` at an address inside its model is the model's entry there.
pub proof fn lemma_grid_view_cell(blocks: &Vec<Vec<Vec<Block>>>, x: int, y: int, z: int)
    requires
        0 <= x < grid_view(blocks).len(),
        0 <= y < grid_view(blocks)[x].len(),
        0 <= z < grid_view(blocks)[x][y].len(),
    ensures
        x < blocks@.len(),
        y < blocks@[x]@.len(),
        z < blocks@[x]@[y]@.len(),
        blocks@[x]@[y]@[z]@ == grid_view(blocks)[x][y][z],
{
}

} // verus!
