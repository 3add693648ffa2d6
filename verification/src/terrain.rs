//! Terrain: the surface heights of the world and the block grid of a chunk
//! cut from them.
//!
//! A column of the world is grass below its surface height and air from
//! there up. Heights are looked up at world coordinates, the chunk's offset
//! plus the column's place in the chunk, so chunks that touch agree along
//! their common edge.

use vstd::prelude::*;
use crate::block::{solid, Block, BlockType};
use crate::grid::{
    grid_view, in_chunk, is_chunk_grid, Grid, CHUNK_DEPTH, CHUNK_HEIGHT, CHUNK_WIDTH,
};

verus! {

/// Blocks along one side of the world.
pub const WORLD_SIDE: usize = 256;

/// The surface height of every column of the world, addressed by world x
/// and z.
#[derive(Debug)]
pub struct HeightField {
    samples: Vec<Vec<usize>>,
}

/// A table of heights covers the world: `WORLD_SIDE` rows of `WORLD_SIDE` each.
pub open spec fn covers_world(samples: Seq<Vec<usize>>) -> bool {
    &&& samples.len() == WORLD_SIDE
    &&& forall|gx: int| 0 <= gx < WORLD_SIDE ==> (#[trigger] samples[gx])@.len() == WORLD_SIDE
}

impl HeightField {
    #[verifier::type_invariant]
    spec fn complete(self) -> bool {
        covers_world(self.samples@)
    }

    /// The surface height of the column at world `(gx, gz)`.
    pub closed spec fn height(self, gx: int, gz: int) -> int {
        self.samples@[gx]@[gz] as int
    }

    /// Takes a table of heights, `samples[gx][gz]`, if it covers the world.
    pub fn new(samples: Vec<Vec<usize>>) -> (r: Option<HeightField>)
        ensures
            r is Some <==> covers_world(samples@),
            r matches Some(field) ==> forall|gx: int, gz: int|
                0 <= gx < WORLD_SIDE && 0 <= gz < WORLD_SIDE ==> #[trigger] field.height(gx, gz)
                    == samples@[gx]@[gz],
    {
        if samples.len() != WORLD_SIDE {
            return None;
        }
        let mut gx: usize = 0;
        while gx < WORLD_SIDE
            invariant
                0 <= gx <= WORLD_SIDE,
                samples@.len() == WORLD_SIDE,
                forall|i: int| 0 <= i < gx ==> (#[trigger] samples@[i])@.len() == WORLD_SIDE,
            decreases WORLD_SIDE - gx,
        {
            if samples[gx].len() != WORLD_SIDE {
                return None;
            }
            gx += 1;
        }
        Some(HeightField { samples })
    }

    /// The world whose every column has surface height `height`.
    pub fn flat(height: usize) -> (field: HeightField)
        ensures
            forall|gx: int, gz: int|
                0 <= gx < WORLD_SIDE && 0 <= gz < WORLD_SIDE ==> #[trigger] field.height(gx, gz)
                    == height,
    {
        let mut samples: Vec<Vec<usize>> = Vec::new();
        let mut gx: usize = 0;
        while gx < WORLD_SIDE
            invariant
                0 <= gx <= WORLD_SIDE,
                samples@.len() == gx,
                forall|i: int| 0 <= i < gx ==> (#[trigger] samples@[i])@.len() == WORLD_SIDE,
                forall|i: int, j: int|
                    0 <= i < gx && 0 <= j < WORLD_SIDE ==> (#[trigger] samples@[i]@[j]) == height,
            decreases WORLD_SIDE - gx,
        {
            let mut row: Vec<usize> = Vec::new();
            let mut gz: usize = 0;
            while gz < WORLD_SIDE
                invariant
                    0 <= gz <= WORLD_SIDE,
                    row@.len() == gz,
                    forall|j: int| 0 <= j < gz ==> (#[trigger] row@[j]) == height,
                decreases WORLD_SIDE - gz,
            {
                row.push(height);
                gz += 1;
            }
            samples.push(row);
            gx += 1;
        }
        HeightField { samples }
    }

    /// Reads the surface height of the column at world `(gx, gz)`.
    pub fn height_at(&self, gx: usize, gz: usize) -> (h: usize)
        requires
            gx < WORLD_SIDE,
            gz < WORLD_SIDE,
        ensures
            h == self.height(gx as int, gz as int),
    {
        proof {
            use_type_invariant(self);
        }
        self.samples[gx][gz]
    }
}

/// The material at height `y` of a column whose surface height is `height`.
pub open spec fn column_kind(height: int, y: int) -> BlockType {
    if y < height {
        BlockType::Grass
    } else {
        BlockType::Air
    }
}

/// A chunk at offset `(row, col)` lies inside the world.
pub open spec fn chunk_in_world(row: int, col: int) -> bool {
    0 <= row && row + CHUNK_WIDTH <= WORLD_SIDE && 0 <= col && col + CHUNK_DEPTH <= WORLD_SIDE
}

/// The grid of the chunk at offset `(row, col)`: the cell at `(x, y, z)` belongs
/// to the world column at `(row + x, col + z)`.
pub open spec fn chunk_model(heights: HeightField, row: int, col: int) -> Grid {
    Seq::new(
        CHUNK_WIDTH as nat,
        |x: int|
            Seq::new(
                CHUNK_HEIGHT as nat,
                |y: int|
                    Seq::new(
                        CHUNK_DEPTH as nat,
                        |z: int| column_kind(heights.height(row + x, col + z), y),
                    ),
            ),
    )
}

/// Rows read as sequences of materials.
pub open spec fn rows_view(rows: Seq<Vec<Block>>) -> Seq<Seq<BlockType>> {
    Seq::new(rows.len(), |i: int| Seq::new(rows[i]@.len(), |j: int| rows[i]@[j]@))
}

/// The transpose of a table whose rows all have `cols` entries.
pub open spec fn transposed(rows: Seq<Seq<BlockType>>, cols: nat) -> Seq<Seq<BlockType>> {
    Seq::new(cols, |j: int| Seq::new(rows.len(), |i: int| rows[i][j]))
}

/// Swaps rows and columns: `flipped[j][i]` is `input[i][j]`.
///
/// The result has as many rows as the first row of `input` has entries;
/// what a longer row holds beyond that is dropped. No row may be shorter than
/// the first.
pub fn flip_2d_vector(input: Vec<Vec<Block>>) -> (flipped: Vec<Vec<Block>>)
    requires
        forall|i: int| 0 <= i < input@.len() ==> (#[trigger] input@[i])@.len() >= input@[0]@.len(),
    ensures
        input@.len() == 0 ==> flipped@.len() == 0,
        input@.len() > 0 ==> rows_view(flipped@) == transposed(
            rows_view(input@),
            input@[0]@.len(),
        ),
{
    if input.len() == 0 {
        return Vec::new();
    }
    let num_rows = input.len();
    let num_cols = input[0].len();

    let mut flipped: Vec<Vec<Block>> = Vec::new();
    let mut j: usize = 0;
    while j < num_cols
        invariant
            0 <= j <= num_cols,
            num_rows == input@.len(),
            num_rows > 0,
            num_cols == input@[0]@.len(),
            forall|i: int| 0 <= i < input@.len() ==> (#[trigger] input@[i])@.len() >= num_cols,
            flipped@.len() == j,
            forall|b: int| 0 <= b < j ==> (#[trigger] flipped@[b])@.len() == num_rows,
            forall|b: int, a: int|
                0 <= b < j && 0 <= a < num_rows ==> (#[trigger] flipped@[b]@[a]) == input@[a]@[b],
        decreases num_cols - j,
    {
        let mut column: Vec<Block> = Vec::new();
        let mut i: usize = 0;
        while i < num_rows
            invariant
                0 <= i <= num_rows,
                0 <= j < num_cols,
                num_rows == input@.len(),
                forall|a: int| 0 <= a < input@.len() ==> (#[trigger] input@[a])@.len() >= num_cols,
                column@.len() == i,
                forall|a: int| 0 <= a < i ==> (#[trigger] column@[a]) == input@[a]@[j as int],
            decreases num_rows - i,
        {
            column.push(input[i][j]);
            i += 1;
        }
        flipped.push(column);
        j += 1;
    }
    assert(rows_view(flipped@) =~~= transposed(rows_view(input@), input@[0]@.len() as nat));
    flipped
}

/// Generates the block grid of the chunk at offset `(row, col)` of the world
/// whose surface heights are `heights`.
pub fn chunk_gen(heights: &HeightField, row: usize, col: usize) -> (blocks: Vec<Vec<Vec<Block>>>)
    requires
        chunk_in_world(row as int, col as int),
    ensures
        grid_view(&blocks) == chunk_model(*heights, row as int, col as int),
        is_chunk_grid(grid_view(&blocks)),
{
    let mut chunk_blocks: Vec<Vec<Vec<Block>>> = Vec::new();
    let mut x: usize = 0;
    while x < CHUNK_WIDTH
        invariant
            0 <= x <= CHUNK_WIDTH,
            chunk_in_world(row as int, col as int),
            chunk_blocks@.len() == x,
            forall|a: int| 0 <= a < x ==> (#[trigger] chunk_blocks@[a])@.len() == CHUNK_HEIGHT,
            forall|a: int, b: int|
                0 <= a < x && 0 <= b < CHUNK_HEIGHT ==> (#[trigger] chunk_blocks@[a]@[b])@.len()
                    == CHUNK_DEPTH,
            forall|a: int, b: int, d: int|
                0 <= a < x && 0 <= b < CHUNK_HEIGHT && 0 <= d < CHUNK_DEPTH ==> (
                #[trigger] chunk_blocks@[a]@[b]@[d])@ == column_kind(
                    heights.height(row + a, col + d),
                    b,
                ),
        decreases CHUNK_WIDTH - x,
    {
        // front back
        let mut vec1: Vec<Vec<Block>> = Vec::new();
        let mut z: usize = 0;
        while z < CHUNK_DEPTH
            invariant
                0 <= x < CHUNK_WIDTH,
                0 <= z <= CHUNK_DEPTH,
                chunk_in_world(row as int, col as int),
                vec1@.len() == z,
                forall|d: int| 0 <= d < z ==> (#[trigger] vec1@[d])@.len() == CHUNK_HEIGHT,
                forall|d: int, b: int|
                    0 <= d < z && 0 <= b < CHUNK_HEIGHT ==> (#[trigger] vec1@[d]@[b])@
                        == column_kind(heights.height(row + x, col + d), b),
            decreases CHUNK_DEPTH - z,
        {
            // left right
            let mut vec2: Vec<Block> = Vec::new();
            let surface_height = heights.height_at(x + row, z + col);
            let mut y: usize = 0;
            while y < CHUNK_HEIGHT
                invariant
                    0 <= y <= CHUNK_HEIGHT,
                    vec2@.len() == y,
                    forall|b: int|
                        0 <= b < y ==> (#[trigger] vec2@[b])@ == column_kind(
                            surface_height as int,
                            b,
                        ),
                decreases CHUNK_HEIGHT - y,
            {
                // up down
                let block_type = if y < surface_height {
                    BlockType::Grass
                } else {
                    BlockType::Air
                };

                vec2.push(Block::new(block_type));
                y += 1;
            }
            vec1.push(vec2);
            z += 1;
        }
        let ghost columns = rows_view(vec1@);
        let layers = flip_2d_vector(vec1);
        proof {
            let flipped = transposed(columns, CHUNK_HEIGHT as nat);
            assert(rows_view(layers@) == flipped);
            assert(layers@.len() == rows_view(layers@).len());
            assert forall|b: int| 0 <= b < CHUNK_HEIGHT implies (#[trigger] layers@[b])@.len()
                == CHUNK_DEPTH by {
                assert(rows_view(layers@)[b].len() == layers@[b]@.len());
                assert(flipped[b].len() == CHUNK_DEPTH);
            }
            assert forall|b: int, d: int|
                0 <= b < CHUNK_HEIGHT && 0 <= d < CHUNK_DEPTH implies (#[trigger] layers@[b]@[d])@
                == column_kind(heights.height(row + x, col + d), b) by {
                assert(rows_view(layers@)[b][d] == layers@[b]@[d]@);
                assert(flipped[b][d] == columns[d][b]);
            }
        }
        chunk_blocks.push(layers);
        x += 1;
    }
    assert(grid_view(&chunk_blocks) =~~= chunk_model(*heights, row as int, col as int));
    chunk_blocks
}

/// Determinism. The grid of a chunk is a function of the surface heights of
/// the chunk's own columns: heights that agree there give the same grid,
/// and the same heights give it every time.
pub proof fn lemma_chunk_determined(first: HeightField, second: HeightField, row: int, col: int)
    requires
        forall|gx: int, gz: int|
            row <= gx < row + CHUNK_WIDTH && col <= gz < col + CHUNK_DEPTH ==> #[trigger] first.height(
                gx,
                gz,
            ) == second.height(gx, gz),
    ensures
        chunk_model(first, row, col) == chunk_model(second, row, col),
{
    assert(chunk_model(first, row, col) =~~= chunk_model(second, row, col));
}

/// Two grids generated for the same offset from the same heights are
/// identical: they agree in the material, and so in the solidity, of every
/// block.
pub proof fn lemma_regenerated_identical(
    heights: HeightField,
    row: int,
    col: int,
    first: &Vec<Vec<Vec<Block>>>,
    second: &Vec<Vec<Vec<Block>>>,
)
    requires
        grid_view(first) == chunk_model(heights, row, col),
        grid_view(second) == chunk_model(heights, row, col),
    ensures
        grid_view(first) == grid_view(second),
        forall|x: int, y: int, z: int|
            in_chunk(x, y, z) ==> #[trigger] grid_view(first)[x][y][z] == grid_view(
                second,
            )[x][y][z] && solid(grid_view(first)[x][y][z]) == solid(grid_view(second)[x][y][z]),
{
}

/// A block depends only on its place in the world. Cells of two chunks that
/// stand for the same world column hold the same block at every height: the
/// one that the height of that column gives.
pub proof fn lemma_same_world_column(
    heights: HeightField,
    first: (int, int),
    at_first: (int, int),
    second: (int, int),
    at_second: (int, int),
    y: int,
)
    requires
        in_chunk(at_first.0, y, at_first.1),
        in_chunk(at_second.0, y, at_second.1),
        first.0 + at_first.0 == second.0 + at_second.0,
        first.1 + at_first.1 == second.1 + at_second.1,
    ensures
        chunk_model(heights, first.0, first.1)[at_first.0][y][at_first.1] == chunk_model(
            heights,
            second.0,
            second.1,
        )[at_second.0][y][at_second.1],
        chunk_model(heights, first.0, first.1)[at_first.0][y][at_first.1] == column_kind(
            heights.height(first.0 + at_first.0, first.1 + at_first.1),
            y,
        ),
{
}

} // verus!
