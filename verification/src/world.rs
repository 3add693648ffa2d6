//! The world: a square lattice of chunks, each with its grid and its mesh.
//!
//! Chunk `i` stands in lattice row `i / 16` and lattice column `i % 16`. Rows
//! run along x and columns along z, so its offset in the world is
//! `((i / 16) * 16, (i % 16) * 16)`. Its neighbours in the lattice are named
//! as by one who looks down the x axis: `front` is the chunk one row down (at
//! -x), `back` the chunk one row up (at +x), `left` the chunk one column up (at
//! +z) and `right` the chunk one column down (at -z).

use vstd::prelude::*;
use crate::atlas::{Face, MeshError};
use crate::block::{Block, BlockType};
use crate::grid::{grid_view, in_chunk, is_chunk_grid, is_chunk_shaped, Grid};
use crate::mesh::{
    all_supported, build_chunk, face_neighbor, lemma_slot_in_chunk, mesh_outcome, neighborhood,
    opt_grid_view, slot, slot_unsupported, Mesh, MeshModel, Neighborhood, CHUNK_SLOTS,
};
use crate::quad::face_normal;
use crate::terrain::{
    chunk_gen, chunk_in_world, chunk_model, column_kind, HeightField, WORLD_SIDE,
};

verus! {

/// Chunks of the world.
pub const WORLD_CHUNKS: usize = 256;

/// One chunk of the world: its grid and the mesh built from it.
#[derive(Debug)]
pub struct Chunk {
    blocks: Vec<Vec<Vec<Block>>>,
    mesh: Mesh,
}

impl Chunk {
    /// The model of the chunk's grid.
    pub closed spec fn grid(&self) -> Grid {
        grid_view(&self.blocks)
    }

    /// The model of the chunk's mesh.
    pub closed spec fn mesh_model(&self) -> MeshModel {
        self.mesh@
    }

    /// The chunk's grid.
    pub fn blocks(&self) -> (r: &Vec<Vec<Vec<Block>>>)
        ensures
            grid_view(r) == self.grid(),
    {
        &self.blocks
    }

    /// The chunk's mesh.
    pub fn mesh(&self) -> (r: &Mesh)
        ensures
            r@ == self.mesh_model(),
    {
        &self.mesh
    }
}

/// The offset along x, in blocks, of the chunk with index `i`.
pub open spec fn chunk_row(i: int) -> int {
    (i / 16) * 16
}

/// The offset along z, in blocks, of the chunk with index `i`.
pub open spec fn chunk_col(i: int) -> int {
    (i % 16) * 16
}

/// The index of the chunk in front of chunk `i`, one lattice row down.
pub open spec fn front_of(i: int) -> Option<int> {
    if i >= 16 {
        Some(i - 16)
    } else {
        None
    }
}

/// The index of the chunk behind chunk `i`, one lattice row up.
pub open spec fn back_of(i: int) -> Option<int> {
    if i + 16 < WORLD_CHUNKS {
        Some(i + 16)
    } else {
        None
    }
}

/// The index of the chunk to the left of chunk `i`, one lattice column up.
/// The last chunk of a row has none.
pub open spec fn left_of(i: int) -> Option<int> {
    if (i + 1) % 16 == 0 {
        None
    } else {
        Some(i + 1)
    }
}

/// The index of the chunk to the right of chunk `i`, one lattice column
/// down. The first chunk of a row has none.
pub open spec fn right_of(i: int) -> Option<int> {
    if i % 16 == 0 {
        None
    } else {
        Some(i - 1)
    }
}

/// The indices of the chunks that touch a chunk.
#[derive(Copy, Clone, Debug, PartialEq, Eq)]
pub struct Neighbors {
    pub front: Option<usize>,
    pub back: Option<usize>,
    pub left: Option<usize>,
    pub right: Option<usize>,
}

/// An index that may be absent, as a mathematical integer.
pub open spec fn opt_index(j: Option<usize>) -> Option<int> {
    match j {
        Some(j) => Some(j as int),
        None => None,
    }
}

/// The offset in the world of the chunk with index `i`.
pub fn chunk_offset(i: usize) -> (r: (usize, usize))
    ensures
        r.0 == chunk_row(i as int),
        r.1 == chunk_col(i as int),
        i < WORLD_CHUNKS ==> chunk_in_world(r.0 as int, r.1 as int),
{
    ((i / 16) * 16, (i % 16) * 16)
}

/// The indices of the chunks that touch chunk `i`.
pub fn neighbors(i: usize) -> (r: Neighbors)
    requires
        i < WORLD_CHUNKS,
    ensures
        opt_index(r.front) == front_of(i as int),
        opt_index(r.back) == back_of(i as int),
        opt_index(r.left) == left_of(i as int),
        opt_index(r.right) == right_of(i as int),
        r.front matches Some(j) ==> j < WORLD_CHUNKS,
        r.back matches Some(j) ==> j < WORLD_CHUNKS,
        r.left matches Some(j) ==> j < WORLD_CHUNKS,
        r.right matches Some(j) ==> j < WORLD_CHUNKS,
{
    Neighbors {
        front: if i >= 16 {
            Some(i - 16)
        } else {
            None
        },
        back: if i + 16 < WORLD_CHUNKS {
            Some(i + 16)
        } else {
            None
        },
        left: if (i + 1) % 16 == 0 {
            None
        } else {
            Some(i + 1)
        },
        right: if i % 16 == 0 {
            None
        } else {
            Some(i - 1)
        },
    }
}

/// The grid with index `j`, if there is such an index.
pub open spec fn opt_grid(grids: Seq<Grid>, j: Option<int>) -> Option<Grid> {
    match j {
        Some(j) => Some(grids[j]),
        None => None,
    }
}

/// What the mesh of chunk `i` is built from: its own grid and those of its
/// lattice neighbours. The chunk in front lies behind the left faces, the
/// one behind behind the right faces, the one to the left behind the front
/// faces and the one to the right behind the back faces.
pub open spec fn lattice_neighborhood(grids: Seq<Grid>, i: int) -> Neighborhood {
    Neighborhood {
        own: grids[i],
        left: opt_grid(grids, front_of(i)),
        right: opt_grid(grids, back_of(i)),
        front: opt_grid(grids, left_of(i)),
        back: opt_grid(grids, right_of(i)),
    }
}

/// The models of a run of grids.
pub open spec fn grids_view(grids: Seq<Vec<Vec<Vec<Block>>>>) -> Seq<Grid> {
    Seq::new(grids.len(), |i: int| grid_view(&grids[i]))
}

/// Every one of the grids has the extents of a chunk.
pub open spec fn all_chunk_grids(grids: Seq<Grid>) -> bool {
    forall|i: int| 0 <= i < grids.len() ==> is_chunk_grid(#[trigger] grids[i])
}

/// What meshing chunk `i` of a lattice of grids comes to.
pub open spec fn lattice_outcome(grids: Seq<Grid>, i: int) -> Result<MeshModel, MeshError> {
    mesh_outcome(lattice_neighborhood(grids, i), chunk_row(i), chunk_col(i))
}

/// Why a world could not be put together.
#[derive(Copy, Clone, Debug, PartialEq, Eq)]
pub enum WorldError {
    /// This many grids were given, which is not the number of chunks of the world.
    ChunkCount(usize),
    /// The grid with this index does not have the extents of a chunk.
    ChunkShape(usize),
    /// The chunk with this index could not be meshed.
    Mesh(usize, MeshError),
}

/// The world: `WORLD_CHUNKS` chunks, each meshed against its neighbours.
#[derive(Debug)]
pub struct WorldGrid {
    chunks: Vec<Chunk>,
}

/// The grids of a run of chunks.
spec fn chunk_grids(chunks: Seq<Chunk>) -> Seq<Grid> {
    Seq::new(chunks.len(), |i: int| chunks[i].grid())
}

impl WorldGrid {
    #[verifier::type_invariant]
    spec fn stitched(self) -> bool {
        &&& self.chunks@.len() == WORLD_CHUNKS
        &&& all_chunk_grids(chunk_grids(self.chunks@))
        &&& forall|i: int|
            0 <= i < WORLD_CHUNKS ==> #[trigger] lattice_outcome(chunk_grids(self.chunks@), i)
                == Ok::<MeshModel, MeshError>(self.chunks@[i].mesh_model())
    }

    /// The grids of the world's chunks, by chunk index.
    pub closed spec fn grids(&self) -> Seq<Grid> {
        chunk_grids(self.chunks@)
    }

    /// Chunk `i` of the world. Its grid has the extents of a chunk, and its
    /// mesh is the one built from that grid and the grids of its neighbours.
    pub fn chunk(&self, i: usize) -> (r: &Chunk)
        requires
            i < WORLD_CHUNKS,
        ensures
            self.grids().len() == WORLD_CHUNKS,
            r.grid() == self.grids()[i as int],
            is_chunk_grid(r.grid()),
            lattice_outcome(self.grids(), i as int) == Ok::<MeshModel, MeshError>(r.mesh_model()),
    {
        proof {
            use_type_invariant(self);
            assert(is_chunk_grid(chunk_grids(self.chunks@)[i as int]));
        }
        &self.chunks[i]
    }

    /// Puts a world together from the grids of its chunks, by chunk index:
    /// meshes every chunk against its lattice neighbours.
    ///
    /// Fails if there are not `WORLD_CHUNKS` grids; else with the first grid
    /// that does not have the extents of a chunk; else with the first chunk
    /// that cannot be meshed.
    pub fn assemble(grids: Vec<Vec<Vec<Vec<Block>>>>) -> (r: Result<WorldGrid, WorldError>)
        ensures
            match r {
                Ok(world) => {
                    &&& grids@.len() == WORLD_CHUNKS
                    &&& all_chunk_grids(grids_view(grids@))
                    &&& forall|i: int|
                        0 <= i < WORLD_CHUNKS ==> #[trigger] lattice_outcome(grids_view(grids@), i)
                            is Ok
                    &&& world.grids() == grids_view(grids@)
                },
                Err(WorldError::ChunkCount(n)) => n == grids@.len() && n != WORLD_CHUNKS,
                Err(WorldError::ChunkShape(i)) => {
                    &&& grids@.len() == WORLD_CHUNKS
                    &&& i < WORLD_CHUNKS
                    &&& !is_chunk_grid(grids_view(grids@)[i as int])
                    &&& forall|j: int| 0 <= j < i ==> is_chunk_grid(#[trigger] grids_view(grids@)[j])
                },
                Err(WorldError::Mesh(i, e)) => {
                    &&& grids@.len() == WORLD_CHUNKS
                    &&& all_chunk_grids(grids_view(grids@))
                    &&& i < WORLD_CHUNKS
                    &&& lattice_outcome(grids_view(grids@), i as int) == Err::<MeshModel, MeshError>(e)
                    &&& forall|j: int|
                        0 <= j < i ==> #[trigger] lattice_outcome(grids_view(grids@), j) is Ok
                },
            },
    {
        let mut chunk_blocks_vec = grids;
        let ghost given = chunk_blocks_vec@;
        let ghost models = grids_view(given);
        if chunk_blocks_vec.len() != WORLD_CHUNKS {
            return Err(WorldError::ChunkCount(chunk_blocks_vec.len()));
        }
        let mut i: usize = 0;
        while i < WORLD_CHUNKS
            invariant
                0 <= i <= WORLD_CHUNKS,
                chunk_blocks_vec@ == given,
                grids@ == given,
                given.len() == WORLD_CHUNKS,
                models == grids_view(given),
                forall|j: int| 0 <= j < i ==> is_chunk_grid(#[trigger] models[j]),
            decreases WORLD_CHUNKS - i,
        {
            if !is_chunk_shaped(&chunk_blocks_vec[i]) {
                assert(models[i as int] == grid_view(&given[i as int]));
                return Err(WorldError::ChunkShape(i));
            }
            i += 1;
        }
        // gen meshes
        let mut chunk_mesh_vec: Vec<Mesh> = Vec::new();
        let mut i: usize = 0;
        while i < WORLD_CHUNKS
            invariant
                0 <= i <= WORLD_CHUNKS,
                chunk_blocks_vec@ == given,
                grids@ == given,
                given.len() == WORLD_CHUNKS,
                models == grids_view(given),
                all_chunk_grids(models),
                chunk_mesh_vec@.len() == i,
                forall|j: int|
                    0 <= j < i ==> #[trigger] lattice_outcome(models, j) == Ok::<
                        MeshModel,
                        MeshError,
                    >(chunk_mesh_vec@[j]@),
            decreases WORLD_CHUNKS - i,
        {
            let mesh = match mesh_chunk(&chunk_blocks_vec, i) {
                Ok(mesh) => mesh,
                Err(e) => {
                    return Err(WorldError::Mesh(i, e));
                },
            };
            chunk_mesh_vec.push(mesh);
            i += 1;
        }
        let ghost meshes = chunk_mesh_vec@;
        let mut chunks: Vec<Chunk> = Vec::new();
        let mut k: usize = 0;
        while k < WORLD_CHUNKS
            invariant
                0 <= k <= WORLD_CHUNKS,
                given.len() == WORLD_CHUNKS,
                meshes.len() == WORLD_CHUNKS,
                chunk_blocks_vec@ == given.subrange(k as int, WORLD_CHUNKS as int),
                chunk_mesh_vec@ == meshes.subrange(k as int, WORLD_CHUNKS as int),
                chunks@.len() == k,
                forall|j: int|
                    0 <= j < k ==> (#[trigger] chunks@[j]).blocks == given[j] && chunks@[j].mesh
                        == meshes[j],
            decreases WORLD_CHUNKS - k,
        {
            // always takes out the first element
            let blocks = chunk_blocks_vec.remove(0);
            let mesh = chunk_mesh_vec.remove(0);
            chunks.push(Chunk { blocks, mesh });
            k += 1;
        }
        proof {
            assert(chunk_grids(chunks@) =~= models);
        }
        Ok(WorldGrid { chunks })
    }
}

/// Meshes chunk `i` of a lattice of grids against its neighbours.
fn mesh_chunk(grids: &Vec<Vec<Vec<Vec<Block>>>>, i: usize) -> (r: Result<Mesh, MeshError>)
    requires
        grids@.len() == WORLD_CHUNKS,
        all_chunk_grids(grids_view(grids@)),
        i < WORLD_CHUNKS,
    ensures
        match r {
            Ok(mesh) => lattice_outcome(grids_view(grids@), i as int) == Ok::<MeshModel, MeshError>(
                mesh@,
            ),
            Err(e) => lattice_outcome(grids_view(grids@), i as int) == Err::<MeshModel, MeshError>(
                e,
            ),
        },
{
    let (row, col) = chunk_offset(i);
    let around = neighbors(i);
    let blocks = &grids[i];
    let left_chunk = grid_at(grids, around.front);
    let right_chunk = grid_at(grids, around.back);
    let front_chunk = grid_at(grids, around.left);
    let back_chunk = grid_at(grids, around.right);
    proof {
        let models = grids_view(grids@);
        let c = neighborhood(blocks, left_chunk, right_chunk, front_chunk, back_chunk);
        assert(c == lattice_neighborhood(models, i as int));
        assert(is_chunk_grid(models[i as int]));
        if let Some(j) = around.front {
            assert(is_chunk_grid(models[j as int]));
        }
        if let Some(j) = around.back {
            assert(is_chunk_grid(models[j as int]));
        }
        if let Some(j) = around.left {
            assert(is_chunk_grid(models[j as int]));
        }
        if let Some(j) = around.right {
            assert(is_chunk_grid(models[j as int]));
        }
        assert(c.wf());
    }
    build_chunk(blocks, row as i32, col as i32, left_chunk, right_chunk, front_chunk, back_chunk)
}

/// The grid with index `j` of `grids`, if there is such an index.
fn grid_at(grids: &Vec<Vec<Vec<Vec<Block>>>>, j: Option<usize>) -> (r: Option<
    &Vec<Vec<Vec<Block>>>,
>)
    requires
        j matches Some(j) ==> j < grids@.len(),
    ensures
        opt_grid_view(r) == opt_grid(grids_view(grids@), opt_index(j)),
{
    match j {
        Some(j) => Some(&grids[j]),
        None => None,
    }
}

/// The material of the world at `(gx, y, gz)`.
pub open spec fn world_kind(heights: HeightField, gx: int, y: int, gz: int) -> BlockType {
    column_kind(heights.height(gx, gz), y)
}

/// `(gx, y, gz)` addresses a cell of the world.
pub open spec fn in_world(gx: int, y: int, gz: int) -> bool {
    0 <= gx < WORLD_SIDE && 0 <= y < 30 && 0 <= gz < WORLD_SIDE
}

/// The grids of the world's chunks, each cut from `heights` at its own offset.
pub open spec fn terrain_grids(heights: HeightField) -> Seq<Grid> {
    Seq::new(WORLD_CHUNKS as nat, |i: int| chunk_model(heights, chunk_row(i), chunk_col(i)))
}

/// Generates the world from its surface heights: the grid of every chunk,
/// then the mesh of every chunk against the grids of its neighbours.
pub fn create_terrain(heights: &HeightField) -> (world: WorldGrid)
    ensures
        world.grids() == terrain_grids(*heights),
{
    let mut chunk_blocks_vec: Vec<Vec<Vec<Vec<Block>>>> = Vec::new();
    // gen chunks
    let mut i: usize = 0;
    while i < WORLD_CHUNKS
        invariant
            0 <= i <= WORLD_CHUNKS,
            chunk_blocks_vec@.len() == i,
            forall|j: int|
                0 <= j < i ==> grid_view(#[trigger] &chunk_blocks_vec@[j]) == chunk_model(
                    *heights,
                    chunk_row(j),
                    chunk_col(j),
                ),
        decreases WORLD_CHUNKS - i,
    {
        let (row, col) = chunk_offset(i);
        chunk_blocks_vec.push(chunk_gen(heights, row, col));
        i += 1;
    }
    proof {
        assert(grids_view(chunk_blocks_vec@) =~= terrain_grids(*heights));
        assert forall|j: int| 0 <= j < WORLD_CHUNKS implies is_chunk_grid(
            #[trigger] terrain_grids(*heights)[j],
        ) && lattice_outcome(terrain_grids(*heights), j) is Ok by {
            lemma_terrain_meshes(*heights, j);
        }
    }
    match WorldGrid::assemble(chunk_blocks_vec) {
        Ok(world) => world,
        Err(_) => vstd::pervasive::unreached(),
    }
}

/// Terrain is grass and air, so every chunk of it can be meshed.
pub proof fn lemma_terrain_meshes(heights: HeightField, i: int)
    requires
        0 <= i < WORLD_CHUNKS,
    ensures
        is_chunk_grid(terrain_grids(heights)[i]),
        all_supported(lattice_neighborhood(terrain_grids(heights), i), CHUNK_SLOTS as int),
        lattice_outcome(terrain_grids(heights), i) is Ok,
{
    let c = lattice_neighborhood(terrain_grids(heights), i);
    assert forall|s: int| 0 <= s < CHUNK_SLOTS implies !slot_unsupported(c, s) by {
        lemma_slot_in_chunk(s);
        let at = slot(s);
        assert(c.own[at.x][at.y][at.z] == column_kind(
            heights.height(chunk_row(i) + at.x, chunk_col(i) + at.z),
            at.y,
        ));
    }
}

/// How the offsets of a chunk and of its lattice neighbours lie to each
/// other, and which chunks lie on which edge of the world.
pub proof fn lemma_lattice_offsets(i: int)
    requires
        0 <= i < WORLD_CHUNKS,
    ensures
        0 <= chunk_row(i) <= 240 && 0 <= chunk_col(i) <= 240,
        front_of(i) matches Some(j) ==> 0 <= j < WORLD_CHUNKS && chunk_row(j) == chunk_row(i) - 16
            && chunk_col(j) == chunk_col(i),
        back_of(i) matches Some(j) ==> 0 <= j < WORLD_CHUNKS && chunk_row(j) == chunk_row(i) + 16
            && chunk_col(j) == chunk_col(i),
        left_of(i) matches Some(j) ==> 0 <= j < WORLD_CHUNKS && chunk_row(j) == chunk_row(i)
            && chunk_col(j) == chunk_col(i) + 16,
        right_of(i) matches Some(j) ==> 0 <= j < WORLD_CHUNKS && chunk_row(j) == chunk_row(i)
            && chunk_col(j) == chunk_col(i) - 16,
        front_of(i) is None <==> chunk_row(i) == 0,
        back_of(i) is None <==> chunk_row(i) == 240,
        left_of(i) is None <==> chunk_col(i) == 240,
        right_of(i) is None <==> chunk_col(i) == 0,
{
}

/// A cell of a chunk cut from the heights is the block of the world at the
/// chunk's offset plus the cell's place.
pub proof fn lemma_chunk_model_cell(
    heights: HeightField,
    row: int,
    col: int,
    x: int,
    y: int,
    z: int,
)
    requires
        in_chunk(x, y, z),
    ensures
        chunk_model(heights, row, col)[x][y][z] == world_kind(heights, row + x, y, col + z),
{
}

/// Seam consistency. Whatever block the mesh builder finds behind a face of
/// chunk `i` of generated terrain, inside the chunk or in the grid of a
/// neighbour across an edge, is the block of the world at that place: the one
/// that the heights give at the chunk's offset plus the place in the chunk.
/// It finds none exactly where that place lies outside the world.
pub proof fn lemma_seam_consistency(
    heights: HeightField,
    i: int,
    x: int,
    y: int,
    z: int,
    face: Face,
)
    requires
        0 <= i < WORLD_CHUNKS,
        in_chunk(x, y, z),
    ensures
        ({
            let gx = chunk_row(i) + x + face_normal(face).0;
            let gy = y + face_normal(face).1;
            let gz = chunk_col(i) + z + face_normal(face).2;
            face_neighbor(lattice_neighborhood(terrain_grids(heights), i), x, y, z, face) == if in_world(
                gx,
                gy,
                gz,
            ) {
                Some(world_kind(heights, gx, gy, gz))
            } else {
                None
            }
        }),
{
    let grids = terrain_grids(heights);
    let c = lattice_neighborhood(grids, i);
    let row = chunk_row(i);
    let col = chunk_col(i);
    lemma_lattice_offsets(i);
    assert(c.own == chunk_model(heights, row, col));
    match face {
        Face::Top => {
            if y + 1 < 30 {
                lemma_chunk_model_cell(heights, row, col, x, y + 1, z);
            }
        },
        Face::Bottom => {
            if y > 0 {
                lemma_chunk_model_cell(heights, row, col, x, y - 1, z);
            }
        },
        Face::Left => {
            if x > 0 {
                lemma_chunk_model_cell(heights, row, col, x - 1, y, z);
            } else if let Some(j) = front_of(i) {
                assert(c.left == Some(chunk_model(heights, row - 16, col)));
                lemma_chunk_model_cell(heights, row - 16, col, 15, y, z);
            }
        },
        Face::Right => {
            if x + 1 < 16 {
                lemma_chunk_model_cell(heights, row, col, x + 1, y, z);
            } else if let Some(j) = back_of(i) {
                assert(c.right == Some(chunk_model(heights, row + 16, col)));
                lemma_chunk_model_cell(heights, row + 16, col, 0, y, z);
            }
        },
        Face::Front => {
            if z + 1 < 16 {
                lemma_chunk_model_cell(heights, row, col, x, y, z + 1);
            } else if let Some(j) = left_of(i) {
                assert(c.front == Some(chunk_model(heights, row, col + 16)));
                lemma_chunk_model_cell(heights, row, col + 16, x, y, 0);
            }
        },
        Face::Back => {
            if z > 0 {
                lemma_chunk_model_cell(heights, row, col, x, y, z - 1);
            } else if let Some(j) = right_of(i) {
                assert(c.back == Some(chunk_model(heights, row, col - 16)));
                lemma_chunk_model_cell(heights, row, col - 16, x, y, 15);
            }
        },
    }
}

} // verus!
