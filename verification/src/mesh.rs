//! Chunk meshing: the visible faces of a block grid as quads of vertices and
//! the indices that join them into triangles.

use vstd::prelude::*;
use crate::atlas::{face_sprite, Face, MeshError};
use crate::block::{Block, BlockType};
use crate::grid::{
    block_at, grid_view, in_chunk, is_chunk_grid, Grid, CHUNK_DEPTH, CHUNK_HEIGHT, CHUNK_WIDTH,
};
use crate::quad::{
    centre_fits, face_quad, get_mesh_texture_and_pos, vertices_view, Vertex, VertexModel,
};

verus! {

/// A run of indices as mathematical integers.
pub open spec fn indices_view(s: Seq<u32>) -> Seq<int> {
    s.map_values(|i: u32| i as int)
}

/// The six indices that draw the quad whose first vertex has index `base`:
/// two triangles, wound alike.
pub open spec fn quad_indices(base: int) -> Seq<int> {
    seq![base + 3, base + 2, base, base + 1, base + 2, base + 3]
}

/// The material of a block that may be absent.
pub open spec fn opt_kind(b: Option<&Block>) -> Option<BlockType> {
    match b {
        Some(b) => Some(b@),
        None => None,
    }
}

/// The neighbour that decides a face: the one inside the chunk where there
/// is one, else the one across the chunk's edge.
pub open spec fn resolved_neighbor(inside: Option<BlockType>, across: Option<BlockType>) -> Option<
    BlockType,
> {
    match inside {
        Some(t) => Some(t),
        None => across,
    }
}

/// The vertices that one face adds to a mesh: its quad, if the neighbour
/// that decides it is air and the atlas has a sprite for it, else none.
pub open spec fn emitted_vertices(
    neighbor: Option<BlockType>,
    t: BlockType,
    face: Face,
    grass_above: bool,
    centre: (int, int, int),
) -> Seq<VertexModel> {
    match face_sprite(t, face, grass_above) {
        Some(sprite) => if neighbor == Some(BlockType::Air) {
            face_quad(face, sprite, centre)
        } else {
            Seq::empty()
        },
        None => Seq::empty(),
    }
}

/// The indices that one face adds to a mesh whose next vertex gets index
/// `base`: those of its quad, if it adds one, else none.
pub open spec fn emitted_indices(
    neighbor: Option<BlockType>,
    t: BlockType,
    face: Face,
    grass_above: bool,
    base: int,
) -> Seq<int> {
    if neighbor == Some(BlockType::Air) && face_sprite(t, face, grass_above) is Some {
        quad_indices(base)
    } else {
        Seq::empty()
    }
}

/// Emits `face` of `block` into `vertices` and `indices` if the neighbour
/// behind the face is air.
///
/// `neighbor_block_option` is the neighbour inside the chunk,
/// `neighbor_chunk_block_option` the one across the chunk's edge; the second
/// counts only where the first is absent. With no neighbour at all the face is
/// left out. `base_index` is the index that the face's first vertex gets.
///
/// Fails, and leaves both lists as they were, exactly when the face is to be
/// emitted and the atlas has no sprite for the block's material.
pub fn get_block_face(
    base_index: u32,
    face: Face,
    neighbor_block_option: Option<&Block>,
    block: &Block,
    pos: (i64, i64, i64),
    vertices: &mut Vec<Vertex>,
    indices: &mut Vec<u32>,
    grass_above: bool,
    neighbor_chunk_block_option: Option<&Block>,
) -> (r: Result<(), MeshError>)
    requires
        base_index <= u32::MAX - 3,
        centre_fits(pos),
    ensures
        ({
            let neighbor = resolved_neighbor(
                opt_kind(neighbor_block_option),
                opt_kind(neighbor_chunk_block_option),
            );
            let centre = (pos.0 as int, pos.1 as int, pos.2 as int);
            if neighbor == Some(BlockType::Air) {
                match face_sprite(block@, face, grass_above) {
                    Some(sprite) => {
                        &&& r is Ok
                        &&& vertices_view(final(vertices)@) == vertices_view(old(vertices)@)
                            + face_quad(face, sprite, centre)
                        &&& indices_view(final(indices)@) == indices_view(old(indices)@)
                            + quad_indices(base_index as int)
                    },
                    None => {
                        &&& r == Err::<(), MeshError>(MeshError::UnsupportedBlock(block@))
                        &&& final(vertices)@ == old(vertices)@
                        &&& final(indices)@ == old(indices)@
                    },
                }
            } else {
                &&& r is Ok
                &&& final(vertices)@ == old(vertices)@
                &&& final(indices)@ == old(indices)@
            }
        }),
        r is Ok ==> vertices_view(final(vertices)@) == vertices_view(old(vertices)@)
            + emitted_vertices(
            resolved_neighbor(opt_kind(neighbor_block_option), opt_kind(neighbor_chunk_block_option)),
            block@,
            face,
            grass_above,
            (pos.0 as int, pos.1 as int, pos.2 as int),
        ),
        r is Ok ==> indices_view(final(indices)@) == indices_view(old(indices)@) + emitted_indices(
            resolved_neighbor(opt_kind(neighbor_block_option), opt_kind(neighbor_chunk_block_option)),
            block@,
            face,
            grass_above,
            base_index as int,
        ),
{
    assert(vertices_view(vertices@) + Seq::<VertexModel>::empty() =~= vertices_view(vertices@));
    assert(indices_view(indices@) + Seq::<int>::empty() =~= indices_view(indices@));
    let neighbor = match neighbor_block_option {
        Some(neighbor_block) => Some(neighbor_block),
        None => neighbor_chunk_block_option,
    };
    let render = match neighbor {
        Some(neighbor_block) => match neighbor_block.block_type() {
            BlockType::Air => true,
            // any other neighbour hides the face
            _ => false,
        },
        None => false,
    };
    if render {
        let block_type = block.block_type();
        let mut quad = match get_mesh_texture_and_pos(face, &block_type, pos, grass_above) {
            Ok(quad) => quad,
            Err(e) => {
                return Err(e);
            },
        };
        let ghost before_vertices = vertices@;
        let ghost before_indices = indices@;
        let ghost added = quad@;
        vertices.append(&mut quad);
        indices.push(base_index + 3);
        indices.push(base_index + 2);
        indices.push(base_index);
        indices.push(base_index + 1);
        indices.push(base_index + 2);
        indices.push(base_index + 3);
        assert(vertices_view(vertices@) =~= vertices_view(before_vertices) + vertices_view(added));
        assert(indices_view(indices@) =~= indices_view(before_indices) + quad_indices(
            base_index as int,
        ));
    }
    Ok(())
}

/// Face culling at one face. A face of a block that has a sprite adds its
/// quad and the six indices of that quad exactly when the block behind it is
/// air: the neighbour inside the chunk where there is one, else the one
/// across the chunk's edge. Otherwise, and where there is no neighbour at
/// all, it adds nothing.
pub proof fn lemma_face_culled_by_neighbor(
    inside: Option<BlockType>,
    across: Option<BlockType>,
    t: BlockType,
    face: Face,
    grass_above: bool,
    centre: (int, int, int),
    base: int,
)
    requires
        face_sprite(t, face, grass_above) is Some,
    ensures
        ({
            let emit = match inside {
                Some(n) => n == BlockType::Air,
                None => across == Some(BlockType::Air),
            };
            let neighbor = resolved_neighbor(inside, across);
            let quad = face_quad(face, face_sprite(t, face, grass_above).unwrap(), centre);
            &&& emit ==> emitted_vertices(neighbor, t, face, grass_above, centre) == quad
                && emitted_indices(neighbor, t, face, grass_above, base) == seq![
                base + 3,
                base + 2,
                base,
                base + 1,
                base + 2,
                base + 3,
            ]
            &&& !emit ==> emitted_vertices(neighbor, t, face, grass_above, centre).len() == 0
                && emitted_indices(neighbor, t, face, grass_above, base).len() == 0
        }),
{
}

/// A face keeps a mesh sound. If a mesh has three indices to two vertices
/// and every index points at a vertex, it still has and they still do after a
/// face has added what it adds at the end of the vertices. What was there
/// stays in place; the lists grow by four vertices and six indices or not at
/// all; and every new index points at one of the four new vertices.
pub proof fn lemma_face_keeps_mesh_sound(
    vertices: Seq<VertexModel>,
    indices: Seq<int>,
    neighbor: Option<BlockType>,
    t: BlockType,
    face: Face,
    grass_above: bool,
    centre: (int, int, int),
)
    requires
        2 * indices.len() == 3 * vertices.len(),
        forall|k: int| 0 <= k < indices.len() ==> 0 <= #[trigger] indices[k] < vertices.len(),
    ensures
        ({
            let base = vertices.len() as int;
            let more_vertices = vertices + emitted_vertices(neighbor, t, face, grass_above, centre);
            let more_indices = indices + emitted_indices(neighbor, t, face, grass_above, base);
            &&& more_vertices.subrange(0, vertices.len() as int) == vertices
            &&& more_indices.subrange(0, indices.len() as int) == indices
            &&& 2 * more_indices.len() == 3 * more_vertices.len()
            &&& (more_vertices.len() == vertices.len() && more_indices.len() == indices.len())
                || (more_vertices.len() == vertices.len() + 4 && more_indices.len()
                == indices.len() + 6)
            &&& forall|k: int|
                indices.len() <= k < more_indices.len() ==> base <= #[trigger] more_indices[k]
                    <= base + 3
            &&& forall|k: int|
                0 <= k < more_indices.len() ==> 0 <= #[trigger] more_indices[k]
                    < more_vertices.len()
        }),
{
    let base = vertices.len() as int;
    let more_vertices = vertices + emitted_vertices(neighbor, t, face, grass_above, centre);
    let more_indices = indices + emitted_indices(neighbor, t, face, grass_above, base);
    assert(more_vertices.subrange(0, vertices.len() as int) =~= vertices);
    assert(more_indices.subrange(0, indices.len() as int) =~= indices);
    assert forall|k: int| indices.len() <= k < more_indices.len() implies base
        <= #[trigger] more_indices[k] <= base + 3 by {
        assert(more_indices[k] == quad_indices(base)[k - indices.len()]);
    }
}

/// The geometry of one chunk: vertices, the indices that join them into
/// triangles, and the number of those indices.
#[derive(Debug, PartialEq, Eq)]
pub struct Mesh {
    vertices: Vec<Vertex>,
    indices: Vec<u32>,
    num_elements: u32,
}

/// The model of a mesh.
pub struct MeshModel {
    pub vertices: Seq<VertexModel>,
    pub indices: Seq<int>,
}

impl View for Mesh {
    type V = MeshModel;

    closed spec fn view(&self) -> MeshModel {
        MeshModel { vertices: vertices_view(self.vertices@), indices: indices_view(self.indices@) }
    }
}

impl Mesh {
    #[verifier::type_invariant]
    spec fn counted(self) -> bool {
        self.num_elements == self.indices@.len()
    }

    /// The vertices.
    pub fn vertices(&self) -> (r: &Vec<Vertex>)
        ensures
            vertices_view(r@) == self@.vertices,
    {
        &self.vertices
    }

    /// The indices, three to a triangle.
    pub fn indices(&self) -> (r: &Vec<u32>)
        ensures
            indices_view(r@) == self@.indices,
    {
        &self.indices
    }

    /// How many indices there are.
    pub fn num_elements(&self) -> (n: u32)
        ensures
            n == self@.indices.len(),
    {
        proof {
            use_type_invariant(self);
        }
        self.num_elements
    }
}

/// Byte number `k` of `v`, counted from the lowest.
pub open spec fn byte_of(v: int, k: int) -> int {
    if k == 0 {
        v % 0x100
    } else if k == 1 {
        (v / 0x100) % 0x100
    } else if k == 2 {
        (v / 0x1_0000) % 0x100
    } else {
        (v / 0x100_0000) % 0x100
    }
}

/// `bytes` holds `indices` as they lie in memory: four bytes to the index,
/// and in every index the lowest byte first, or in every index the highest.
pub open spec fn encoded(bytes: Seq<u8>, indices: Seq<int>, low_first: bool) -> bool {
    &&& bytes.len() == 4 * indices.len()
    &&& forall|i: int, k: int|
        #![trigger indices[i], byte_of(indices[i], k)]
        0 <= i < indices.len() && 0 <= k < 4 ==> bytes[4 * i + if low_first {
            k
        } else {
            3 - k
        }] == byte_of(indices[i], k)
}

/// The bytes of `indices`, by `bytemuck::cast_slice` from `u32` to `u8`.
///
/// That call views the memory of the indices as bytes, which cannot fail for
/// a target of one byte; the bytes are copied out. Taken on trust: there are
/// four bytes to the index, and they are the index's own, in the order in
/// which the machine keeps them, which is the same for every index.
#[verifier::external_body]
fn cast_indices(indices: &Vec<u32>) -> (bytes: Vec<u8>)
    ensures
        encoded(bytes@, indices_view(indices@), true) || encoded(
            bytes@,
            indices_view(indices@),
            false,
        ),
{
    bytemuck::cast_slice::<u32, u8>(indices.as_slice()).to_vec()
}

impl Mesh {
    /// The indices as the bytes of an index buffer.
    pub fn index_bytes(&self) -> (bytes: Vec<u8>)
        ensures
            encoded(bytes@, self@.indices, true) || encoded(bytes@, self@.indices, false),
    {
        cast_indices(&self.indices)
    }
}

/// Packs vertices and indices into a mesh.
pub fn build_mesh(vertices: Vec<Vertex>, indices: Vec<u32>) -> (mesh: Mesh)
    requires
        indices@.len() <= u32::MAX,
    ensures
        mesh@.vertices == vertices_view(vertices@),
        mesh@.indices == indices_view(indices@),
{
    let num_elements = indices.len() as u32;
    Mesh { vertices, indices, num_elements }
}

/// What the mesh of a chunk is built from: the chunk's own grid and the
/// grids of the chunks that touch it, each named by the face of this chunk
/// behind which it lies (`left` at -x, `right` at +x, `back` at -z, `front`
/// at +z). A chunk at the edge of the world lacks some of them.
pub struct Neighborhood {
    pub own: Grid,
    pub left: Option<Grid>,
    pub right: Option<Grid>,
    pub front: Option<Grid>,
    pub back: Option<Grid>,
}

impl Neighborhood {
    /// Every grid present has the extents of a chunk.
    pub open spec fn wf(self) -> bool {
        &&& is_chunk_grid(self.own)
        &&& self.left matches Some(g) ==> is_chunk_grid(g)
        &&& self.right matches Some(g) ==> is_chunk_grid(g)
        &&& self.front matches Some(g) ==> is_chunk_grid(g)
        &&& self.back matches Some(g) ==> is_chunk_grid(g)
    }
}

/// The model of a grid that may be absent.
pub open spec fn opt_grid_view(blocks: Option<&Vec<Vec<Vec<Block>>>>) -> Option<Grid> {
    match blocks {
        Some(b) => Some(grid_view(b)),
        None => None,
    }
}

/// The block behind `face` of the cell at `(x, y, z)`: the next cell of the
/// chunk, or, past a lateral edge, the cell of the touching chunk that lies
/// against it. There is none above the top layer, below the bottom layer, and
/// past an edge where no chunk touches.
pub open spec fn face_neighbor(c: Neighborhood, x: int, y: int, z: int, face: Face) -> Option<
    BlockType,
> {
    match face {
        Face::Top => if y + 1 < CHUNK_HEIGHT {
            Some(c.own[x][y + 1][z])
        } else {
            None
        },
        Face::Bottom => if y > 0 {
            Some(c.own[x][y - 1][z])
        } else {
            None
        },
        Face::Left => if x > 0 {
            Some(c.own[x - 1][y][z])
        } else {
            match c.left {
                Some(g) => Some(g[CHUNK_WIDTH - 1][y][z]),
                None => None,
            }
        },
        Face::Right => if x + 1 < CHUNK_WIDTH {
            Some(c.own[x + 1][y][z])
        } else {
            match c.right {
                Some(g) => Some(g[0][y][z]),
                None => None,
            }
        },
        Face::Front => if z + 1 < CHUNK_DEPTH {
            Some(c.own[x][y][z + 1])
        } else {
            match c.front {
                Some(g) => Some(g[x][y][0]),
                None => None,
            }
        },
        Face::Back => if z > 0 {
            Some(c.own[x][y][z - 1])
        } else {
            match c.back {
                Some(g) => Some(g[x][y][CHUNK_DEPTH - 1]),
                None => None,
            }
        },
    }
}

/// The cell above `(x, y, z)` lies in the chunk and is grass.
pub open spec fn grass_above(own: Grid, x: int, y: int, z: int) -> bool {
    y + 1 < CHUNK_HEIGHT && own[x][y + 1][z] == BlockType::Grass
}

/// The face is drawn: its block is not air, and the block behind it is.
pub open spec fn face_shown(c: Neighborhood, x: int, y: int, z: int, face: Face) -> bool {
    c.own[x][y][z] != BlockType::Air && face_neighbor(c, x, y, z, face) == Some(BlockType::Air)
}

/// Faces of one block.
pub const FACES_PER_BLOCK: usize = 6;

/// Faces of all the blocks of a chunk.
pub const CHUNK_SLOTS: usize = 46080;

/// A face of a cell of a chunk.
pub struct Slot {
    pub x: int,
    pub y: int,
    pub z: int,
    pub face: Face,
}

/// The order in which the faces of one block are visited.
pub open spec fn scan_face(i: int) -> Face {
    if i == 0 {
        Face::Top
    } else if i == 1 {
        Face::Bottom
    } else if i == 2 {
        Face::Left
    } else if i == 3 {
        Face::Right
    } else if i == 4 {
        Face::Front
    } else {
        Face::Back
    }
}

/// The `s`-th face visited when a chunk is meshed: cells go by x, then y,
/// then z, and each cell's faces go in the order of `scan_face`.
pub open spec fn slot(s: int) -> Slot {
    let cell = s / 6;
    Slot { x: cell / 480, y: (cell / 16) % 30, z: cell % 16, face: scan_face(s % 6) }
}

/// The place in the visiting order of face number `i` of the cell at `(x, y, z)`.
pub open spec fn slot_of(x: int, y: int, z: int, i: int) -> int {
    2880 * x + 96 * y + 6 * z + i
}

/// The `s`-th face visited is drawn.
pub open spec fn slot_shown(c: Neighborhood, s: int) -> bool {
    face_shown(c, slot(s).x, slot(s).y, slot(s).z, slot(s).face)
}

/// The sprite of the `s`-th face visited, if the atlas has one.
pub open spec fn slot_sprite(c: Neighborhood, s: int) -> Option<int> {
    face_sprite(
        c.own[slot(s).x][slot(s).y][slot(s).z],
        slot(s).face,
        grass_above(c.own, slot(s).x, slot(s).y, slot(s).z),
    )
}

/// The `s`-th face visited is to be drawn and cannot be: the atlas has no
/// sprite for its material.
pub open spec fn slot_unsupported(c: Neighborhood, s: int) -> bool {
    slot_shown(c, s) && slot_sprite(c, s) is None
}

/// The quad that the `s`-th face visited adds to the mesh of the chunk that
/// stands at `(x_offset, z_offset)` in the world: four vertices if it is drawn,
/// none if it is not.
pub open spec fn slot_quad(c: Neighborhood, x_offset: int, z_offset: int, s: int) -> Seq<
    VertexModel,
> {
    match slot_sprite(c, s) {
        Some(sprite) => if slot_shown(c, s) {
            face_quad(slot(s).face, sprite, (slot(s).x + x_offset, slot(s).y, slot(s).z + z_offset))
        } else {
            Seq::empty()
        },
        None => Seq::empty(),
    }
}

/// The vertices added by the first `n` faces visited.
pub open spec fn scan_vertices(c: Neighborhood, x_offset: int, z_offset: int, n: nat) -> Seq<
    VertexModel,
>
    decreases n,
{
    if n == 0 {
        Seq::empty()
    } else {
        scan_vertices(c, x_offset, z_offset, (n - 1) as nat) + slot_quad(
            c,
            x_offset,
            z_offset,
            n - 1,
        )
    }
}

/// How many of the first `n` faces visited are drawn.
pub open spec fn shown_faces(c: Neighborhood, n: nat) -> nat
    decreases n,
{
    if n == 0 {
        0
    } else {
        shown_faces(c, (n - 1) as nat) + if slot_shown(c, n - 1) {
            1nat
        } else {
            0nat
        }
    }
}

/// The indices of a mesh of `faces` quads laid out one after the other.
pub open spec fn mesh_indices(faces: nat) -> Seq<int>
    decreases faces,
{
    if faces == 0 {
        Seq::empty()
    } else {
        mesh_indices((faces - 1) as nat) + quad_indices(4 * (faces - 1))
    }
}

/// The first face in visiting order that cannot be drawn is the `s`-th.
pub open spec fn first_unsupported(c: Neighborhood, s: int) -> bool {
    &&& 0 <= s < CHUNK_SLOTS
    &&& slot_unsupported(c, s)
    &&& forall|t: int| 0 <= t < s ==> !slot_unsupported(c, t)
}

/// None of the first `n` faces visited lacks a sprite.
pub open spec fn all_supported(c: Neighborhood, n: int) -> bool {
    forall|t: int| 0 <= t < n ==> !slot_unsupported(c, t)
}

/// The mesh of a chunk all of whose drawn faces have sprites: the quads of
/// the drawn faces in visiting order, and the indices that draw them.
pub open spec fn chunk_mesh(c: Neighborhood, x_offset: int, z_offset: int) -> MeshModel {
    MeshModel {
        vertices: scan_vertices(c, x_offset, z_offset, CHUNK_SLOTS as nat),
        indices: mesh_indices(shown_faces(c, CHUNK_SLOTS as nat)),
    }
}

/// What meshing a chunk comes to: its mesh, or the material of the first
/// face in visiting order that is to be drawn and has no sprite.
pub open spec fn mesh_outcome(c: Neighborhood, x_offset: int, z_offset: int) -> Result<
    MeshModel,
    MeshError,
> {
    if all_supported(c, CHUNK_SLOTS as int) {
        Ok(chunk_mesh(c, x_offset, z_offset))
    } else {
        let s = choose|s: int| first_unsupported(c, s);
        Err(MeshError::UnsupportedBlock(c.own[slot(s).x][slot(s).y][slot(s).z]))
    }
}

/// Only one face can be the first that cannot be drawn.
pub proof fn lemma_first_unsupported_unique(c: Neighborhood, s: int, t: int)
    requires
        first_unsupported(c, s),
        first_unsupported(c, t),
    ensures
        s == t,
{
}

/// What `build_chunk` is given, as a neighbourhood.
pub open spec fn neighborhood(
    blocks: &Vec<Vec<Vec<Block>>>,
    left_chunk: Option<&Vec<Vec<Vec<Block>>>>,
    right_chunk: Option<&Vec<Vec<Vec<Block>>>>,
    front_chunk: Option<&Vec<Vec<Vec<Block>>>>,
    back_chunk: Option<&Vec<Vec<Vec<Block>>>>,
) -> Neighborhood {
    Neighborhood {
        own: grid_view(blocks),
        left: opt_grid_view(left_chunk),
        right: opt_grid_view(right_chunk),
        front: opt_grid_view(front_chunk),
        back: opt_grid_view(back_chunk),
    }
}

/// The face numbered `i` of the cell at `(x, y, z)` is visited at `slot_of(x, y, z, i)`.
pub proof fn lemma_slot_of(x: int, y: int, z: int, i: int)
    requires
        in_chunk(x, y, z),
        0 <= i < FACES_PER_BLOCK,
    ensures
        0 <= slot_of(x, y, z, i) < CHUNK_SLOTS,
        slot(slot_of(x, y, z, i)) == (Slot { x, y, z, face: scan_face(i) }),
{
    let column = 30 * x + y;
    let cell = 16 * column + z;
    let s = 6 * cell + i;
    assert(s == slot_of(x, y, z, i));
    assert(s / 6 == cell && s % 6 == i);
    assert(cell / 16 == column && cell % 16 == z);
    assert(column / 30 == x && column % 30 == y);
    assert(cell / 480 == x) by {
        vstd::arithmetic::div_mod::lemma_fundamental_div_mod_converse(cell, 480, x, 16 * y + z);
    }
}

/// Visiting one more face adds that face's quad, and counts it if it is drawn.
pub proof fn lemma_scan_step(c: Neighborhood, x_offset: int, z_offset: int, n: nat)
    ensures
        scan_vertices(c, x_offset, z_offset, n + 1) == scan_vertices(c, x_offset, z_offset, n)
            + slot_quad(c, x_offset, z_offset, n as int),
        shown_faces(c, n + 1) == shown_faces(c, n) + if slot_shown(c, n as int) {
            1nat
        } else {
            0nat
        },
        slot_quad(c, x_offset, z_offset, n as int).len() == if slot_shown(c, n as int)
            && slot_sprite(c, n as int) is Some {
            4nat
        } else {
            0nat
        },
{
}

/// What holds of the lists under construction once the first `n` faces have
/// been visited.
#[verifier::opaque]
spec fn scanned(
    c: Neighborhood,
    x_offset: int,
    z_offset: int,
    n: int,
    vertices: Seq<Vertex>,
    indices: Seq<u32>,
) -> bool {
    &&& 0 <= n <= CHUNK_SLOTS
    &&& vertices_view(vertices) == scan_vertices(c, x_offset, z_offset, n as nat)
    &&& indices_view(indices) == mesh_indices(shown_faces(c, n as nat))
    &&& vertices.len() == 4 * shown_faces(c, n as nat)
    &&& shown_faces(c, n as nat) <= n
    &&& forall|t: int| 0 <= t < n ==> !slot_unsupported(c, t)
}

/// One call of `get_block_face` takes the lists from one face to the next,
/// or finds the first face that cannot be drawn.
proof fn lemma_face_emitted(
    c: Neighborhood,
    x_offset: int,
    z_offset: int,
    x: int,
    y: int,
    z: int,
    i: int,
    neighbor: Option<BlockType>,
    sprite: Option<int>,
    before_vertices: Seq<Vertex>,
    before_indices: Seq<u32>,
    after_vertices: Seq<Vertex>,
    after_indices: Seq<u32>,
    ok: bool,
)
    requires
        in_chunk(x, y, z),
        0 <= i < FACES_PER_BLOCK,
        scanned(c, x_offset, z_offset, slot_of(x, y, z, i), before_vertices, before_indices),
        c.own[x][y][z] != BlockType::Air,
        neighbor == face_neighbor(c, x, y, z, scan_face(i)),
        sprite == face_sprite(c.own[x][y][z], scan_face(i), grass_above(c.own, x, y, z)),
        if neighbor == Some(BlockType::Air) {
            match sprite {
                Some(sp) => {
                    &&& ok
                    &&& vertices_view(after_vertices) == vertices_view(before_vertices) + face_quad(
                        scan_face(i),
                        sp,
                        (x + x_offset, y, z + z_offset),
                    )
                    &&& indices_view(after_indices) == indices_view(before_indices) + quad_indices(
                        before_vertices.len() as int,
                    )
                },
                None => !ok,
            }
        } else {
            ok && after_vertices == before_vertices && after_indices == before_indices
        },
    ensures
        ok ==> scanned(c, x_offset, z_offset, slot_of(x, y, z, i) + 1, after_vertices, after_indices),
        !ok ==> first_unsupported(c, slot_of(x, y, z, i)),
{
    reveal(scanned);
    let n = slot_of(x, y, z, i);
    lemma_slot_of(x, y, z, i);
    lemma_scan_step(c, x_offset, z_offset, n as nat);
    assert(slot_sprite(c, n) == sprite);
    assert(slot_shown(c, n) == (neighbor == Some(BlockType::Air)));
    if ok {
        if slot_shown(c, n) {
            let faces = shown_faces(c, n as nat);
            assert(mesh_indices(faces + 1) == mesh_indices(faces) + quad_indices(4 * (faces as int)));
            assert(vertices_view(after_vertices).len() == vertices_view(before_vertices).len() + 4);
        } else {
            assert(scan_vertices(c, x_offset, z_offset, n as nat) + Seq::<VertexModel>::empty()
                =~= scan_vertices(c, x_offset, z_offset, n as nat));
        }
    }
}

/// Before any face is visited the lists are empty.
proof fn lemma_scan_start(c: Neighborhood, x_offset: int, z_offset: int)
    ensures
        scanned(c, x_offset, z_offset, 0, Seq::<Vertex>::empty(), Seq::<u32>::empty()),
{
    reveal(scanned);
    assert(vertices_view(Seq::<Vertex>::empty()) =~= scan_vertices(c, x_offset, z_offset, 0));
    assert(indices_view(Seq::<u32>::empty()) =~= mesh_indices(0));
}

/// Passing over one face of a cell of air takes the lists to the next face.
proof fn lemma_air_face_scanned(
    c: Neighborhood,
    x_offset: int,
    z_offset: int,
    x: int,
    y: int,
    z: int,
    i: int,
    vertices: Seq<Vertex>,
    indices: Seq<u32>,
)
    requires
        in_chunk(x, y, z),
        0 <= i < FACES_PER_BLOCK,
        c.own[x][y][z] == BlockType::Air,
        scanned(c, x_offset, z_offset, slot_of(x, y, z, i), vertices, indices),
    ensures
        scanned(c, x_offset, z_offset, slot_of(x, y, z, i) + 1, vertices, indices),
{
    reveal(scanned);
    let n = slot_of(x, y, z, i);
    lemma_slot_of(x, y, z, i);
    lemma_scan_step(c, x_offset, z_offset, n as nat);
    assert(!slot_shown(c, n));
    assert(scan_vertices(c, x_offset, z_offset, n as nat) + Seq::<VertexModel>::empty()
        =~= scan_vertices(c, x_offset, z_offset, n as nat));
}

/// Passing over a cell of air takes the lists past its six faces.
proof fn lemma_air_cell_scanned(
    c: Neighborhood,
    x_offset: int,
    z_offset: int,
    x: int,
    y: int,
    z: int,
    vertices: Seq<Vertex>,
    indices: Seq<u32>,
)
    requires
        in_chunk(x, y, z),
        c.own[x][y][z] == BlockType::Air,
        scanned(c, x_offset, z_offset, slot_of(x, y, z, 0), vertices, indices),
    ensures
        scanned(c, x_offset, z_offset, slot_of(x, y, z, 0) + 6, vertices, indices),
{
    lemma_air_face_scanned(c, x_offset, z_offset, x, y, z, 0, vertices, indices);
    lemma_air_face_scanned(c, x_offset, z_offset, x, y, z, 1, vertices, indices);
    lemma_air_face_scanned(c, x_offset, z_offset, x, y, z, 2, vertices, indices);
    lemma_air_face_scanned(c, x_offset, z_offset, x, y, z, 3, vertices, indices);
    lemma_air_face_scanned(c, x_offset, z_offset, x, y, z, 4, vertices, indices);
    lemma_air_face_scanned(c, x_offset, z_offset, x, y, z, 5, vertices, indices);
}

/// The lists never outgrow the faces visited.
proof fn lemma_scanned_bound(
    c: Neighborhood,
    x_offset: int,
    z_offset: int,
    n: int,
    vertices: Seq<Vertex>,
    indices: Seq<u32>,
)
    requires
        scanned(c, x_offset, z_offset, n, vertices, indices),
    ensures
        vertices.len() <= 4 * CHUNK_SLOTS,
        indices.len() <= 6 * CHUNK_SLOTS,
{
    reveal(scanned);
    lemma_mesh_indices_len(shown_faces(c, n as nat));
    assert(indices_view(indices).len() == indices.len());
}

/// Once every face has been visited the lists are the chunk's mesh.
proof fn lemma_scan_end(
    c: Neighborhood,
    x_offset: int,
    z_offset: int,
    vertices: Seq<Vertex>,
    indices: Seq<u32>,
)
    requires
        scanned(c, x_offset, z_offset, CHUNK_SLOTS as int, vertices, indices),
    ensures
        forall|s: int| 0 <= s < CHUNK_SLOTS ==> !slot_unsupported(c, s),
        vertices_view(vertices) == scan_vertices(c, x_offset, z_offset, CHUNK_SLOTS as nat),
        indices_view(indices) == mesh_indices(shown_faces(c, CHUNK_SLOTS as nat)),
        vertices_view(vertices).len() == 4 * shown_faces(c, CHUNK_SLOTS as nat),
        indices_view(indices).len() == 6 * shown_faces(c, CHUNK_SLOTS as nat),
        indices.len() <= u32::MAX,
{
    reveal(scanned);
    lemma_mesh_indices_len(shown_faces(c, CHUNK_SLOTS as nat));
    assert(indices_view(indices).len() == indices.len());
    assert(vertices_view(vertices).len() == vertices.len());
}

/// The cell at `(x, y, z)` of a chunk-shaped grid that may be absent.
fn cell_across(blocks: Option<&Vec<Vec<Vec<Block>>>>, x: usize, y: usize, z: usize) -> (b: Option<
    &Block,
>)
    requires
        opt_grid_view(blocks) matches Some(g) ==> is_chunk_grid(g),
        in_chunk(x as int, y as int, z as int),
    ensures
        opt_kind(b) == match opt_grid_view(blocks) {
            Some(g) => Some(g[x as int][y as int][z as int]),
            None => None,
        },
{
    match blocks {
        Some(chunk) => Some(block_at(chunk, x, y, z)),
        None => None,
    }
}

/// Where some face is the first that cannot be drawn, meshing fails with its
/// material.
proof fn lemma_outcome_of_failure(c: Neighborhood, x_offset: int, z_offset: int, e: MeshError)
    requires
        exists|s: int|
            #![trigger slot(s)]
            first_unsupported(c, s) && e == MeshError::UnsupportedBlock(
                c.own[slot(s).x][slot(s).y][slot(s).z],
            ),
    ensures
        mesh_outcome(c, x_offset, z_offset) == Err::<MeshModel, MeshError>(e),
{
    let s = choose|s: int|
        #![trigger slot(s)]
        first_unsupported(c, s) && e == MeshError::UnsupportedBlock(
            c.own[slot(s).x][slot(s).y][slot(s).z],
        );
    assert(slot_unsupported(c, s));
    assert(!all_supported(c, CHUNK_SLOTS as int));
    let t = choose|t: int| first_unsupported(c, t);
    lemma_first_unsupported_unique(c, s, t);
}

/// Emits one face of a cell while a chunk is meshed: the call of
/// `get_block_face` for the face visited next, with the index that its first
/// vertex gets.
fn emit_face(
    face: Face,
    neighbor: Option<&Block>,
    block: &Block,
    pos: (i64, i64, i64),
    vertices: &mut Vec<Vertex>,
    indices: &mut Vec<u32>,
    grass_above_flag: bool,
    neighbor_chunk_block_option: Option<&Block>,
    Ghost(c): Ghost<Neighborhood>,
    Ghost(at): Ghost<(int, int, int, int)>,
) -> (r: Result<(), MeshError>)
    requires
        in_chunk(at.0, at.1, at.2),
        0 <= at.3 < FACES_PER_BLOCK,
        face == scan_face(at.3),
        centre_fits(pos),
        block@ == c.own[at.0][at.1][at.2],
        block@ != BlockType::Air,
        resolved_neighbor(opt_kind(neighbor), opt_kind(neighbor_chunk_block_option))
            == face_neighbor(c, at.0, at.1, at.2, face),
        face_sprite(block@, face, grass_above_flag) == face_sprite(
            block@,
            face,
            grass_above(c.own, at.0, at.1, at.2),
        ),
        scanned(
            c,
            pos.0 - at.0,
            pos.2 - at.2,
            slot_of(at.0, at.1, at.2, at.3),
            old(vertices)@,
            old(indices)@,
        ),
        pos.1 == at.1,
    ensures
        match r {
            Ok(_) => scanned(
                c,
                pos.0 - at.0,
                pos.2 - at.2,
                slot_of(at.0, at.1, at.2, at.3) + 1,
                final(vertices)@,
                final(indices)@,
            ),
            Err(e) => mesh_outcome(c, pos.0 - at.0, pos.2 - at.2) == Err::<MeshModel, MeshError>(e),
        },
{
    proof {
        lemma_slot_of(at.0, at.1, at.2, at.3);
    }
    let ghost before_vertices = vertices@;
    let ghost before_indices = indices@;
    proof {
        lemma_scanned_bound(
            c,
            pos.0 - at.0,
            pos.2 - at.2,
            slot_of(at.0, at.1, at.2, at.3),
            vertices@,
            indices@,
        );
    }
    let base_index = vertices.len() as u32;
    let res = get_block_face(
        base_index,
        face,
        neighbor,
        block,
        pos,
        vertices,
        indices,
        grass_above_flag,
        neighbor_chunk_block_option,
    );
    proof {
        lemma_face_emitted(
            c,
            pos.0 - at.0,
            pos.2 - at.2,
            at.0,
            at.1,
            at.2,
            at.3,
            resolved_neighbor(opt_kind(neighbor), opt_kind(neighbor_chunk_block_option)),
            face_sprite(block@, face, grass_above_flag),
            before_vertices,
            before_indices,
            vertices@,
            indices@,
            res is Ok,
        );
        if let Err(e) = res {
            let s = slot_of(at.0, at.1, at.2, at.3);
            assert(first_unsupported(c, s) && e == MeshError::UnsupportedBlock(
                c.own[slot(s).x][slot(s).y][slot(s).z],
            ));
            lemma_outcome_of_failure(c, pos.0 - at.0, pos.2 - at.2, e);
        }
    }
    res
}

/// Builds the mesh of the chunk whose grid is `blocks` and which stands at
/// `(x_offset, z_offset)` in the world.
///
/// The cells are visited by x, then y, then z; air is passed over; of every
/// other cell the faces are visited in the order top, bottom, left, right,
/// front, back. A face is drawn where the block behind it is air. Behind a
/// lateral face at the chunk's edge lies a block of the touching chunk:
/// `left_chunk` at -x, `right_chunk` at +x, `front_chunk` at +z and `back_chunk`
/// at -z. Where no chunk touches, and above the top and below the bottom
/// layer, the face is not drawn.
///
/// Fails with the material of the first face that is to be drawn and for which
/// the atlas has no sprite, exactly when there is such a face.
pub fn build_chunk(
    blocks: &Vec<Vec<Vec<Block>>>,
    x_offset: i32,
    z_offset: i32,
    left_chunk: Option<&Vec<Vec<Vec<Block>>>>,
    right_chunk: Option<&Vec<Vec<Vec<Block>>>>,
    front_chunk: Option<&Vec<Vec<Vec<Block>>>>,
    back_chunk: Option<&Vec<Vec<Vec<Block>>>>,
) -> (r: Result<Mesh, MeshError>)
    requires
        neighborhood(blocks, left_chunk, right_chunk, front_chunk, back_chunk).wf(),
    ensures
        ({
            let c = neighborhood(blocks, left_chunk, right_chunk, front_chunk, back_chunk);
            match r {
                Ok(mesh) => {
                    &&& mesh_outcome(c, x_offset as int, z_offset as int) == Ok::<
                        MeshModel,
                        MeshError,
                    >(mesh@)
                    &&& mesh@.vertices.len() == 4 * shown_faces(c, CHUNK_SLOTS as nat)
                    &&& mesh@.indices.len() == 6 * shown_faces(c, CHUNK_SLOTS as nat)
                    &&& 2 * mesh@.indices.len() == 3 * mesh@.vertices.len()
                },
                Err(e) => mesh_outcome(c, x_offset as int, z_offset as int) == Err::<
                    MeshModel,
                    MeshError,
                >(e),
            }
        }),
{
    let mut vertices: Vec<Vertex> = Vec::new();
    let mut indices: Vec<u32> = Vec::new();
    let ghost c = neighborhood(blocks, left_chunk, right_chunk, front_chunk, back_chunk);
    let ghost xo = x_offset as int;
    let ghost zo = z_offset as int;

    proof {
        lemma_scan_start(c, xo, zo);
    }
    let mut x: usize = 0;
    while x < CHUNK_WIDTH
        invariant
            0 <= x <= CHUNK_WIDTH,
            c == neighborhood(blocks, left_chunk, right_chunk, front_chunk, back_chunk),
            c.wf(),
            xo == x_offset as int,
            zo == z_offset as int,
            scanned(c, xo, zo, slot_of(x as int, 0, 0, 0), vertices@, indices@),
        decreases CHUNK_WIDTH - x,
    {
        let mut y: usize = 0;
        while y < CHUNK_HEIGHT
            invariant
                0 <= x < CHUNK_WIDTH,
                0 <= y <= CHUNK_HEIGHT,
                c == neighborhood(blocks, left_chunk, right_chunk, front_chunk, back_chunk),
                c.wf(),
                xo == x_offset as int,
                zo == z_offset as int,
                scanned(c, xo, zo, slot_of(x as int, y as int, 0, 0), vertices@, indices@),
            decreases CHUNK_HEIGHT - y,
        {
            let mut z: usize = 0;
            while z < CHUNK_DEPTH
                invariant
                    0 <= x < CHUNK_WIDTH,
                    0 <= y < CHUNK_HEIGHT,
                    0 <= z <= CHUNK_DEPTH,
                    c == neighborhood(blocks, left_chunk, right_chunk, front_chunk, back_chunk),
                    c.wf(),
                    xo == x_offset as int,
                    zo == z_offset as int,
                    scanned(
                        c,
                        xo,
                        zo,
                        slot_of(x as int, y as int, z as int, 0),
                        vertices@,
                        indices@,
                    ),
                decreases CHUNK_DEPTH - z,
            {
                let block = block_at(blocks, x, y, z);
                if let BlockType::Air = block.block_type() {
                    proof {
                        lemma_air_cell_scanned(
                            c,
                            xo,
                            zo,
                            x as int,
                            y as int,
                            z as int,
                            vertices@,
                            indices@,
                        );
                    }
                    z += 1;
                    continue ;
                }
                let pos = (x as i64 + x_offset as i64, y as i64, z as i64 + z_offset as i64);
                let grass_above = y + 1 < CHUNK_HEIGHT && matches!(
                    block_at(blocks, x, y + 1, z).block_type(),
                    BlockType::Grass
                );

                // block rendering
                let neighbor = if y + 1 < CHUNK_HEIGHT {
                    Some(block_at(blocks, x, y + 1, z))
                } else {
                    None
                };
                if let Err(e) = emit_face(
                    Face::Top,
                    neighbor,
                    block,
                    pos,
                    &mut vertices,
                    &mut indices,
                    false,
                    None,
                    Ghost(c),
                    Ghost((x as int, y as int, z as int, 0int)),
                ) {
                    return Err(e);
                }
                let neighbor = if y > 0 {
                    Some(block_at(blocks, x, y - 1, z))
                } else {
                    None
                };
                if let Err(e) = emit_face(
                    Face::Bottom,
                    neighbor,
                    block,
                    pos,
                    &mut vertices,
                    &mut indices,
                    false,
                    None,
                    Ghost(c),
                    Ghost((x as int, y as int, z as int, 1int)),
                ) {
                    return Err(e);
                }
                let neighbor = if x > 0 {
                    Some(block_at(blocks, x - 1, y, z))
                } else {
                    None
                };
                let neighbor_chunk_block_option = cell_across(left_chunk, CHUNK_WIDTH - 1, y, z);
                if let Err(e) = emit_face(
                    Face::Left,
                    neighbor,
                    block,
                    pos,
                    &mut vertices,
                    &mut indices,
                    grass_above,
                    neighbor_chunk_block_option,
                    Ghost(c),
                    Ghost((x as int, y as int, z as int, 2int)),
                ) {
                    return Err(e);
                }
                let neighbor = if x + 1 < CHUNK_WIDTH {
                    Some(block_at(blocks, x + 1, y, z))
                } else {
                    None
                };
                let neighbor_chunk_block_option = cell_across(right_chunk, 0, y, z);
                if let Err(e) = emit_face(
                    Face::Right,
                    neighbor,
                    block,
                    pos,
                    &mut vertices,
                    &mut indices,
                    grass_above,
                    neighbor_chunk_block_option,
                    Ghost(c),
                    Ghost((x as int, y as int, z as int, 3int)),
                ) {
                    return Err(e);
                }
                let neighbor = if z + 1 < CHUNK_DEPTH {
                    Some(block_at(blocks, x, y, z + 1))
                } else {
                    None
                };
                let neighbor_chunk_block_option = cell_across(front_chunk, x, y, 0);
                if let Err(e) = emit_face(
                    Face::Front,
                    neighbor,
                    block,
                    pos,
                    &mut vertices,
                    &mut indices,
                    grass_above,
                    neighbor_chunk_block_option,
                    Ghost(c),
                    Ghost((x as int, y as int, z as int, 4int)),
                ) {
                    return Err(e);
                }
                let neighbor = if z > 0 {
                    Some(block_at(blocks, x, y, z - 1))
                } else {
                    None
                };
                let neighbor_chunk_block_option = cell_across(back_chunk, x, y, CHUNK_DEPTH - 1);
                if let Err(e) = emit_face(
                    Face::Back,
                    neighbor,
                    block,
                    pos,
                    &mut vertices,
                    &mut indices,
                    grass_above,
                    neighbor_chunk_block_option,
                    Ghost(c),
                    Ghost((x as int, y as int, z as int, 5int)),
                ) {
                    return Err(e);
                }
                z += 1;
            }
            y += 1;
        }
        x += 1;
    }
    proof {
        lemma_scan_end(c, xo, zo, vertices@, indices@);
    }
    Ok(build_mesh(vertices, indices))
}

/// A mesh of `faces` quads has six indices to the quad.
pub proof fn lemma_mesh_indices_len(faces: nat)
    ensures
        mesh_indices(faces).len() == 6 * faces,
    decreases faces,
{
    if faces > 0 {
        lemma_mesh_indices_len((faces - 1) as nat);
    }
}

/// Every face visited belongs to a cell of the chunk.
pub proof fn lemma_slot_in_chunk(s: int)
    requires
        0 <= s < CHUNK_SLOTS,
    ensures
        in_chunk(slot(s).x, slot(s).y, slot(s).z),
        slot_of(slot(s).x, slot(s).y, slot(s).z, s % 6) == s,
        0 <= s % 6 < 6,
{
    let cell = s / 6;
    assert(0 <= cell < 7680);
    assert(cell / 480 < 16) by {
        vstd::arithmetic::div_mod::lemma_fundamental_div_mod(cell, 480);
    }
    let column = cell / 16;
    assert(cell == 16 * column + cell % 16);
    assert(column == 30 * (column / 30) + column % 30);
    assert(column / 30 == cell / 480) by {
        vstd::arithmetic::div_mod::lemma_fundamental_div_mod_converse(
            cell,
            480,
            column / 30,
            16 * (column % 30) + cell % 16,
        );
    }
}

/// Every index of a mesh of `faces` quads points at one of its vertices.
pub proof fn lemma_mesh_indices_in_range(faces: nat, k: int)
    requires
        0 <= k < mesh_indices(faces).len(),
    ensures
        0 <= mesh_indices(faces)[k] < 4 * faces,
    decreases faces,
{
    if faces > 0 {
        let earlier = mesh_indices((faces - 1) as nat);
        lemma_mesh_indices_len((faces - 1) as nat);
        if k < earlier.len() {
            lemma_mesh_indices_in_range((faces - 1) as nat, k);
        } else {
            assert(mesh_indices(faces)[k] == quad_indices(4 * (faces - 1))[k - earlier.len()]);
        }
    }
}

} // verus!
