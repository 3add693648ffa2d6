//! The quad of one face of a block: four vertices, textured with a sprite.
//!
//! Vertex positions are counted in half blocks, so the corners of the block
//! centred at `c` lie at `2 * c - 1` and `2 * c + 1` on each axis. Texture
//! coordinates are counted in sprite sides (see `atlas`).

use vstd::prelude::*;
use crate::atlas::{
    face_sprite, get_texture_coords, lemma_face_sprite_on_atlas, on_atlas, pairs_view,
    sprite_corners, sprite_index, Face, MeshError,
};
use crate::block::BlockType;

verus! {

/// One corner of a quad.
#[derive(Copy, Clone, Debug, PartialEq, Eq)]
pub struct Vertex {
    /// Position in half blocks.
    pub position: (i64, i64, i64),
    /// Texture coordinates in sprite sides.
    pub tex_coords: (usize, usize),
}

/// The model of a vertex: the same numbers as mathematical integers.
pub struct VertexModel {
    pub position: (int, int, int),
    pub tex_coords: (int, int),
}

impl View for Vertex {
    type V = VertexModel;

    open spec fn view(&self) -> VertexModel {
        VertexModel {
            position: (self.position.0 as int, self.position.1 as int, self.position.2 as int),
            tex_coords: (self.tex_coords.0 as int, self.tex_coords.1 as int),
        }
    }
}

/// The models of a run of vertices.
pub open spec fn vertices_view(s: Seq<Vertex>) -> Seq<VertexModel> {
    s.map_values(|v: Vertex| v@)
}

/// Largest block coordinate whose corners still fit a vertex position.
pub const MAX_CENTRE: i64 = 0x3fff_ffff_ffff_ffff;

/// The corners of the block centred at `centre` fit a vertex position.
pub open spec fn centre_fits(centre: (i64, i64, i64)) -> bool {
    &&& -MAX_CENTRE <= centre.0 <= MAX_CENTRE
    &&& -MAX_CENTRE <= centre.1 <= MAX_CENTRE
    &&& -MAX_CENTRE <= centre.2 <= MAX_CENTRE
}

/// The four corners of `face`, in half blocks from the block's centre, in
/// the order in which the face's vertices are emitted.
pub open spec fn face_corners(face: Face) -> Seq<(int, int, int)> {
    match face {
        Face::Top => seq![(-1, 1, -1), (1, 1, 1), (1, 1, -1), (-1, 1, 1)],
        Face::Bottom => seq![(1, -1, -1), (-1, -1, 1), (-1, -1, -1), (1, -1, 1)],
        Face::Left => seq![(-1, -1, 1), (-1, 1, -1), (-1, -1, -1), (-1, 1, 1)],
        Face::Right => seq![(1, -1, -1), (1, 1, 1), (1, -1, 1), (1, 1, -1)],
        Face::Front => seq![(1, -1, 1), (-1, 1, 1), (-1, -1, 1), (1, 1, 1)],
        Face::Back => seq![(-1, -1, -1), (1, 1, -1), (1, -1, -1), (-1, 1, -1)],
    }
}

/// The direction in which `face` looks.
pub open spec fn face_normal(face: Face) -> (int, int, int) {
    match face {
        Face::Top => (0, 1, 0),
        Face::Bottom => (0, -1, 0),
        Face::Left => (-1, 0, 0),
        Face::Right => (1, 0, 0),
        Face::Front => (0, 0, 1),
        Face::Back => (0, 0, -1),
    }
}

/// The quad of `face` of the block centred at `centre` (in blocks), textured
/// with sprite `sprite`.
pub open spec fn face_quad(face: Face, sprite: int, centre: (int, int, int)) -> Seq<VertexModel> {
    Seq::new(
        4,
        |k: int|
            VertexModel {
                position: (
                    2 * centre.0 + face_corners(face)[k].0,
                    2 * centre.1 + face_corners(face)[k].1,
                    2 * centre.2 + face_corners(face)[k].2,
                ),
                tex_coords: sprite_corners(sprite)[k],
            },
    )
}

/// Triples read as mathematical integers.
pub open spec fn triples_view(s: Seq<(i64, i64, i64)>) -> Seq<(int, int, int)> {
    s.map_values(|p: (i64, i64, i64)| (p.0 as int, p.1 as int, p.2 as int))
}

/// The corner offsets of `face`, in the order of `face_corners`.
fn corner_offsets(face: Face) -> (r: [(i64, i64, i64); 4])
    ensures
        triples_view(r@) == face_corners(face),
{
    let r: [(i64, i64, i64); 4] = match face {
        Face::Top => [(-1, 1, -1), (1, 1, 1), (1, 1, -1), (-1, 1, 1)],
        Face::Bottom => [(1, -1, -1), (-1, -1, 1), (-1, -1, -1), (1, -1, 1)],
        Face::Left => [(-1, -1, 1), (-1, 1, -1), (-1, -1, -1), (-1, 1, 1)],
        Face::Right => [(1, -1, -1), (1, 1, 1), (1, -1, 1), (1, 1, -1)],
        Face::Front => [(1, -1, 1), (-1, 1, 1), (-1, -1, 1), (1, 1, 1)],
        Face::Back => [(-1, -1, -1), (1, 1, -1), (1, -1, -1), (-1, 1, -1)],
    };
    assert(triples_view(r@) =~= face_corners(face));
    r
}

/// The four vertices of `face` of a block of material `block_type` centred
/// at `pos` (in blocks).
///
/// Fails exactly when the atlas has no sprite for the material.
pub fn get_mesh_texture_and_pos(
    face: Face,
    block_type: &BlockType,
    pos: (i64, i64, i64),
    grass_above: bool,
) -> (r: Result<Vec<Vertex>, MeshError>)
    requires
        centre_fits(pos),
    ensures
        match r {
            Ok(quad) => face_sprite(*block_type, face, grass_above) matches Some(sprite)
                && vertices_view(quad@) == face_quad(
                face,
                sprite,
                (pos.0 as int, pos.1 as int, pos.2 as int),
            ),
            Err(e) => face_sprite(*block_type, face, grass_above) is None && e
                == MeshError::UnsupportedBlock(*block_type),
        },
{
    let offsets = corner_offsets(face);
    let index = match sprite_index(*block_type, face, grass_above) {
        Ok(index) => index,
        Err(e) => {
            return Err(e);
        },
    };

    let texture_coords = get_texture_coords(index);
    let mut vertices_array: Vec<Vertex> = Vec::new();
    let ghost centre = (pos.0 as int, pos.1 as int, pos.2 as int);
    for i in 0..4
        invariant
            centre_fits(pos),
            centre == (pos.0 as int, pos.1 as int, pos.2 as int),
            triples_view(offsets@) == face_corners(face),
            pairs_view(texture_coords@) == sprite_corners(index as int),
            vertices_array@.len() == i,
            forall|k: int|
                0 <= k < i ==> (#[trigger] vertices_array@[k])@ == face_quad(face, index as int, centre)[k],
    {
        assert(triples_view(offsets@)[i as int] == face_corners(face)[i as int]);
        assert(pairs_view(texture_coords@)[i as int] == sprite_corners(index as int)[i as int]);
        let corner = offsets[i];
        vertices_array.push(
            Vertex {
                position: (2 * pos.0 + corner.0, 2 * pos.1 + corner.1, 2 * pos.2 + corner.2),
                tex_coords: texture_coords[i],
            },
        );
    }
    assert(vertices_view(vertices_array@) =~= face_quad(face, index as int, centre));
    Ok(vertices_array)
}

/// The difference of two vectors.
pub open spec fn minus(a: (int, int, int), b: (int, int, int)) -> (int, int, int) {
    (a.0 - b.0, a.1 - b.1, a.2 - b.2)
}

/// The cross product of two vectors.
pub open spec fn cross(a: (int, int, int), b: (int, int, int)) -> (int, int, int) {
    (a.1 * b.2 - a.2 * b.1, a.2 * b.0 - a.0 * b.2, a.0 * b.1 - a.1 * b.0)
}

/// The inner product of two vectors.
pub open spec fn dot(a: (int, int, int), b: (int, int, int)) -> int {
    a.0 * b.0 + a.1 * b.1 + a.2 * b.2
}

/// Every face is wound alike. Its four corners lie in the plane half a block
/// from the centre on the side to which the face looks, and both of its
/// triangles, through corners 3, 2, 0 and through corners 1, 2, 3, turn
/// counter-clockwise seen from outside the block.
pub proof fn lemma_faces_wound_outward(face: Face)
    ensures
        ({
            let c = face_corners(face);
            let n = face_normal(face);
            &&& c.len() == 4
            &&& forall|k: int| 0 <= k < 4 ==> dot(#[trigger] c[k], n) == 1
            &&& cross(minus(c[2], c[3]), minus(c[0], c[3])) == (4 * n.0, 4 * n.1, 4 * n.2)
            &&& cross(minus(c[2], c[1]), minus(c[3], c[1])) == (4 * n.0, 4 * n.1, 4 * n.2)
        }),
{
    let c = face_corners(face);
    let n = face_normal(face);
    match face {
        Face::Top => {
            assert(c[0] == (-1int, 1int, -1int));
            assert(c[1] == (1int, 1int, 1int));
            assert(c[2] == (1int, 1int, -1int));
            assert(c[3] == (-1int, 1int, 1int));
            assert(n == (0int, 1int, 0int));
            assert(dot((-1int, 1int, -1int), (0int, 1int, 0int)) == 1) by (nonlinear_arith);
            assert(dot((1int, 1int, 1int), (0int, 1int, 0int)) == 1) by (nonlinear_arith);
            assert(dot((1int, 1int, -1int), (0int, 1int, 0int)) == 1) by (nonlinear_arith);
            assert(dot((-1int, 1int, 1int), (0int, 1int, 0int)) == 1) by (nonlinear_arith);
            assert(minus(c[2], c[3]) == (2int, 0int, -2int) && minus(c[0], c[3]) == (0int, 0int, -2int));
            assert(cross((2int, 0int, -2int), (0int, 0int, -2int)) == (0int, 4int, 0int)) by (nonlinear_arith);
            assert(minus(c[2], c[1]) == (0int, 0int, -2int) && minus(c[3], c[1]) == (-2int, 0int, 0int));
            assert(cross((0int, 0int, -2int), (-2int, 0int, 0int)) == (0int, 4int, 0int)) by (nonlinear_arith);
        },
        Face::Bottom => {
            assert(c[0] == (1int, -1int, -1int));
            assert(c[1] == (-1int, -1int, 1int));
            assert(c[2] == (-1int, -1int, -1int));
            assert(c[3] == (1int, -1int, 1int));
            assert(n == (0int, -1int, 0int));
            assert(dot((1int, -1int, -1int), (0int, -1int, 0int)) == 1) by (nonlinear_arith);
            assert(dot((-1int, -1int, 1int), (0int, -1int, 0int)) == 1) by (nonlinear_arith);
            assert(dot((-1int, -1int, -1int), (0int, -1int, 0int)) == 1) by (nonlinear_arith);
            assert(dot((1int, -1int, 1int), (0int, -1int, 0int)) == 1) by (nonlinear_arith);
            assert(minus(c[2], c[3]) == (-2int, 0int, -2int) && minus(c[0], c[3]) == (0int, 0int, -2int));
            assert(cross((-2int, 0int, -2int), (0int, 0int, -2int)) == (0int, -4int, 0int)) by (nonlinear_arith);
            assert(minus(c[2], c[1]) == (0int, 0int, -2int) && minus(c[3], c[1]) == (2int, 0int, 0int));
            assert(cross((0int, 0int, -2int), (2int, 0int, 0int)) == (0int, -4int, 0int)) by (nonlinear_arith);
        },
        Face::Left => {
            assert(c[0] == (-1int, -1int, 1int));
            assert(c[1] == (-1int, 1int, -1int));
            assert(c[2] == (-1int, -1int, -1int));
            assert(c[3] == (-1int, 1int, 1int));
            assert(n == (-1int, 0int, 0int));
            assert(dot((-1int, -1int, 1int), (-1int, 0int, 0int)) == 1) by (nonlinear_arith);
            assert(dot((-1int, 1int, -1int), (-1int, 0int, 0int)) == 1) by (nonlinear_arith);
            assert(dot((-1int, -1int, -1int), (-1int, 0int, 0int)) == 1) by (nonlinear_arith);
            assert(dot((-1int, 1int, 1int), (-1int, 0int, 0int)) == 1) by (nonlinear_arith);
            assert(minus(c[2], c[3]) == (0int, -2int, -2int) && minus(c[0], c[3]) == (0int, -2int, 0int));
            assert(cross((0int, -2int, -2int), (0int, -2int, 0int)) == (-4int, 0int, 0int)) by (nonlinear_arith);
            assert(minus(c[2], c[1]) == (0int, -2int, 0int) && minus(c[3], c[1]) == (0int, 0int, 2int));
            assert(cross((0int, -2int, 0int), (0int, 0int, 2int)) == (-4int, 0int, 0int)) by (nonlinear_arith);
        },
        Face::Right => {
            assert(c[0] == (1int, -1int, -1int));
            assert(c[1] == (1int, 1int, 1int));
            assert(c[2] == (1int, -1int, 1int));
            assert(c[3] == (1int, 1int, -1int));
            assert(n == (1int, 0int, 0int));
            assert(dot((1int, -1int, -1int), (1int, 0int, 0int)) == 1) by (nonlinear_arith);
            assert(dot((1int, 1int, 1int), (1int, 0int, 0int)) == 1) by (nonlinear_arith);
            assert(dot((1int, -1int, 1int), (1int, 0int, 0int)) == 1) by (nonlinear_arith);
            assert(dot((1int, 1int, -1int), (1int, 0int, 0int)) == 1) by (nonlinear_arith);
            assert(minus(c[2], c[3]) == (0int, -2int, 2int) && minus(c[0], c[3]) == (0int, -2int, 0int));
            assert(cross((0int, -2int, 2int), (0int, -2int, 0int)) == (4int, 0int, 0int)) by (nonlinear_arith);
            assert(minus(c[2], c[1]) == (0int, -2int, 0int) && minus(c[3], c[1]) == (0int, 0int, -2int));
            assert(cross((0int, -2int, 0int), (0int, 0int, -2int)) == (4int, 0int, 0int)) by (nonlinear_arith);
        },
        Face::Front => {
            assert(c[0] == (1int, -1int, 1int));
            assert(c[1] == (-1int, 1int, 1int));
            assert(c[2] == (-1int, -1int, 1int));
            assert(c[3] == (1int, 1int, 1int));
            assert(n == (0int, 0int, 1int));
            assert(dot((1int, -1int, 1int), (0int, 0int, 1int)) == 1) by (nonlinear_arith);
            assert(dot((-1int, 1int, 1int), (0int, 0int, 1int)) == 1) by (nonlinear_arith);
            assert(dot((-1int, -1int, 1int), (0int, 0int, 1int)) == 1) by (nonlinear_arith);
            assert(dot((1int, 1int, 1int), (0int, 0int, 1int)) == 1) by (nonlinear_arith);
            assert(minus(c[2], c[3]) == (-2int, -2int, 0int) && minus(c[0], c[3]) == (0int, -2int, 0int));
            assert(cross((-2int, -2int, 0int), (0int, -2int, 0int)) == (0int, 0int, 4int)) by (nonlinear_arith);
            assert(minus(c[2], c[1]) == (0int, -2int, 0int) && minus(c[3], c[1]) == (2int, 0int, 0int));
            assert(cross((0int, -2int, 0int), (2int, 0int, 0int)) == (0int, 0int, 4int)) by (nonlinear_arith);
        },
        Face::Back => {
            assert(c[0] == (-1int, -1int, -1int));
            assert(c[1] == (1int, 1int, -1int));
            assert(c[2] == (1int, -1int, -1int));
            assert(c[3] == (-1int, 1int, -1int));
            assert(n == (0int, 0int, -1int));
            assert(dot((-1int, -1int, -1int), (0int, 0int, -1int)) == 1) by (nonlinear_arith);
            assert(dot((1int, 1int, -1int), (0int, 0int, -1int)) == 1) by (nonlinear_arith);
            assert(dot((1int, -1int, -1int), (0int, 0int, -1int)) == 1) by (nonlinear_arith);
            assert(dot((-1int, 1int, -1int), (0int, 0int, -1int)) == 1) by (nonlinear_arith);
            assert(minus(c[2], c[3]) == (2int, -2int, 0int) && minus(c[0], c[3]) == (0int, -2int, 0int));
            assert(cross((2int, -2int, 0int), (0int, -2int, 0int)) == (0int, 0int, -4int)) by (nonlinear_arith);
            assert(minus(c[2], c[1]) == (0int, -2int, 0int) && minus(c[3], c[1]) == (-2int, 0int, 0int));
            assert(cross((0int, -2int, 0int), (-2int, 0int, 0int)) == (0int, 0int, -4int)) by (nonlinear_arith);
        },
    }
    assert forall|k: int| 0 <= k < 4 implies dot(#[trigger] c[k], n) == 1 by {
        if k == 0 {
        } else if k == 1 {
        } else if k == 2 {
        } else {
        }
    }
}

/// The texture coordinates of every vertex of a face's quad lie on the
/// atlas, whatever the block, the face and what lies above it.
pub proof fn lemma_face_quad_on_atlas(
    t: BlockType,
    face: Face,
    grass_above: bool,
    centre: (int, int, int),
)
    ensures
        face_sprite(t, face, grass_above) matches Some(sprite) ==> forall|k: int|
            0 <= k < 4 ==> on_atlas(
                (#[trigger] face_quad(face, sprite, centre)[k]).tex_coords,
            ),
{
    if let Some(sprite) = face_sprite(t, face, grass_above) {
        lemma_face_sprite_on_atlas(t, face, grass_above);
        assert forall|k: int| 0 <= k < 4 implies on_atlas(
            (#[trigger] face_quad(face, sprite, centre)[k]).tex_coords,
        ) by {
            assert(on_atlas(sprite_corners(sprite)[k]));
        }
    }
}

/// The quads of two faces are the same only if the faces are: a quad tells
/// the block and the face that it belongs to.
pub proof fn lemma_face_quads_distinct(
    face: Face,
    sprite: int,
    centre: (int, int, int),
    other_face: Face,
    other_sprite: int,
    other_centre: (int, int, int),
)
    requires
        face_quad(face, sprite, centre) == face_quad(other_face, other_sprite, other_centre),
    ensures
        face == other_face,
        centre == other_centre,
{
    let a = face_quad(face, sprite, centre);
    let b = face_quad(other_face, other_sprite, other_centre);
    assert(a[0].position == b[0].position);
    assert(a[1].position == b[1].position);
    assert(a[2].position == b[2].position);
}

} // verus!
