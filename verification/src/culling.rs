//! Face culling, stated of the mesh of a chunk: which quads it holds, where,
//! and which it does not hold.

use vstd::prelude::*;
use crate::atlas::{face_sprite, Face};
use crate::block::BlockType;
use crate::grid::in_chunk;
use crate::mesh::{
    all_supported, chunk_mesh, face_neighbor, grass_above, lemma_scan_step, lemma_slot_in_chunk,
    lemma_slot_of, scan_face, scan_vertices, shown_faces, slot, slot_of, slot_quad, slot_shown,
    slot_sprite, slot_unsupported, Neighborhood, CHUNK_SLOTS,
};
use crate::quad::{face_quad, lemma_face_quads_distinct, VertexModel};

verus! {

/// The number of `face` in the order in which a block's faces are visited.
pub open spec fn face_number(face: Face) -> int {
    match face {
        Face::Top => 0,
        Face::Bottom => 1,
        Face::Left => 2,
        Face::Right => 3,
        Face::Front => 4,
        Face::Back => 5,
    }
}

/// Quad number `k` of a run of vertices.
pub open spec fn quad_at(vertices: Seq<VertexModel>, k: int) -> Seq<VertexModel> {
    vertices.subrange(4 * k, 4 * k + 4)
}

/// Where every drawn face has a sprite, the faces visited add four vertices
/// each.
pub proof fn lemma_scan_len(c: Neighborhood, x_offset: int, z_offset: int, n: nat)
    requires
        all_supported(c, n as int),
    ensures
        scan_vertices(c, x_offset, z_offset, n).len() == 4 * shown_faces(c, n),
        shown_faces(c, n) <= n,
    decreases n,
{
    if n > 0 {
        lemma_scan_len(c, x_offset, z_offset, (n - 1) as nat);
        lemma_scan_step(c, x_offset, z_offset, (n - 1) as nat);
        assert(!slot_unsupported(c, n - 1));
    }
}

/// What the first `m` faces added stays in place while more are visited.
pub proof fn lemma_scan_prefix(c: Neighborhood, x_offset: int, z_offset: int, m: nat, n: nat)
    requires
        m <= n,
    ensures
        scan_vertices(c, x_offset, z_offset, m).len() <= scan_vertices(c, x_offset, z_offset, n).len(),
        scan_vertices(c, x_offset, z_offset, n).subrange(
            0,
            scan_vertices(c, x_offset, z_offset, m).len() as int,
        ) == scan_vertices(c, x_offset, z_offset, m),
    decreases n,
{
    let short = scan_vertices(c, x_offset, z_offset, m);
    let long = scan_vertices(c, x_offset, z_offset, n);
    if m < n {
        lemma_scan_prefix(c, x_offset, z_offset, m, (n - 1) as nat);
        let shorter = scan_vertices(c, x_offset, z_offset, (n - 1) as nat);
        assert(long == shorter + slot_quad(c, x_offset, z_offset, n - 1));
        assert(long.subrange(0, short.len() as int) =~= shorter.subrange(0, short.len() as int));
    } else {
        assert(long.subrange(0, short.len() as int) =~= short);
    }
}

/// Face culling, from the faces to the mesh: a face that is drawn has its
/// quad in the mesh, at the place given by the number of drawn faces visited
/// before it; a face that is not drawn adds nothing.
///
/// A face is drawn exactly when its block is not air and the block behind it
/// is air; where nothing lies behind it, it is not drawn.
pub proof fn lemma_shown_face_in_mesh(
    c: Neighborhood,
    x_offset: int,
    z_offset: int,
    x: int,
    y: int,
    z: int,
    face: Face,
)
    requires
        all_supported(c, CHUNK_SLOTS as int),
        in_chunk(x, y, z),
    ensures
        ({
            let s = slot_of(x, y, z, face_number(face));
            let mesh = chunk_mesh(c, x_offset, z_offset).vertices;
            let drawn = c.own[x][y][z] != BlockType::Air && face_neighbor(c, x, y, z, face) == Some(
                BlockType::Air,
            );
            &&& drawn ==> {
                &&& face_sprite(c.own[x][y][z], face, grass_above(c.own, x, y, z)) matches Some(
                    sprite,
                )
                &&& 4 * shown_faces(c, s as nat) + 4 <= mesh.len()
                &&& quad_at(mesh, shown_faces(c, s as nat) as int) == face_quad(
                    face,
                    sprite,
                    (x + x_offset, y, z + z_offset),
                )
            }
            &&& !drawn ==> slot_quad(c, x_offset, z_offset, s).len() == 0 && shown_faces(
                c,
                (s + 1) as nat,
            ) == shown_faces(c, s as nat)
        }),
{
    let i = face_number(face);
    let s = slot_of(x, y, z, i);
    lemma_slot_of(x, y, z, i);
    assert(scan_face(i) == face);
    let mesh = scan_vertices(c, x_offset, z_offset, CHUNK_SLOTS as nat);
    lemma_scan_step(c, x_offset, z_offset, s as nat);
    if slot_shown(c, s) {
        assert(!slot_unsupported(c, s));
        let before = scan_vertices(c, x_offset, z_offset, s as nat);
        let with = scan_vertices(c, x_offset, z_offset, (s + 1) as nat);
        assert(all_supported(c, s));
        lemma_scan_len(c, x_offset, z_offset, s as nat);
        lemma_scan_prefix(c, x_offset, z_offset, (s + 1) as nat, CHUNK_SLOTS as nat);
        let k = shown_faces(c, s as nat) as int;
        assert(quad_at(mesh, k) =~= slot_quad(c, x_offset, z_offset, s)) by {
            assert(mesh.subrange(0, with.len() as int) == with);
            assert(with == before + slot_quad(c, x_offset, z_offset, s));
            assert forall|j: int| 0 <= j < 4 implies quad_at(mesh, k)[j] == slot_quad(
                c,
                x_offset,
                z_offset,
                s,
            )[j] by {
                assert(mesh.subrange(0, with.len() as int)[4 * k + j] == mesh[4 * k + j]);
            }
        }
    }
}

/// Face culling, from the mesh to the faces: every quad of the mesh is the
/// quad of a face whose block is not air and behind which lies air.
pub proof fn lemma_mesh_quad_is_shown_face(
    c: Neighborhood,
    x_offset: int,
    z_offset: int,
    n: nat,
    k: int,
)
    requires
        all_supported(c, n as int),
        n <= CHUNK_SLOTS,
        0 <= k < shown_faces(c, n),
    ensures
        exists|s: int|
            #![trigger slot(s)]
            {
                &&& 0 <= s < n
                &&& in_chunk(slot(s).x, slot(s).y, slot(s).z)
                &&& c.own[slot(s).x][slot(s).y][slot(s).z] != BlockType::Air
                &&& face_neighbor(c, slot(s).x, slot(s).y, slot(s).z, slot(s).face) == Some(
                    BlockType::Air,
                )
                &&& shown_faces(c, s as nat) == k
                &&& quad_at(scan_vertices(c, x_offset, z_offset, n), k) == slot_quad(
                    c,
                    x_offset,
                    z_offset,
                    s,
                )
                &&& slot_quad(c, x_offset, z_offset, s).len() == 4
            },
    decreases n,
{
    let last = (n - 1) as nat;
    lemma_scan_step(c, x_offset, z_offset, last);
    lemma_scan_len(c, x_offset, z_offset, last);
    lemma_scan_len(c, x_offset, z_offset, n);
    let mesh = scan_vertices(c, x_offset, z_offset, n);
    let shorter = scan_vertices(c, x_offset, z_offset, last);
    if k < shown_faces(c, last) {
        lemma_mesh_quad_is_shown_face(c, x_offset, z_offset, last, k);
        let s = choose|s: int|
            #![trigger slot(s)]
            {
                &&& 0 <= s < last
                &&& in_chunk(slot(s).x, slot(s).y, slot(s).z)
                &&& c.own[slot(s).x][slot(s).y][slot(s).z] != BlockType::Air
                &&& face_neighbor(c, slot(s).x, slot(s).y, slot(s).z, slot(s).face) == Some(
                    BlockType::Air,
                )
                &&& shown_faces(c, s as nat) == k
                &&& quad_at(shorter, k) == slot_quad(c, x_offset, z_offset, s)
                &&& slot_quad(c, x_offset, z_offset, s).len() == 4
            };
        assert(quad_at(mesh, k) =~= quad_at(shorter, k));
        assert(slot(s) == slot(s));
    } else {
        let s = last as int;
        assert(slot_shown(c, s));
        assert(!slot_unsupported(c, s));
        assert(quad_at(mesh, k) =~= slot_quad(c, x_offset, z_offset, s));
        lemma_slot_in_chunk(s);
        assert(slot(s) == slot(s));
    }
}

/// Face culling, from the mesh to the faces, for the mesh of a whole chunk:
/// every quad of it is the quad of a face of a cell of the chunk whose block
/// is not air and behind which lies air, and the quads come in the order in
/// which those faces are visited.
pub proof fn lemma_chunk_quad_is_shown_face(c: Neighborhood, x_offset: int, z_offset: int, k: int)
    requires
        all_supported(c, CHUNK_SLOTS as int),
        0 <= k,
        4 * k + 4 <= chunk_mesh(c, x_offset, z_offset).vertices.len(),
    ensures
        exists|s: int|
            #![trigger slot(s)]
            {
                &&& 0 <= s < CHUNK_SLOTS
                &&& in_chunk(slot(s).x, slot(s).y, slot(s).z)
                &&& c.own[slot(s).x][slot(s).y][slot(s).z] != BlockType::Air
                &&& face_neighbor(c, slot(s).x, slot(s).y, slot(s).z, slot(s).face) == Some(
                    BlockType::Air,
                )
                &&& shown_faces(c, s as nat) == k
                &&& quad_at(chunk_mesh(c, x_offset, z_offset).vertices, k) == slot_quad(
                    c,
                    x_offset,
                    z_offset,
                    s,
                )
                &&& slot_quad(c, x_offset, z_offset, s).len() == 4
            },
{
    lemma_scan_len(c, x_offset, z_offset, CHUNK_SLOTS as nat);
    lemma_mesh_quad_is_shown_face(c, x_offset, z_offset, CHUNK_SLOTS as nat, k);
}

/// Face culling, for the faces left out: the quad that a face of a cell of
/// the chunk would have does not occur in the chunk's mesh unless the face
/// is drawn, that is, unless its block is not air and air lies behind it.
pub proof fn lemma_hidden_face_not_in_mesh(
    c: Neighborhood,
    x_offset: int,
    z_offset: int,
    x: int,
    y: int,
    z: int,
    face: Face,
    sprite: int,
    k: int,
)
    requires
        all_supported(c, CHUNK_SLOTS as int),
        in_chunk(x, y, z),
        0 <= k,
        4 * k + 4 <= chunk_mesh(c, x_offset, z_offset).vertices.len(),
        quad_at(chunk_mesh(c, x_offset, z_offset).vertices, k) == face_quad(
            face,
            sprite,
            (x + x_offset, y, z + z_offset),
        ),
    ensures
        c.own[x][y][z] != BlockType::Air,
        face_neighbor(c, x, y, z, face) == Some(BlockType::Air),
{
    lemma_chunk_quad_is_shown_face(c, x_offset, z_offset, k);
    let s = choose|s: int|
        #![trigger slot(s)]
        {
            &&& 0 <= s < CHUNK_SLOTS
            &&& in_chunk(slot(s).x, slot(s).y, slot(s).z)
            &&& c.own[slot(s).x][slot(s).y][slot(s).z] != BlockType::Air
            &&& face_neighbor(c, slot(s).x, slot(s).y, slot(s).z, slot(s).face) == Some(
                BlockType::Air,
            )
            &&& shown_faces(c, s as nat) == k
            &&& quad_at(chunk_mesh(c, x_offset, z_offset).vertices, k) == slot_quad(
                c,
                x_offset,
                z_offset,
                s,
            )
            &&& slot_quad(c, x_offset, z_offset, s).len() == 4
        };
    let at = slot(s);
    let drawn_sprite = slot_sprite(c, s).unwrap();
    assert(slot_quad(c, x_offset, z_offset, s) == face_quad(
        at.face,
        drawn_sprite,
        (at.x + x_offset, at.y, at.z + z_offset),
    ));
    lemma_face_quads_distinct(
        face,
        sprite,
        (x + x_offset, y, z + z_offset),
        at.face,
        drawn_sprite,
        (at.x + x_offset, at.y, at.z + z_offset),
    );
}

} // verus!
