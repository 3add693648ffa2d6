//! The texture atlas: which sprite a block face shows, and where that sprite
//! lies in the atlas.
//!
//! The atlas is a square of `ATLAS_SIDE` by `ATLAS_SIDE` equal sprites, numbered
//! row by row. Texture coordinates are counted in sprite sides, so the atlas
//! spans `0..=ATLAS_SIDE` on both axes.

use vstd::prelude::*;
use crate::block::BlockType;

verus! {

/// Sprites along one side of the atlas.
pub const ATLAS_SIDE: usize = 16;

/// Sprite of bare dirt: the underside of grass, and its sides below more grass.
pub const SPRITE_DIRT: usize = 1;

/// Sprite of a dirt side with grass growing over its upper edge.
pub const SPRITE_GRASS_SIDE: usize = 2;

/// Sprite of the grass surface.
pub const SPRITE_GRASS_TOP: usize = 3;

/// The six faces of a block. `Left` and `Right` look along -x and +x, `Back`
/// and `Front` along -z and +z.
#[derive(Copy, Clone, Debug, PartialEq, Eq, Structural)]
pub enum Face {
    Top,
    Bottom,
    Left,
    Right,
    Back,
    Front,
}

/// Why no geometry could be produced.
#[derive(Copy, Clone, Debug, PartialEq, Eq, Structural)]
pub enum MeshError {
    /// A face of this material was to be drawn, and the atlas has no sprite for it.
    UnsupportedBlock(BlockType),
}

/// A face that looks along x or z.
pub open spec fn is_lateral(face: Face) -> bool {
    face is Left || face is Right || face is Back || face is Front
}

/// The sprite shown on `face` of a block of material `t`, if the atlas has
/// one. `grass_above` tells whether the block above is grass; only lateral
/// faces depend on it.
pub open spec fn face_sprite(t: BlockType, face: Face, grass_above: bool) -> Option<int> {
    match t {
        BlockType::Grass => Some(
            match face {
                Face::Top => SPRITE_GRASS_TOP as int,
                Face::Bottom => SPRITE_DIRT as int,
                _ => if grass_above {
                    SPRITE_DIRT as int
                } else {
                    SPRITE_GRASS_SIDE as int
                },
            },
        ),
        _ => None,
    }
}

/// The four corners of sprite `index`, in sprite sides from the atlas origin:
/// low-low, high-high, low-high, high-low.
pub open spec fn sprite_corners(index: int) -> Seq<(int, int)> {
    let row = index / (ATLAS_SIDE as int);
    let col = index % (ATLAS_SIDE as int);
    seq![(col, row), (col + 1, row + 1), (col, row + 1), (col + 1, row)]
}

/// Coordinate pairs read as mathematical integers.
pub open spec fn pairs_view(s: Seq<(usize, usize)>) -> Seq<(int, int)> {
    s.map_values(|p: (usize, usize)| (p.0 as int, p.1 as int))
}

/// A coordinate pair lies on the atlas.
pub open spec fn on_atlas(p: (int, int)) -> bool {
    0 <= p.0 <= ATLAS_SIDE && 0 <= p.1 <= ATLAS_SIDE
}

/// Picks the sprite for `face` of a block of material `block_type`.
///
/// Only grass has sprites. Every other material is reported as unsupported.
pub fn sprite_index(block_type: BlockType, face: Face, grass_above: bool) -> (r: Result<
    usize,
    MeshError,
>)
    ensures
        match r {
            Ok(index) => face_sprite(block_type, face, grass_above) == Some(index as int),
            Err(e) => face_sprite(block_type, face, grass_above) is None && e
                == MeshError::UnsupportedBlock(block_type),
        },
{
    match block_type {
        BlockType::Grass => match face {
            Face::Left | Face::Right | Face::Back | Face::Front => {
                if grass_above {
                    Ok(SPRITE_DIRT)
                } else {
                    Ok(SPRITE_GRASS_SIDE)
                }
            },
            Face::Top => Ok(SPRITE_GRASS_TOP),
            Face::Bottom => Ok(SPRITE_DIRT),
        },
        _ => Err(MeshError::UnsupportedBlock(block_type)),
    }
}

/// The corners of sprite `index`, in the order of `sprite_corners`.
pub fn get_texture_coords(index: usize) -> (r: [(usize, usize); 4])
    ensures
        pairs_view(r@) == sprite_corners(index as int),
{
    let row = index / ATLAS_SIDE;
    let col = index % ATLAS_SIDE;

    let min_x = col;
    let max_x = min_x + 1;
    let min_y = row;
    let max_y = min_y + 1;
    let r = [(min_x, min_y), (max_x, max_y), (min_x, max_y), (max_x, min_y)];
    assert(pairs_view(r@) =~= sprite_corners(index as int));
    r
}

/// Every corner of a sprite that the atlas holds lies on the atlas.
pub proof fn lemma_sprite_on_atlas(index: int)
    requires
        0 <= index < ATLAS_SIDE * ATLAS_SIDE,
    ensures
        sprite_corners(index).len() == 4,
        forall|k: int| 0 <= k < 4 ==> on_atlas(#[trigger] sprite_corners(index)[k]),
{
}

/// Whatever face of whatever block is mapped, the sprite chosen is one that
/// the atlas holds, so all its corners lie on the atlas.
pub proof fn lemma_face_sprite_on_atlas(t: BlockType, face: Face, grass_above: bool)
    ensures
        face_sprite(t, face, grass_above) matches Some(index) ==> {
            &&& 0 <= index < ATLAS_SIDE * ATLAS_SIDE
            &&& forall|k: int| 0 <= k < 4 ==> on_atlas(#[trigger] sprite_corners(index)[k])
        },
{
    if let Some(index) = face_sprite(t, face, grass_above) {
        lemma_sprite_on_atlas(index);
    }
}

/// What lies above a block bears on the sprites of its lateral faces only.
pub proof fn lemma_grass_above_only_lateral(t: BlockType, face: Face)
    requires
        !is_lateral(face),
    ensures
        face_sprite(t, face, true) == face_sprite(t, face, false),
{
}

} // verus!
