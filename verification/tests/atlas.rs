use voxel_world::atlas::{get_texture_coords, sprite_index, Face, MeshError, ATLAS_SIDE};
use voxel_world::block::BlockType;

const FACES: [Face; 6] = [Face::Top, Face::Bottom, Face::Left, Face::Right, Face::Back, Face::Front];

#[test]
fn texture_coords_of_the_grass_sprites() {
    assert_eq!(get_texture_coords(1), [(1, 0), (2, 1), (1, 1), (2, 0)]);
    assert_eq!(get_texture_coords(2), [(2, 0), (3, 1), (2, 1), (3, 0)]);
    assert_eq!(get_texture_coords(3), [(3, 0), (4, 1), (3, 1), (4, 0)]);
}

#[test]
fn texture_coords_wrap_into_rows() {
    assert_eq!(get_texture_coords(0), [(0, 0), (1, 1), (0, 1), (1, 0)]);
    assert_eq!(get_texture_coords(17), [(1, 1), (2, 2), (1, 2), (2, 1)]);
    assert_eq!(get_texture_coords(255), [(15, 15), (16, 16), (15, 16), (16, 15)]);
}

#[test]
fn texture_coords_past_the_atlas_leave_it() {
    assert_eq!(get_texture_coords(256), [(0, 16), (1, 17), (0, 17), (1, 16)]);
}

#[test]
fn grass_sprites_by_face() {
    assert_eq!(sprite_index(BlockType::Grass, Face::Top, false), Ok(3));
    assert_eq!(sprite_index(BlockType::Grass, Face::Top, true), Ok(3));
    assert_eq!(sprite_index(BlockType::Grass, Face::Bottom, false), Ok(1));
    assert_eq!(sprite_index(BlockType::Grass, Face::Bottom, true), Ok(1));
    for face in [Face::Left, Face::Right, Face::Back, Face::Front] {
        assert_eq!(sprite_index(BlockType::Grass, face, true), Ok(1));
        assert_eq!(sprite_index(BlockType::Grass, face, false), Ok(2));
    }
}

#[test]
fn other_materials_have_no_sprite() {
    for t in [BlockType::Air, BlockType::Water, BlockType::Stone] {
        for face in FACES {
            for grass_above in [false, true] {
                assert_eq!(
                    sprite_index(t, face, grass_above),
                    Err(MeshError::UnsupportedBlock(t))
                );
            }
        }
    }
}

#[test]
fn every_mapped_sprite_lies_on_the_atlas() {
    for face in FACES {
        for grass_above in [false, true] {
            let index = sprite_index(BlockType::Grass, face, grass_above).unwrap();
            for (u, v) in get_texture_coords(index) {
                assert!(u <= ATLAS_SIDE && v <= ATLAS_SIDE);
            }
        }
    }
}

#[test]
fn every_sprite_of_the_atlas_lies_on_it() {
    for index in 0..ATLAS_SIDE * ATLAS_SIDE {
        let c = get_texture_coords(index);
        for (u, v) in c {
            assert!(u <= ATLAS_SIDE && v <= ATLAS_SIDE);
        }
        assert_eq!(c[1], (c[0].0 + 1, c[0].1 + 1));
        assert_eq!(c[2], (c[0].0, c[0].1 + 1));
        assert_eq!(c[3], (c[0].0 + 1, c[0].1));
    }
}
