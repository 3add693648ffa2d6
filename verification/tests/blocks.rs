use voxel_world::block::{Block, BlockType};

#[test]
fn grass_is_solid() {
    let b = Block::new(BlockType::Grass);
    assert_eq!(b.block_type(), BlockType::Grass);
    assert!(b.is_solid());
}

#[test]
fn air_water_and_stone_are_not_solid() {
    for t in [BlockType::Air, BlockType::Water, BlockType::Stone] {
        let b = Block::new(t);
        assert_eq!(b.block_type(), t);
        assert!(!b.is_solid());
    }
}

#[test]
fn default_block_is_air() {
    assert_eq!(BlockType::default(), BlockType::Air);
    let b = Block::default();
    assert_eq!(b.block_type(), BlockType::Air);
    assert!(!b.is_solid());
    assert_eq!(b, Block::new(BlockType::Air));
}
