use voxel_world::block::{Block, BlockType};
use voxel_world::grid::{block_at, is_chunk_shaped};
use voxel_world::mesh::build_chunk;
use voxel_world::terrain::{chunk_gen, flip_2d_vector, HeightField, WORLD_SIDE};

fn field(height_of: impl Fn(usize, usize) -> usize) -> HeightField {
    let samples: Vec<Vec<usize>> = (0..WORLD_SIDE)
        .map(|gx| (0..WORLD_SIDE).map(|gz| height_of(gx, gz)).collect())
        .collect();
    HeightField::new(samples).unwrap()
}

fn hills(gx: usize, gz: usize) -> usize {
    10 + (gx * 3 + gz * 5) % 17
}

#[test]
fn height_field_must_cover_the_world() {
    assert!(HeightField::new(Vec::new()).is_none());
    assert!(HeightField::new(vec![vec![0; WORLD_SIDE]; WORLD_SIDE - 1]).is_none());
    assert!(HeightField::new(vec![vec![0; WORLD_SIDE]; WORLD_SIDE + 1]).is_none());
    let mut ragged = vec![vec![0; WORLD_SIDE]; WORLD_SIDE];
    ragged[200].pop();
    assert!(HeightField::new(ragged).is_none());
    assert!(HeightField::new(vec![vec![0; WORLD_SIDE]; WORLD_SIDE]).is_some());
}

#[test]
fn height_field_keeps_its_samples() {
    let f = field(hills);
    assert_eq!(f.height_at(0, 0), 10);
    assert_eq!(f.height_at(1, 0), 13);
    assert_eq!(f.height_at(0, 1), 15);
    assert_eq!(f.height_at(255, 255), 10 + (255 * 8) % 17);
}

#[test]
fn flat_field_has_one_height() {
    let f = HeightField::flat(10);
    for (gx, gz) in [(0, 0), (17, 3), (255, 255), (128, 0)] {
        assert_eq!(f.height_at(gx, gz), 10);
    }
}

#[test]
fn flip_swaps_rows_and_columns() {
    let g = Block::new(BlockType::Grass);
    let a = Block::new(BlockType::Air);
    let s = Block::new(BlockType::Stone);
    let flipped = flip_2d_vector(vec![vec![g, a, s], vec![s, g, a]]);
    assert_eq!(flipped, vec![vec![g, s], vec![a, g], vec![s, a]]);
}

#[test]
fn flip_of_nothing_is_nothing() {
    assert_eq!(flip_2d_vector(Vec::new()), Vec::<Vec<Block>>::new());
    assert_eq!(flip_2d_vector(vec![Vec::new(), Vec::new()]), Vec::<Vec<Block>>::new());
}

#[test]
fn flip_goes_by_the_first_row() {
    let g = Block::new(BlockType::Grass);
    let a = Block::new(BlockType::Air);
    let flipped = flip_2d_vector(vec![vec![g], vec![a, g]]);
    assert_eq!(flipped, vec![vec![g, a]]);
}

#[test]
fn flat_terrain_is_grass_below_the_surface_and_air_from_there_up() {
    let blocks = chunk_gen(&HeightField::flat(10), 0, 0);
    assert!(is_chunk_shaped(&blocks));
    for x in 0..16 {
        for z in 0..16 {
            for y in 0..30 {
                let expected = if y < 10 { BlockType::Grass } else { BlockType::Air };
                assert_eq!(blocks[x][y][z].block_type(), expected);
                assert_eq!(blocks[x][y][z].is_solid(), y < 10);
            }
        }
    }
}

#[test]
fn flat_terrain_meshes_to_one_top_face_per_column() {
    let blocks = chunk_gen(&HeightField::flat(10), 32, 48);
    let mesh = build_chunk(&blocks, 32, 48, None, None, None, None).unwrap();
    assert_eq!(mesh.vertices().len(), 4 * 256);
    assert_eq!(mesh.indices().len(), 6 * 256);
    for quad in mesh.vertices().chunks(4) {
        for p in quad {
            assert_eq!(p.position.1, 19);
        }
    }
}

#[test]
fn terrain_follows_the_heights_at_world_coordinates() {
    let f = field(hills);
    for (row, col) in [(0, 0), (16, 0), (0, 16), (112, 64), (240, 240)] {
        let blocks = chunk_gen(&f, row, col);
        assert!(is_chunk_shaped(&blocks));
        for x in 0..16 {
            for z in 0..16 {
                let h = hills(row + x, col + z);
                for y in 0..30 {
                    let expected = if y < h { BlockType::Grass } else { BlockType::Air };
                    assert_eq!(block_at(&blocks, x, y, z).block_type(), expected);
                }
            }
        }
    }
}

#[test]
fn extreme_heights_fill_or_empty_the_column() {
    let f = field(|gx, _| if gx % 2 == 0 { 0 } else { usize::MAX });
    let blocks = chunk_gen(&f, 0, 0);
    for y in 0..30 {
        assert_eq!(blocks[0][y][0].block_type(), BlockType::Air);
        assert_eq!(blocks[1][y][0].block_type(), BlockType::Grass);
    }
}

#[test]
fn regenerating_a_chunk_gives_the_same_grid() {
    let f = field(hills);
    for (row, col) in [(0, 0), (48, 160), (240, 0)] {
        assert_eq!(chunk_gen(&f, row, col), chunk_gen(&f, row, col));
    }
    // heights that agree on the chunk's columns give the same grid
    let other = field(|gx, gz| if gx < 16 && gz < 16 { hills(gx, gz) } else { 0 });
    assert_eq!(chunk_gen(&f, 0, 0), chunk_gen(&other, 0, 0));
    assert_ne!(chunk_gen(&f, 16, 0), chunk_gen(&other, 16, 0));
}

#[test]
fn touching_chunks_agree_along_their_seam() {
    let f = field(hills);
    let a = chunk_gen(&f, 32, 64);
    let up_x = chunk_gen(&f, 48, 64);
    let up_z = chunk_gen(&f, 32, 80);
    for y in 0..30 {
        for k in 0..16 {
            // what a reads across its +x edge is the world column at x = 48
            let across = up_x[0][y][k].block_type();
            let sampled = if y < hills(48, 64 + k) { BlockType::Grass } else { BlockType::Air };
            assert_eq!(across, sampled);
            // what the chunk at +x reads across its -x edge is a's last column
            let back = a[15][y][k].block_type();
            let sampled = if y < hills(47, 64 + k) { BlockType::Grass } else { BlockType::Air };
            assert_eq!(back, sampled);
            // and likewise along z
            let across = up_z[k][y][0].block_type();
            let sampled = if y < hills(32 + k, 80) { BlockType::Grass } else { BlockType::Air };
            assert_eq!(across, sampled);
        }
    }
}

#[test]
fn a_step_at_the_seam_shows_its_faces_once() {
    // height 12 up to world x = 15, height 8 from x = 16 on
    let f = field(|gx, _| if gx < 16 { 12 } else { 8 });
    let low_side = chunk_gen(&f, 16, 0);
    let high_side = chunk_gen(&f, 0, 0);
    // the high chunk shows four layers of right faces along the seam
    let high = build_chunk(&high_side, 0, 0, None, Some(&low_side), None, None).unwrap();
    assert_eq!(high.vertices().len(), 4 * (256 + 16 * 4));
    // the low chunk shows nothing there: grass lies behind its left faces
    let low = build_chunk(&low_side, 16, 0, Some(&high_side), None, None, None).unwrap();
    assert_eq!(low.vertices().len(), 4 * 256);
}

#[test]
fn grids_of_other_extents_are_told_apart() {
    let good = chunk_gen(&HeightField::flat(10), 0, 0);
    assert!(is_chunk_shaped(&good));
    assert!(!is_chunk_shaped(&Vec::new()));
    let mut short = good.clone();
    short.pop();
    assert!(!is_chunk_shaped(&short));
    let mut low = good.clone();
    low[15].pop();
    assert!(!is_chunk_shaped(&low));
    let mut shallow = good.clone();
    shallow[15][29].pop();
    assert!(!is_chunk_shaped(&shallow));
    let mut deep = good.clone();
    deep[0][0].push(Block::new(BlockType::Air));
    assert!(!is_chunk_shaped(&deep));
}
