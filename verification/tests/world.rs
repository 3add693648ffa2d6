use voxel_world::atlas::MeshError;
use voxel_world::block::{Block, BlockType};
use voxel_world::mesh::build_chunk;
use voxel_world::terrain::{chunk_gen, HeightField, WORLD_SIDE};
use voxel_world::world::{chunk_offset, create_terrain, neighbors, Neighbors, WorldError, WorldGrid, WORLD_CHUNKS};

fn field(height_of: impl Fn(usize, usize) -> usize) -> HeightField {
    let samples: Vec<Vec<usize>> = (0..WORLD_SIDE)
        .map(|gx| (0..WORLD_SIDE).map(|gz| height_of(gx, gz)).collect())
        .collect();
    HeightField::new(samples).unwrap()
}

fn grids_of(f: &HeightField) -> Vec<Vec<Vec<Vec<Block>>>> {
    (0..WORLD_CHUNKS)
        .map(|i| {
            let (row, col) = chunk_offset(i);
            chunk_gen(f, row, col)
        })
        .collect()
}

#[test]
fn chunk_offsets_follow_the_lattice() {
    assert_eq!(chunk_offset(0), (0, 0));
    assert_eq!(chunk_offset(1), (0, 16));
    assert_eq!(chunk_offset(15), (0, 240));
    assert_eq!(chunk_offset(16), (16, 0));
    assert_eq!(chunk_offset(37), (32, 80));
    assert_eq!(chunk_offset(255), (240, 240));
}

#[test]
fn corner_chunk_zero_has_no_front_and_no_right_neighbour() {
    assert_eq!(
        neighbors(0),
        Neighbors { front: None, back: Some(16), left: Some(1), right: None }
    );
}

#[test]
fn neighbours_inside_the_lattice() {
    assert_eq!(
        neighbors(37),
        Neighbors { front: Some(21), back: Some(53), left: Some(38), right: Some(36) }
    );
}

#[test]
fn neighbours_at_the_edges_of_the_lattice() {
    assert_eq!(
        neighbors(15),
        Neighbors { front: None, back: Some(31), left: None, right: Some(14) }
    );
    assert_eq!(
        neighbors(16),
        Neighbors { front: Some(0), back: Some(32), left: Some(17), right: None }
    );
    assert_eq!(
        neighbors(31),
        Neighbors { front: Some(15), back: Some(47), left: None, right: Some(30) }
    );
    assert_eq!(
        neighbors(240),
        Neighbors { front: Some(224), back: None, left: Some(241), right: None }
    );
    assert_eq!(
        neighbors(255),
        Neighbors { front: Some(239), back: None, left: None, right: Some(254) }
    );
}

#[test]
fn flat_world_shows_one_top_face_per_column() {
    let world = create_terrain(&HeightField::flat(10));
    for i in [0, 1, 15, 16, 100, 255] {
        let chunk = world.chunk(i);
        assert_eq!(chunk.mesh().vertices().len(), 4 * 256);
        assert_eq!(chunk.mesh().indices().len(), 6 * 256);
        assert_eq!(chunk.mesh().num_elements(), 6 * 256);
        let (row, col) = chunk_offset(i);
        assert_eq!(chunk.blocks(), &chunk_gen(&HeightField::flat(10), row, col));
        let first = chunk.mesh().vertices()[0];
        assert_eq!(first.position, (2 * row as i64 - 1, 19, 2 * col as i64 - 1));
    }
}

#[test]
fn every_chunk_is_meshed_against_its_lattice_neighbours() {
    let f = field(|gx, gz| 5 + (gx / 3 + gz / 5) % 9);
    let world = create_terrain(&f);
    let grids = grids_of(&f);
    for i in 0..WORLD_CHUNKS {
        let around = neighbors(i);
        let (row, col) = chunk_offset(i);
        let expected = build_chunk(
            &grids[i],
            row as i32,
            col as i32,
            around.front.map(|j| &grids[j]),
            around.back.map(|j| &grids[j]),
            around.left.map(|j| &grids[j]),
            around.right.map(|j| &grids[j]),
        )
        .unwrap();
        assert_eq!(world.chunk(i).mesh(), &expected);
        assert_eq!(world.chunk(i).blocks(), &grids[i]);
        let mesh = world.chunk(i).mesh();
        assert_eq!(mesh.indices().len() * 2, mesh.vertices().len() * 3);
    }
}

#[test]
fn corner_chunk_suppresses_the_faces_at_the_edge_of_the_world() {
    // chunk 0 stands higher than the rest of the world
    let f = field(|gx, gz| if gx < 16 && gz < 16 { 10 } else { 5 });
    let world = create_terrain(&f);
    let mesh = world.chunk(0).mesh();
    // tops, and five layers of faces towards each of its two neighbours;
    // none towards the edge of the world
    assert_eq!(mesh.vertices().len(), 4 * (256 + 80 + 80));
    for quad in mesh.vertices().chunks(4) {
        // no quad lies in the outer planes x = -1/2 and z = -1/2
        assert!(!quad.iter().all(|p| p.position.0 == -1));
        assert!(!quad.iter().all(|p| p.position.2 == -1));
    }
    let grids = grids_of(&f);
    let direct = build_chunk(&grids[0], 0, 0, None, Some(&grids[16]), Some(&grids[1]), None).unwrap();
    assert_eq!(mesh, &direct);
}

#[test]
fn assemble_agrees_with_create_terrain() {
    let f = field(|gx, gz| (gx + gz) % 30);
    let assembled = WorldGrid::assemble(grids_of(&f)).unwrap();
    let created = create_terrain(&f);
    for i in 0..WORLD_CHUNKS {
        assert_eq!(assembled.chunk(i).blocks(), created.chunk(i).blocks());
        assert_eq!(assembled.chunk(i).mesh(), created.chunk(i).mesh());
    }
}

#[test]
fn assemble_wants_every_chunk() {
    let mut grids = grids_of(&HeightField::flat(3));
    grids.pop();
    assert_eq!(WorldGrid::assemble(grids).err(), Some(WorldError::ChunkCount(255)));
    assert_eq!(WorldGrid::assemble(Vec::new()).err(), Some(WorldError::ChunkCount(0)));
    let mut grids = grids_of(&HeightField::flat(3));
    grids.push(chunk_gen(&HeightField::flat(3), 0, 0));
    assert_eq!(WorldGrid::assemble(grids).err(), Some(WorldError::ChunkCount(257)));
}

#[test]
fn assemble_wants_chunk_shaped_grids() {
    let mut grids = grids_of(&HeightField::flat(3));
    grids[200][4][7].pop();
    grids[77].pop();
    assert_eq!(WorldGrid::assemble(grids).err(), Some(WorldError::ChunkShape(77)));
}

#[test]
fn assemble_names_the_first_chunk_that_cannot_be_meshed() {
    let mut grids = grids_of(&HeightField::flat(3));
    grids[90][8][3][8] = Block::new(BlockType::Water);
    grids[40][2][3][2] = Block::new(BlockType::Stone);
    assert_eq!(
        WorldGrid::assemble(grids).err(),
        Some(WorldError::Mesh(40, MeshError::UnsupportedBlock(BlockType::Stone)))
    );
}

#[test]
fn a_block_without_sprite_at_an_edge_fails_the_chunk_that_shows_it() {
    // stone in the last column of chunk 0 against air in chunk 16
    let mut grids = grids_of(&field(|gx, _| if gx < 16 { 10 } else { 5 }));
    grids[0][15][7][4] = Block::new(BlockType::Stone);
    assert_eq!(
        WorldGrid::assemble(grids).err(),
        Some(WorldError::Mesh(0, MeshError::UnsupportedBlock(BlockType::Stone)))
    );
}
