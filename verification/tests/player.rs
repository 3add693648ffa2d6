use voxel_world::block::{Block, BlockType};
use voxel_world::player::{Key, KeyState, Look, Player, PlayerError, Step, UNITS_PER_BLOCK};
use voxel_world::terrain::{chunk_gen, HeightField};
use voxel_world::world::{chunk_offset, create_terrain, WorldGrid, WORLD_CHUNKS};

const STILL: Step = Step { dx: 0, dz: 0, fall: 0 };

/// A thousandth of a block, in offset units.
const MILLI: i64 = UNITS_PER_BLOCK / 1000;

/// A step given in thousandths of a block.
fn step(dx: i64, dz: i64, fall: i64) -> Step {
    Step { dx: dx * MILLI, dz: dz * MILLI, fall: fall * MILLI }
}

/// The player's offset in thousandths of a block.
fn local(p: &Player) -> (i64, i64, i64) {
    let l = p.local_pos();
    assert_eq!((l.0 % MILLI, l.1 % MILLI, l.2 % MILLI), (0, 0, 0));
    (l.0 / MILLI, l.1 / MILLI, l.2 / MILLI)
}

fn camera(p: &Player) -> (i64, i64, i64) {
    let w = p.world_pos();
    let l = p.local_pos();
    let c = (
        w.0 as i64 * UNITS_PER_BLOCK + l.0,
        w.1 as i64 * UNITS_PER_BLOCK + l.1,
        w.2 as i64 * UNITS_PER_BLOCK + l.2,
    );
    assert_eq!(p.camera_position(), (c.0 as i128, c.1 as i128, c.2 as i128));
    c
}

fn take(p: &mut Player, world: &WorldGrid, step: Step) -> Result<Look, PlayerError> {
    assert!(p.can_take(step));
    p.update_player(step, world)
}

#[test]
fn player_enters_the_world() {
    let p = Player::new();
    assert_eq!(p.world_pos(), (30, 29, 30));
    assert_eq!(local(&p), (500, 500, 0));
    assert_eq!(
        (p.amount_forward(), p.amount_backward(), p.amount_left(), p.amount_right()),
        (0, 0, 0, 0)
    );
    assert!(!p.jump());
    assert_eq!(p.jump_am(), 0);
}

#[test]
fn the_camera_stands_at_world_position_plus_offset() {
    let p = Player::new();
    assert_eq!(p.camera_position(), (30_500_000, 29_500_000, 30_000_000));
    assert_eq!(camera(&p), (30_500_000, 29_500_000, 30_000_000));
}

#[test]
fn keys_hold_and_release_the_axes() {
    let mut p = Player::new();
    for key in [Key::W, Key::Up] {
        assert!(p.process_keyboard(key, KeyState::Pressed));
        assert_eq!(p.amount_forward(), 1);
        assert!(p.process_keyboard(key, KeyState::Released));
        assert_eq!(p.amount_forward(), 0);
    }
    for key in [Key::S, Key::Down] {
        assert!(p.process_keyboard(key, KeyState::Pressed));
        assert_eq!(p.amount_backward(), 1);
        assert!(p.process_keyboard(key, KeyState::Released));
        assert_eq!(p.amount_backward(), 0);
    }
    for key in [Key::A, Key::Left] {
        assert!(p.process_keyboard(key, KeyState::Pressed));
        assert_eq!(p.amount_left(), 1);
        assert!(p.process_keyboard(key, KeyState::Released));
        assert_eq!(p.amount_left(), 0);
    }
    for key in [Key::D, Key::Right] {
        assert!(p.process_keyboard(key, KeyState::Pressed));
        assert_eq!(p.amount_right(), 1);
        assert!(p.process_keyboard(key, KeyState::Released));
        assert_eq!(p.amount_right(), 0);
    }
}

#[test]
fn keys_touch_only_their_own_axis() {
    let mut p = Player::new();
    p.process_keyboard(Key::W, KeyState::Pressed);
    p.process_keyboard(Key::D, KeyState::Pressed);
    assert_eq!(
        (p.amount_forward(), p.amount_backward(), p.amount_left(), p.amount_right()),
        (1, 0, 0, 1)
    );
    assert!(!p.jump());
    assert_eq!(p.world_pos(), (30, 29, 30));
    assert_eq!(local(&p), (500, 500, 0));
}

#[test]
fn space_asks_for_a_jump_either_way() {
    let mut p = Player::new();
    assert!(p.process_keyboard(Key::Space, KeyState::Released));
    assert!(p.jump());
    assert_eq!(p.jump_am(), 1);
    let mut p = Player::new();
    assert!(p.process_keyboard(Key::Space, KeyState::Pressed));
    assert!(p.jump());
    assert_eq!(p.jump_am(), 1);
}

#[test]
fn unknown_keys_change_nothing() {
    let mut p = Player::new();
    p.process_keyboard(Key::A, KeyState::Pressed);
    assert!(!p.process_keyboard(Key::Other, KeyState::Pressed));
    assert!(!p.process_keyboard(Key::Other, KeyState::Released));
    assert_eq!(
        (p.amount_forward(), p.amount_backward(), p.amount_left(), p.amount_right()),
        (0, 0, 1, 0)
    );
    assert!(!p.jump());
}

#[test]
fn look_rotation_is_handed_out_once() {
    let world = create_terrain(&HeightField::flat(10));
    let mut p = Player::new();
    p.process_mouse(9, 9);
    p.process_mouse(5, -3);
    assert_eq!(take(&mut p, &world, STILL), Ok(Look { horizontal: 5, vertical: -3 }));
    assert_eq!(take(&mut p, &world, STILL), Ok(Look { horizontal: 0, vertical: 0 }));
}

#[test]
fn a_step_moves_the_offset() {
    let world = create_terrain(&HeightField::flat(30));
    let mut p = Player::new();
    take(&mut p, &world, step(120, -70, 50)).unwrap();
    // the block two below is grass: no fall
    assert_eq!(local(&p), (620, 500, -70));
    assert_eq!(p.world_pos(), (30, 29, 30));
}

#[test]
fn offsets_pass_whole_blocks_to_the_world_position() {
    let world = create_terrain(&HeightField::flat(30));
    let mut p = Player::new();
    take(&mut p, &world, step(501, 1001, 0)).unwrap();
    assert_eq!(local(&p), (1, 500, 1));
    assert_eq!(p.world_pos(), (31, 29, 31));
    take(&mut p, &world, step(-1002, -1002, 0)).unwrap();
    assert_eq!(local(&p), (-1, 500, -1));
    assert_eq!(p.world_pos(), (30, 29, 30));
}

#[test]
fn an_offset_of_exactly_one_block_stays() {
    let world = create_terrain(&HeightField::flat(30));
    let mut p = Player::new();
    take(&mut p, &world, step(500, -1000, 0)).unwrap();
    assert_eq!(local(&p), (1000, 500, -1000));
    assert_eq!(p.world_pos(), (30, 29, 30));
    take(&mut p, &world, step(1, -1, 0)).unwrap();
    assert_eq!(local(&p), (1, 500, -1));
    assert_eq!(p.world_pos(), (31, 29, 29));
}

#[test]
fn an_update_passes_at_most_one_block() {
    let world = create_terrain(&HeightField::flat(30));
    let mut p = Player::new();
    take(&mut p, &world, step(3000, 0, 0)).unwrap();
    assert_eq!(local(&p), (2500, 500, 0));
    assert_eq!(p.world_pos(), (31, 29, 30));
    take(&mut p, &world, STILL).unwrap();
    assert_eq!(local(&p), (1500, 500, 0));
    assert_eq!(p.world_pos(), (32, 29, 30));
}

#[test]
fn the_player_falls_through_air_and_lands() {
    let world = create_terrain(&HeightField::flat(10));
    let mut p = Player::new();
    let fall = step(0, 0, 500);
    take(&mut p, &world, fall).unwrap();
    assert_eq!((p.world_pos().1, local(&p).1), (29, 0));
    take(&mut p, &world, fall).unwrap();
    assert_eq!((p.world_pos().1, local(&p).1), (29, -500));
    take(&mut p, &world, fall).unwrap();
    assert_eq!((p.world_pos().1, local(&p).1), (29, -1000));
    take(&mut p, &world, fall).unwrap();
    assert_eq!((p.world_pos().1, local(&p).1), (28, -500));
    for _ in 0..200 {
        take(&mut p, &world, fall).unwrap();
    }
    // grass up to layer 9: the fall ends where the block two below is grass
    assert_eq!(p.world_pos(), (30, 11, 30));
    let rest = local(&p);
    take(&mut p, &world, fall).unwrap();
    assert_eq!(local(&p), rest);
    assert_eq!(p.world_pos(), (30, 11, 30));
}

#[test]
fn a_step_up_x_is_refused_beside_solid_blocks() {
    let world = create_terrain(&HeightField::flat(30));
    let mut p = Player::new();
    // not near yet: the step is taken
    take(&mut p, &world, step(-450, 0, 0)).unwrap();
    assert_eq!(local(&p), (50, 500, 0));
    // near, pushing up x, grass beside feet and head: refused along x only
    take(&mut p, &world, step(20, 7, 0)).unwrap();
    assert_eq!(local(&p), (50, 500, 7));
    assert_eq!(p.world_pos(), (30, 29, 30));
    // a step of no more than a hundredth of a block is no push
    take(&mut p, &world, step(10, 7, 0)).unwrap();
    assert_eq!(local(&p), (60, 500, 14));
    // down x is never refused
    take(&mut p, &world, step(-20, 0, 0)).unwrap();
    assert_eq!(local(&p), (40, 500, 14));
    take(&mut p, &world, step(60, 0, 0)).unwrap();
    assert_eq!(local(&p), (40, 500, 14));
    // at a tenth of a block the player is no longer near
    for _ in 0..6 {
        take(&mut p, &world, step(10, 0, 0)).unwrap();
    }
    assert_eq!(local(&p), (100, 500, 14));
    take(&mut p, &world, step(300, 0, 0)).unwrap();
    assert_eq!(local(&p), (400, 500, 14));
}

#[test]
fn a_step_is_taken_where_the_probed_blocks_are_air() {
    let world = create_terrain(&HeightField::flat(10));
    let mut p = Player::new();
    take(&mut p, &world, step(-450, 0, 0)).unwrap();
    take(&mut p, &world, step(20, 7, 0)).unwrap();
    assert_eq!(local(&p), (70, 500, 7));
}

fn world_with(edit: impl Fn(&mut Vec<Vec<Vec<Vec<Block>>>>)) -> WorldGrid {
    let air = HeightField::flat(0);
    let mut grids: Vec<Vec<Vec<Vec<Block>>>> = (0..WORLD_CHUNKS)
        .map(|i| {
            let (row, col) = chunk_offset(i);
            chunk_gen(&air, row, col)
        })
        .collect();
    edit(&mut grids);
    WorldGrid::assemble(grids).unwrap()
}

fn refused(world: &WorldGrid) -> bool {
    let mut p = Player::new();
    take(&mut p, world, step(-450, 0, 0)).unwrap();
    take(&mut p, world, step(20, 0, 0)).unwrap();
    local(&p).0 == 50
}

#[test]
fn a_solid_block_beside_the_feet_refuses_the_step() {
    // the player stands in chunk 17 at (14, 29, 14) of the chunk; the block
    // beside the feet is one down z and one layer down
    let grass = Block::new(BlockType::Grass);
    assert!(refused(&world_with(|g| g[17][14][28][13] = grass)));
}

#[test]
fn a_solid_block_beside_the_head_refuses_the_step() {
    // the block beside the head is one down z, at the player's layer
    let grass = Block::new(BlockType::Grass);
    assert!(refused(&world_with(|g| g[17][14][29][13] = grass)));
}

#[test]
fn solid_blocks_elsewhere_refuse_nothing() {
    let grass = Block::new(BlockType::Grass);
    // two layers down, one column down x, the player's own column, up z
    assert!(!refused(&world_with(|g| g[17][14][27][13] = grass)));
    assert!(!refused(&world_with(|g| g[17][13][28][13] = grass)));
    assert!(!refused(&world_with(|g| g[17][15][29][13] = grass)));
    assert!(!refused(&world_with(|g| g[17][14][28][14] = grass)));
    assert!(!refused(&world_with(|g| g[17][14][29][15] = grass)));
    // the same places of the chunks around
    for chunk in [1, 16, 18, 33] {
        assert!(!refused(&world_with(|g| g[chunk][14][28][13] = grass)));
        assert!(!refused(&world_with(|g| g[chunk][14][29][13] = grass)));
    }
    // nothing solid at all
    assert!(!refused(&world_with(|_| ())));
}

#[test]
fn from_the_first_layer_the_probe_reads_the_last_layer_of_the_chunk_down_z() {
    let grass = Block::new(BlockType::Grass);
    let at_first_layer = |world: &WorldGrid| {
        let mut p = Player::new();
        // fourteen blocks down z, to z = 16: the first layer of chunk 17
        for _ in 0..14 {
            take(&mut p, world, step(0, -1001, 0)).unwrap();
            take(&mut p, world, step(0, 1, 0)).unwrap();
        }
        assert_eq!(p.world_pos(), (30, 29, 16));
        take(&mut p, world, step(-450, 0, 0)).unwrap();
        take(&mut p, world, step(20, 0, 0)).unwrap();
        local(&p).0 == 50
    };
    // the blocks beside the player lie at z = 15, in chunk 16
    assert!(at_first_layer(&world_with(|g| g[16][14][28][15] = grass)));
    assert!(at_first_layer(&world_with(|g| g[16][14][29][15] = grass)));
    assert!(!at_first_layer(&world_with(|g| g[18][14][28][15] = grass)));
    assert!(!at_first_layer(&world_with(|g| g[18][14][29][15] = grass)));
    assert!(!at_first_layer(&world_with(|g| g[17][14][28][15] = grass)));
    assert!(!at_first_layer(&world_with(|g| g[17][14][29][15] = grass)));
    assert!(!at_first_layer(&world_with(|g| g[16][14][28][14] = grass)));
    assert!(!at_first_layer(&world_with(|g| g[16][14][28][0] = grass)));
}

#[test]
fn a_refused_step_still_moves_along_z() {
    let grass = Block::new(BlockType::Grass);
    let world = world_with(|g| g[17][14][29][13] = grass);
    let mut p = Player::new();
    take(&mut p, &world, step(-450, 0, 0)).unwrap();
    let before = camera(&p);
    take(&mut p, &world, step(20, 300, 0)).unwrap();
    assert_eq!(local(&p), (50, 500, 300));
    assert_eq!(camera(&p), (before.0, before.1, before.2 + 300 * MILLI));
    // taken in full where the push is too small
    take(&mut p, &world, step(10, -300, 0)).unwrap();
    assert_eq!(local(&p), (60, 500, 0));
    // and where the player is not near
    take(&mut p, &world, step(40, 0, 0)).unwrap();
    assert_eq!(local(&p), (60, 500, 0));
    take(&mut p, &world, step(10, 0, 0)).unwrap();
    take(&mut p, &world, step(10, 0, 0)).unwrap();
    take(&mut p, &world, step(10, 0, 0)).unwrap();
    take(&mut p, &world, step(10, 0, 0)).unwrap();
    assert_eq!(local(&p), (100, 500, 0));
    take(&mut p, &world, step(40, 25, 0)).unwrap();
    assert_eq!(local(&p), (140, 500, 25));
}

#[test]
fn the_thresholds_of_the_refusal_are_exact_to_the_unit() {
    let grass = Block::new(BlockType::Grass);
    let world = world_with(|g| g[17][14][28][13] = grass);
    let near = 100 * MILLI;
    let push = 10 * MILLI;
    let half = 500 * MILLI;
    // one unit below the edge, one unit above the least push: refused
    let mut p = Player::new();
    take(&mut p, &world, Step { dx: near - 1 - half, dz: 0, fall: 0 }).unwrap();
    assert_eq!(p.local_pos().0, near - 1);
    take(&mut p, &world, Step { dx: push + 1, dz: 0, fall: 0 }).unwrap();
    assert_eq!(p.local_pos().0, near - 1);
    // the least push itself is no push
    take(&mut p, &world, Step { dx: push, dz: 0, fall: 0 }).unwrap();
    assert_eq!(p.local_pos().0, near - 1 + push);
    // at the edge itself the player is not near
    let mut p = Player::new();
    take(&mut p, &world, Step { dx: near - half, dz: 0, fall: 0 }).unwrap();
    assert_eq!(p.local_pos().0, near);
    take(&mut p, &world, Step { dx: push + 1, dz: 0, fall: 0 }).unwrap();
    assert_eq!(p.local_pos().0, near + push + 1);
}

#[test]
fn offsets_pass_a_block_one_unit_past_it() {
    let world = create_terrain(&HeightField::flat(30));
    let half = UNITS_PER_BLOCK / 2;
    let mut p = Player::new();
    take(&mut p, &world, Step { dx: half, dz: -UNITS_PER_BLOCK, fall: 0 }).unwrap();
    assert_eq!(p.local_pos(), (UNITS_PER_BLOCK, half, -UNITS_PER_BLOCK));
    assert_eq!(p.world_pos(), (30, 29, 30));
    take(&mut p, &world, Step { dx: 1, dz: -1, fall: 0 }).unwrap();
    assert_eq!(p.local_pos(), (1, half, -1));
    assert_eq!(p.world_pos(), (31, 29, 29));
}

#[test]
fn gravity_reads_the_chunk_in_which_the_update_began() {
    // a floor under the last column along x of chunk 17 only
    let grass = Block::new(BlockType::Grass);
    let world = world_with(|g| g[17][0][27][14] = grass);
    let mut p = Player::new();
    take(&mut p, &world, step(499, 0, 0)).unwrap();
    assert_eq!(local(&p), (999, 500, 0));
    // x = 31, the last column of chunk 17
    take(&mut p, &world, step(2, 0, 0)).unwrap();
    assert_eq!(p.world_pos(), (31, 29, 30));
    // this update takes the player to x = 32, in chunk 33; the block two
    // below is read at column 0 of chunk 17, where the floor is
    take(&mut p, &world, step(1000, 0, 300)).unwrap();
    assert_eq!(p.world_pos(), (32, 29, 30));
    assert_eq!(local(&p), (1, 500, 0));
    // the next one begins in chunk 33, which is all air
    take(&mut p, &world, step(0, 0, 300)).unwrap();
    assert_eq!(local(&p), (1, 200, 0));
}

#[test]
fn falling_below_the_chunk_is_an_error() {
    let world = create_terrain(&HeightField::flat(0));
    let mut p = Player::new();
    let fall = step(0, 0, 999);
    let mut steps = 0;
    while p.world_pos().1 >= 2 {
        take(&mut p, &world, fall).unwrap();
        steps += 1;
        assert!(steps < 100);
    }
    assert_eq!(p.world_pos().1, 1);
    let before = (p.world_pos(), local(&p));
    p.process_mouse(4, 4);
    assert_eq!(take(&mut p, &world, fall), Err(PlayerError::HeightOutOfRange));
    assert_eq!((p.world_pos(), local(&p)), before);
    // the look rotation is still pending
    assert_eq!(take(&mut p, &world, fall), Err(PlayerError::HeightOutOfRange));
}

#[test]
fn walking_into_a_chunk_at_the_edge_of_the_world_is_an_error() {
    let world = create_terrain(&HeightField::flat(30));
    let mut p = Player::new();
    let down_x = step(-1001, 0, 0);
    let mut steps = 0;
    while p.world_pos().0 >= 16 {
        take(&mut p, &world, down_x).unwrap();
        steps += 1;
        assert!(steps < 100);
    }
    assert_eq!(p.world_pos(), (15, 29, 30));
    let before = local(&p);
    assert_eq!(take(&mut p, &world, down_x), Err(PlayerError::ChunkOutOfRange));
    assert_eq!(p.world_pos(), (15, 29, 30));
    assert_eq!(local(&p), before);
}

#[test]
fn walking_to_the_far_edge_of_the_world_is_an_error() {
    let world = create_terrain(&HeightField::flat(30));
    let mut p = Player::new();
    let up_z = step(0, 1001, 0);
    let mut steps = 0;
    while p.world_pos().2 < 240 {
        take(&mut p, &world, up_z).unwrap();
        steps += 1;
        assert!(steps < 300);
    }
    assert_eq!(p.world_pos(), (30, 29, 240));
    assert_eq!(take(&mut p, &world, up_z), Err(PlayerError::ChunkOutOfRange));
}

#[test]
fn the_chunk_is_checked_before_the_height() {
    let world = create_terrain(&HeightField::flat(0));
    let mut p = Player::new();
    // fall to the lowest layer from which the player can be moved
    while p.world_pos().1 > 2 {
        take(&mut p, &world, step(0, 0, 999)).unwrap();
    }
    // walk to the edge chunk, falling out of range on the way
    while p.world_pos().0 >= 16 && p.world_pos().1 >= 2 {
        take(&mut p, &world, step(-1001, 0, 0)).unwrap();
    }
    assert_eq!(p.world_pos(), (15, 2, 30));
    assert_eq!(take(&mut p, &world, STILL), Err(PlayerError::ChunkOutOfRange));
}

#[test]
fn the_camera_moves_by_what_was_applied() {
    let world = create_terrain(&HeightField::flat(10));
    let mut p = Player::new();
    let steps = [
        step(300, -900, 400),
        step(900, -900, 400),
        step(-999, 999, 999),
        step(250, 0, 0),
        step(-1, 1, 1),
    ];
    for step in steps {
        let before = camera(&p);
        let world_before = p.world_pos();
        take(&mut p, &world, step).unwrap();
        let after = camera(&p);
        // nothing is solid near the player here, and air lies below
        assert_eq!(after, (before.0 + step.dx, before.1 - step.fall, before.2 + step.dz));
        let l = p.local_pos();
        for offset in [l.0, l.1, l.2] {
            assert!(-UNITS_PER_BLOCK <= offset && offset < UNITS_PER_BLOCK);
        }
        let w = p.world_pos();
        assert!(w.0.abs_diff(world_before.0) <= 1);
        assert!(w.2.abs_diff(world_before.2) <= 1);
        assert!(w.1 <= world_before.1 && world_before.1 - w.1 <= 1);
    }
}

#[test]
fn steps_that_would_overflow_are_told_apart() {
    let mut p = Player::new();
    let half = UNITS_PER_BLOCK / 2;
    assert!(p.can_take(Step { dx: i64::MAX - half, dz: i64::MAX, fall: i64::MIN + half + 1 }));
    assert!(!p.can_take(Step { dx: i64::MAX - half + 1, dz: 0, fall: 0 }));
    assert!(!p.can_take(Step { dx: 0, dz: 0, fall: i64::MIN + half }));
    assert!(p.can_take(Step { dx: i64::MIN, dz: i64::MIN, fall: i64::MAX }));
    let world = create_terrain(&HeightField::flat(30));
    take(&mut p, &world, Step { dx: 0, dz: -1, fall: 0 }).unwrap();
    assert!(!p.can_take(Step { dx: 0, dz: i64::MIN, fall: 0 }));
}
