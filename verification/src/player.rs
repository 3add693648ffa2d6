//! The player: held keys, pending look rotation, and a position that is
//! moved through the world one frame at a time.
//!
//! The position is a block of the world (`world_pos`) and an offset from it
//! (`local_pos`) in millionths of a block. When the offset exceeds one block
//! on an axis, one block passes from the offset into `world_pos`. The camera
//! stands at `world_pos + local_pos`.
//!
//! What needs angles, speeds and elapsed time is worked out by the caller,
//! who hands each frame's displacement in as a `Step`.
//!
//! Collision is one-sided: only the part of a step that goes up x is ever
//! refused, on the evidence of the two blocks beside the player's feet and
//! head. Steps down x and along z pass through solid blocks.

use vstd::prelude::*;
use crate::block::{solid, BlockType};
use crate::grid::{block_at, Grid};
use crate::world::{back_of, front_of, left_of, neighbors, right_of, WorldGrid, WORLD_CHUNKS};

verus! {

/// Offset units to the block: the offset is counted in millionths.
pub const UNITS_PER_BLOCK: i64 = 1_000_000;

/// With an offset along x below this, a tenth of a block, the player is
/// stopped by a solid block on the probed side.
pub const NEAR_EDGE: i64 = 100_000;

/// A displacement along x must exceed this to count as running into a
/// block: a hundredth of a block.
pub const MIN_PUSH: i64 = 10_000;

/// The keys that the player knows, and one for all the others.
#[derive(Copy, Clone, Debug, PartialEq, Eq, Structural)]
pub enum Key {
    W,
    Up,
    S,
    Down,
    A,
    Left,
    D,
    Right,
    Space,
    Other,
}

/// Whether a key went down or came up.
#[derive(Copy, Clone, Debug, PartialEq, Eq, Structural)]
pub enum KeyState {
    Pressed,
    Released,
}

/// What one frame asks of the player's position, in offset units: the
/// displacement along x and z, and how far the player falls if nothing holds
/// them up.
#[derive(Copy, Clone, Debug, PartialEq, Eq)]
pub struct Step {
    pub dx: i64,
    pub dz: i64,
    pub fall: i64,
}

/// The look rotation handed out by one update, in the units in which it was
/// handed in.
#[derive(Copy, Clone, Debug, PartialEq, Eq)]
pub struct Look {
    pub horizontal: i64,
    pub vertical: i64,
}

/// Why the player could not be moved.
#[derive(Copy, Clone, Debug, PartialEq, Eq, Structural)]
pub enum PlayerError {
    /// The player stands outside the world, or in a chunk at its edge, which
    /// lacks a neighbour.
    ChunkOutOfRange,
    /// The player stands too low or too high for the blocks around their
    /// feet to lie in the chunk.
    HeightOutOfRange,
}

/// The player.
#[derive(Debug)]
pub struct Player {
    amount_left: i64,
    amount_right: i64,
    amount_forward: i64,
    amount_backward: i64,
    rotate_horizontal: i64,
    rotate_vertical: i64,
    jump: bool,
    jump_am: i64,
    local_pos: (i64, i64, i64),
    world_pos: (usize, usize, usize),
}

/// The model of the player.
pub struct PlayerModel {
    /// 1 while the key for that direction is held, else 0.
    pub amount_left: int,
    pub amount_right: int,
    pub amount_forward: int,
    pub amount_backward: int,
    /// The look rotation that the next update hands out.
    pub rotate_horizontal: int,
    pub rotate_vertical: int,
    /// Whether a jump was asked for, and its amount.
    pub jump: bool,
    pub jump_am: int,
    /// The offset from `world_pos`, in offset units, as `(x, y, z)`.
    pub local_pos: (int, int, int),
    /// The block of the world, as `(x, y, z)`.
    pub world_pos: (int, int, int),
}

impl View for Player {
    type V = PlayerModel;

    closed spec fn view(&self) -> PlayerModel {
        PlayerModel {
            amount_left: self.amount_left as int,
            amount_right: self.amount_right as int,
            amount_forward: self.amount_forward as int,
            amount_backward: self.amount_backward as int,
            rotate_horizontal: self.rotate_horizontal as int,
            rotate_vertical: self.rotate_vertical as int,
            jump: self.jump,
            jump_am: self.jump_am as int,
            local_pos: (
                self.local_pos.0 as int,
                self.local_pos.1 as int,
                self.local_pos.2 as int,
            ),
            world_pos: (
                self.world_pos.0 as int,
                self.world_pos.1 as int,
                self.world_pos.2 as int,
            ),
        }
    }
}

/// The player as they enter the world.
pub open spec fn initial_player() -> PlayerModel {
    PlayerModel {
        amount_left: 0,
        amount_right: 0,
        amount_forward: 0,
        amount_backward: 0,
        rotate_horizontal: 0,
        rotate_vertical: 0,
        jump: false,
        jump_am: 0,
        local_pos: (500_000, 500_000, 0),
        world_pos: (30, 29, 30),
    }
}

/// 1 for a key that went down, 0 for one that came up.
pub open spec fn key_amount(state: KeyState) -> int {
    if state is Pressed {
        1
    } else {
        0
    }
}

/// The player after a key event. `W` and `Up` hold forward, `S` and `Down`
/// backward, `A` and `Left` left, `D` and `Right` right. `Space` asks for a
/// jump, whether it went down or came up. Other keys change nothing.
pub open spec fn after_key(p: PlayerModel, key: Key, state: KeyState) -> PlayerModel {
    match key {
        Key::W | Key::Up => PlayerModel { amount_forward: key_amount(state), ..p },
        Key::S | Key::Down => PlayerModel { amount_backward: key_amount(state), ..p },
        Key::A | Key::Left => PlayerModel { amount_left: key_amount(state), ..p },
        Key::D | Key::Right => PlayerModel { amount_right: key_amount(state), ..p },
        Key::Space => PlayerModel { jump: true, jump_am: 1, ..p },
        Key::Other => p,
    }
}

/// The index of the chunk in which the player stands.
pub open spec fn player_chunk(p: PlayerModel) -> int {
    chunk_of(p.world_pos.0, p.world_pos.2)
}

/// The player stands in the world, in a chunk that has all four lattice
/// neighbours.
pub open spec fn chunk_in_range(p: PlayerModel) -> bool {
    let cur = player_chunk(p);
    &&& 0 <= p.world_pos.0 < 256
    &&& 0 <= p.world_pos.2 < 256
    &&& front_of(cur) is Some
    &&& back_of(cur) is Some
    &&& left_of(cur) is Some
    &&& right_of(cur) is Some
}

/// The blocks at the player's feet, at their head and two below lie in the
/// chunk.
pub open spec fn height_in_range(p: PlayerModel) -> bool {
    2 <= p.world_pos.1 <= 29
}

/// Why the player cannot be moved from where they stand, if they cannot.
pub open spec fn position_error(p: PlayerModel) -> Option<PlayerError> {
    if !chunk_in_range(p) {
        Some(PlayerError::ChunkOutOfRange)
    } else if !height_in_range(p) {
        Some(PlayerError::HeightOutOfRange)
    } else {
        None
    }
}

/// The index of the chunk that holds the world column at `(gx, gz)`.
pub open spec fn chunk_of(gx: int, gz: int) -> int {
    gz / 16 + 16 * (gx / 16)
}

/// The block of the world at `(gx, y, gz)`, read from the grid of the chunk
/// that holds it.
pub open spec fn world_block(grids: Seq<Grid>, gx: int, y: int, gz: int) -> BlockType {
    grids[chunk_of(gx, gz)][gx % 16][y][gz % 16]
}

/// The block beside the player's feet: one block down z from the player,
/// one layer below them.
pub open spec fn beside_feet(p: PlayerModel, grids: Seq<Grid>) -> BlockType {
    world_block(grids, p.world_pos.0, p.world_pos.1 - 1, p.world_pos.2 - 1)
}

/// The block beside the player's head: one block down z from the player, at
/// the player's own layer.
pub open spec fn beside_head(p: PlayerModel, grids: Seq<Grid>) -> BlockType {
    world_block(grids, p.world_pos.0, p.world_pos.1, p.world_pos.2 - 1)
}

/// One of the two blocks probed before the player moves is solid: the one
/// beside the feet or the one beside the head.
pub open spec fn probed_solid(p: PlayerModel, grids: Seq<Grid>) -> bool {
    solid(beside_feet(p, grids)) || solid(beside_head(p, grids))
}

/// The step is refused along x: the player's offset along x is below
/// `NEAR_EDGE`, a probed block is solid, and the step pushes up x by more than
/// `MIN_PUSH`. Nothing else is ever refused.
pub open spec fn blocked(p: PlayerModel, step: Step, grids: Seq<Grid>) -> bool {
    p.local_pos.0 < NEAR_EDGE && probed_solid(p, grids) && step.dx > MIN_PUSH
}

/// An offset after it has given at most one block to the world position.
pub open spec fn settled(offset: int) -> int {
    if offset > UNITS_PER_BLOCK {
        offset - UNITS_PER_BLOCK
    } else if offset < -UNITS_PER_BLOCK {
        offset + UNITS_PER_BLOCK
    } else {
        offset
    }
}

/// The block that an offset gives to the world position: one up, one down,
/// or none.
pub open spec fn carried(offset: int) -> int {
    if offset > UNITS_PER_BLOCK {
        1
    } else if offset < -UNITS_PER_BLOCK {
        -1
    } else {
        0
    }
}

/// The displacement along x and z that is applied: the step's, without its
/// part along x if that is refused.
pub open spec fn applied(p: PlayerModel, step: Step, grids: Seq<Grid>) -> (int, int) {
    if blocked(p, step, grids) {
        (0, step.dz as int)
    } else {
        (step.dx as int, step.dz as int)
    }
}

/// The player after the horizontal part of an update.
pub open spec fn moved(p: PlayerModel, step: Step, grids: Seq<Grid>) -> PlayerModel {
    let x = p.local_pos.0 + applied(p, step, grids).0;
    let z = p.local_pos.2 + applied(p, step, grids).1;
    PlayerModel {
        local_pos: (settled(x), p.local_pos.1, settled(z)),
        world_pos: (p.world_pos.0 + carried(x), p.world_pos.1, p.world_pos.2 + carried(z)),
        ..p
    }
}

/// The player falls: the block two below them is air. It is read from the
/// chunk in which the update began, at the player's place after the
/// horizontal part.
pub open spec fn falls(p: PlayerModel, step: Step, grids: Seq<Grid>) -> bool {
    let m = moved(p, step, grids);
    grids[player_chunk(p)][m.world_pos.0 % 16][m.world_pos.1 - 2][m.world_pos.2 % 16]
        == BlockType::Air
}

/// How far the player falls in this update.
pub open spec fn fallen(p: PlayerModel, step: Step, grids: Seq<Grid>) -> int {
    if falls(p, step, grids) {
        step.fall as int
    } else {
        0
    }
}

/// The offset along y gives a block to the world position: the player
/// falls, and the fall takes the offset below the block.
pub open spec fn drops(p: PlayerModel, step: Step, grids: Seq<Grid>) -> bool {
    falls(p, step, grids) && p.local_pos.1 - step.fall < -UNITS_PER_BLOCK
}

/// The player after an update from a place where they can be moved.
pub open spec fn updated(p: PlayerModel, step: Step, grids: Seq<Grid>) -> PlayerModel {
    let m = moved(p, step, grids);
    let y = p.local_pos.1 - fallen(p, step, grids);
    PlayerModel {
        local_pos: (
            m.local_pos.0,
            if drops(p, step, grids) {
                y + UNITS_PER_BLOCK
            } else {
                y
            },
            m.local_pos.2,
        ),
        world_pos: (
            m.world_pos.0,
            if drops(p, step, grids) {
                p.world_pos.1 - 1
            } else {
                p.world_pos.1
            },
            m.world_pos.2,
        ),
        rotate_horizontal: 0,
        rotate_vertical: 0,
        ..p
    }
}

/// The sums that an update forms fit the offset's type.
pub open spec fn step_fits(p: PlayerModel, step: Step) -> bool {
    &&& i64::MIN <= p.local_pos.0 + step.dx <= i64::MAX
    &&& i64::MIN <= p.local_pos.2 + step.dz <= i64::MAX
    &&& i64::MIN <= p.local_pos.1 - step.fall <= i64::MAX
}

/// Where the camera stands, in offset units.
pub open spec fn camera_position(p: PlayerModel) -> (int, int, int) {
    (
        1_000_000 * p.world_pos.0 + p.local_pos.0,
        1_000_000 * p.world_pos.1 + p.local_pos.1,
        1_000_000 * p.world_pos.2 + p.local_pos.2,
    )
}

/// An offset lies in `[-1, 1)` blocks.
pub open spec fn in_block(offset: int) -> bool {
    -UNITS_PER_BLOCK <= offset < UNITS_PER_BLOCK
}

impl Player {
    #[verifier::type_invariant]
    spec fn binary_axes(self) -> bool {
        &&& 0 <= self.amount_left <= 1
        &&& 0 <= self.amount_right <= 1
        &&& 0 <= self.amount_forward <= 1
        &&& 0 <= self.amount_backward <= 1
        &&& 0 <= self.jump_am <= 1
    }

    /// The player as they enter the world.
    pub fn new() -> (player: Player)
        ensures
            player@ == initial_player(),
    {
        Player {
            amount_left: 0,
            amount_right: 0,
            amount_forward: 0,
            amount_backward: 0,
            rotate_horizontal: 0,
            rotate_vertical: 0,
            jump: false,
            jump_am: 0,
            local_pos: (500_000, 500_000, 0),  // x, y, z
            world_pos: (30, 29, 30),  // x, y, z
        }
    }

    /// Takes a key event. Tells whether the key is one that the player knows.
    pub fn process_keyboard(&mut self, key: Key, state: KeyState) -> (known: bool)
        ensures
            final(self)@ == after_key(old(self)@, key, state),
            known == !(key is Other),
    {
        let amount: i64 = match state {
            KeyState::Pressed => 1,
            KeyState::Released => 0,
        };
        proof {
            use_type_invariant(&*self);
        }
        match key {
            Key::W | Key::Up => {
                self.amount_forward = amount;
                true
            },
            Key::S | Key::Down => {
                self.amount_backward = amount;
                true
            },
            Key::A | Key::Left => {
                self.amount_left = amount;
                true
            },
            Key::D | Key::Right => {
                self.amount_right = amount;
                true
            },
            Key::Space => {
                self.jump = true;
                self.jump_am = 1;
                true
            },
            Key::Other => false,
        }
    }

    /// The block of the world in which the player stands, as `(x, y, z)`.
    pub fn world_pos(&self) -> (r: (usize, usize, usize))
        ensures
            (r.0 as int, r.1 as int, r.2 as int) == self@.world_pos,
    {
        self.world_pos
    }

    /// The player's offset from that block, in offset units, as `(x, y, z)`.
    pub fn local_pos(&self) -> (r: (i64, i64, i64))
        ensures
            (r.0 as int, r.1 as int, r.2 as int) == self@.local_pos,
    {
        self.local_pos
    }

    /// Where the camera stands, in offset units: the world position plus the
    /// offset, axis by axis.
    pub fn camera_position(&self) -> (r: (i128, i128, i128))
        ensures
            (r.0 as int, r.1 as int, r.2 as int) == camera_position(self@),
    {
        (
            1_000_000 * (self.world_pos.0 as i128) + self.local_pos.0 as i128,
            1_000_000 * (self.world_pos.1 as i128) + self.local_pos.1 as i128,
            1_000_000 * (self.world_pos.2 as i128) + self.local_pos.2 as i128,
        )
    }

    /// 1 while a key for forward is held, else 0.
    pub fn amount_forward(&self) -> (r: i64)
        ensures
            r == self@.amount_forward,
            0 <= r <= 1,
    {
        proof {
            use_type_invariant(self);
        }
        self.amount_forward
    }

    /// 1 while a key for backward is held, else 0.
    pub fn amount_backward(&self) -> (r: i64)
        ensures
            r == self@.amount_backward,
            0 <= r <= 1,
    {
        proof {
            use_type_invariant(self);
        }
        self.amount_backward
    }

    /// 1 while a key for left is held, else 0.
    pub fn amount_left(&self) -> (r: i64)
        ensures
            r == self@.amount_left,
            0 <= r <= 1,
    {
        proof {
            use_type_invariant(self);
        }
        self.amount_left
    }

    /// 1 while a key for right is held, else 0.
    pub fn amount_right(&self) -> (r: i64)
        ensures
            r == self@.amount_right,
            0 <= r <= 1,
    {
        proof {
            use_type_invariant(self);
        }
        self.amount_right
    }

    /// Whether a jump was asked for.
    pub fn jump(&self) -> (r: bool)
        ensures
            r == self@.jump,
    {
        self.jump
    }

    /// The amount of the jump asked for: 1 once one was, else 0.
    pub fn jump_am(&self) -> (r: i64)
        ensures
            r == self@.jump_am,
            0 <= r <= 1,
    {
        proof {
            use_type_invariant(self);
        }
        self.jump_am
    }

    /// Tells whether the sums that an update by `step` forms fit the offset's
    /// type, which `update_player` asks of its caller.
    pub fn can_take(&self, step: Step) -> (fits: bool)
        ensures
            fits == step_fits(self@, step),
    {
        let x = self.local_pos.0;
        let y = self.local_pos.1;
        let z = self.local_pos.2;
        let x_fits = if step.dx >= 0 {
            x <= i64::MAX - step.dx
        } else {
            x >= i64::MIN - step.dx
        };
        let z_fits = if step.dz >= 0 {
            z <= i64::MAX - step.dz
        } else {
            z >= i64::MIN - step.dz
        };
        let y_fits = if step.fall >= 0 {
            y >= i64::MIN + step.fall
        } else {
            y <= i64::MAX + step.fall
        };
        x_fits && z_fits && y_fits
    }

    /// Moves the player by one frame's step through `chunks`, and hands out
    /// the pending look rotation.
    ///
    /// Fails, and changes nothing, where the player cannot be moved from where
    /// they stand. Otherwise the step is applied along z, and along x unless
    /// that is refused, each of the two offsets gives at most one block to the world
    /// position, the player falls by the step's fall if the block two below
    /// them is air, the offset along y gives at most one block downwards, and
    /// the pending look rotation becomes zero.
    pub fn update_player(&mut self, step: Step, chunks: &WorldGrid) -> (r: Result<
        Look,
        PlayerError,
    >)
        requires
            step_fits(old(self)@, step),
        ensures
            match r {
                Ok(look) => {
                    &&& position_error(old(self)@) is None
                    &&& final(self)@ == updated(old(self)@, step, chunks.grids())
                    &&& look.horizontal == old(self)@.rotate_horizontal
                    &&& look.vertical == old(self)@.rotate_vertical
                },
                Err(e) => position_error(old(self)@) == Some(e) && final(self)@ == old(self)@,
            },
    {
        self.update_camera(step, chunks)
    }

    /// The update itself: `update_player` hands its arguments on to it.
    pub fn update_camera(&mut self, step: Step, chunks: &WorldGrid) -> (r: Result<
        Look,
        PlayerError,
    >)
        requires
            step_fits(old(self)@, step),
        ensures
            match r {
                Ok(look) => {
                    &&& position_error(old(self)@) is None
                    &&& final(self)@ == updated(old(self)@, step, chunks.grids())
                    &&& look.horizontal == old(self)@.rotate_horizontal
                    &&& look.vertical == old(self)@.rotate_vertical
                },
                Err(e) => position_error(old(self)@) == Some(e) && final(self)@ == old(self)@,
            },
    {
        proof {
            use_type_invariant(&*self);
        }
        let ghost before = self@;
        let ghost grids = chunks.grids();
        // get chunks
        let cur_chunk_index = match resolve_chunk(self.world_pos) {
            Ok(index) => index,
            Err(e) => {
                return Err(e);
            },
        };
        // check if can move right
        let probed = probe(chunks, cur_chunk_index, self.world_pos);
        assert(probed == probed_solid(before, grids));
        let mut local = self.local_pos;
        let mut world = self.world_pos;
        if !(local.0 < NEAR_EDGE && probed && step.dx > MIN_PUSH) {
            local.0 = local.0 + step.dx;
        }
        local.2 = local.2 + step.dz;
        let (local_x, world_x) = carry(local.0, world.0);
        let (local_z, world_z) = carry(local.2, world.2);
        local = (local_x, local.1, local_z);
        world = (world_x, world.1, world_z);
        proof {
            let m = moved(before, step, grids);
            assert(m.local_pos == (local.0 as int, local.1 as int, local.2 as int));
            assert(m.world_pos == (world.0 as int, world.1 as int, world.2 as int));
        }
        let block_bottom = block_at(
            chunks.chunk(cur_chunk_index).blocks(),
            world.0 % 16,
            world.1 - 2,
            world.2 % 16,
        );
        assert((block_bottom@ == BlockType::Air) == falls(before, step, grids));
        // Move up/down.
        if let BlockType::Air = block_bottom.block_type() {
            local.1 = local.1 - step.fall;
            if local.1 < -UNITS_PER_BLOCK {
                local.1 = local.1 + UNITS_PER_BLOCK;
                world.1 = world.1 - 1;
            }
        }
        proof {
            let u = updated(before, step, grids);
            assert(u.local_pos == (local.0 as int, local.1 as int, local.2 as int));
            assert(u.world_pos == (world.0 as int, world.1 as int, world.2 as int));
        }
        // Rotate
        let look = Look { horizontal: self.rotate_horizontal, vertical: self.rotate_vertical };

        self.local_pos = local;
        self.world_pos = world;
        // If process_mouse isn't called every frame, these values
        // would not get set to zero, and the camera would rotate
        // when moving in a non cardinal direction.
        self.rotate_horizontal = 0;
        self.rotate_vertical = 0;
        Ok(look)
    }

    /// Takes the mouse's movement since the last frame as the look rotation
    /// that the next update hands out, in place of any that is pending.
    pub fn process_mouse(&mut self, mouse_dx: i64, mouse_dy: i64)
        ensures
            final(self)@ == (PlayerModel {
                rotate_horizontal: mouse_dx as int,
                rotate_vertical: mouse_dy as int,
                ..old(self)@
            }),
    {
        proof {
            use_type_invariant(&*self);
        }
        self.rotate_horizontal = mouse_dx;
        self.rotate_vertical = mouse_dy;
    }
}

/// The index of the chunk around `world_pos`, if the player can be moved from
/// there.
fn resolve_chunk(world_pos: (usize, usize, usize)) -> (r: Result<usize, PlayerError>)
    ensures
        ({
            let p = PlayerModel {
                world_pos: (world_pos.0 as int, world_pos.1 as int, world_pos.2 as int),
                ..initial_player()
            };
            match r {
                Ok(index) => {
                    &&& position_error(p) is None
                    &&& index == player_chunk(p)
                    &&& 16 <= world_pos.0 < 240
                    &&& 16 <= world_pos.2 < 240
                    &&& 0 < index < WORLD_CHUNKS - 1
                },
                Err(e) => position_error(p) == Some(e),
            }
        }),
{
    let wx = world_pos.0;
    let wy = world_pos.1;
    let wz = world_pos.2;
    if wx >= 256 || wz >= 256 {
        return Err(PlayerError::ChunkOutOfRange);
    }
    let cur_chunk_index = (wz / 16) + (16 * (wx / 16));
    let around = neighbors(cur_chunk_index);
    match (around.front, around.back, around.left, around.right) {
        (Some(_), Some(_), Some(_), Some(_)) => {},
        _ => {
            return Err(PlayerError::ChunkOutOfRange);
        },
    }
    if wy < 2 || wy > 29 {
        return Err(PlayerError::HeightOutOfRange);
    }
    Ok(cur_chunk_index)
}

/// Reads the blocks beside the feet and the head of a player who stands at
/// `world_pos` in chunk `cur`, and tells whether one of them is solid. They
/// lie in the player's chunk, or, seen from its first layer along z, in the
/// last layer of the chunk to the right.
fn probe(chunks: &WorldGrid, cur: usize, world_pos: (usize, usize, usize)) -> (probed: bool)
    requires
        0 < cur < WORLD_CHUNKS - 1,
        16 <= world_pos.0 < 240,
        16 <= world_pos.2 < 240,
        1 <= world_pos.1 <= 29,
        cur == chunk_of(world_pos.0 as int, world_pos.2 as int),
    ensures
        probed == (solid(
            world_block(
                chunks.grids(),
                world_pos.0 as int,
                world_pos.1 as int - 1,
                world_pos.2 as int - 1,
            ),
        ) || solid(
            world_block(
                chunks.grids(),
                world_pos.0 as int,
                world_pos.1 as int,
                world_pos.2 as int - 1,
            ),
        )),
{
    let x = world_pos.0 % 16;
    let y = world_pos.1;
    let z = world_pos.2 % 16;
    let (beside, layer) = if z == 0 {
        (chunks.chunk(cur - 1), 15)
    } else {
        (chunks.chunk(cur), z - 1)
    };
    proof {
        lemma_chunk_down_z(world_pos.0 as int, world_pos.2 as int);
    }
    let block_right_bottom = block_at(beside.blocks(), x, y - 1, layer);
    let block_right_top = block_at(beside.blocks(), x, y, layer);
    block_right_bottom.is_solid() || block_right_top.is_solid()
}

/// Where the column one block down z lies: in the same chunk one layer
/// down, or, from a chunk's first layer, in the last layer of the chunk
/// before it.
pub proof fn lemma_chunk_down_z(gx: int, gz: int)
    requires
        0 <= gx,
        1 <= gz,
    ensures
        gz % 16 != 0 ==> chunk_of(gx, gz - 1) == chunk_of(gx, gz) && (gz - 1) % 16 == gz % 16 - 1,
        gz % 16 == 0 ==> chunk_of(gx, gz - 1) == chunk_of(gx, gz) - 1 && (gz - 1) % 16 == 15,
{
}

/// Passes at most one block from an offset to a world coordinate.
fn carry(offset: i64, world: usize) -> (r: (i64, usize))
    requires
        0 < world < usize::MAX,
    ensures
        r.0 == settled(offset as int),
        r.1 == world + carried(offset as int),
{
    if offset > UNITS_PER_BLOCK {
        (offset - UNITS_PER_BLOCK, world + 1)
    } else if offset < -UNITS_PER_BLOCK {
        (offset + UNITS_PER_BLOCK, world - 1)
    } else {
        (offset, world)
    }
}

/// The player can be moved exactly from the chunks that do not lie on the
/// edge of the world: from world x and z of 16 up to, not including, 240.
pub proof fn lemma_chunk_in_range(p: PlayerModel)
    ensures
        chunk_in_range(p) <==> 16 <= p.world_pos.0 < 240 && 16 <= p.world_pos.2 < 240,
        chunk_in_range(p) ==> 0 < player_chunk(p) < 255 && right_of(player_chunk(p)) == Some(
            player_chunk(p) - 1,
        ),
{
}

/// Collision. With an offset along x below `NEAR_EDGE`, a step that pushes
/// up x by more than `MIN_PUSH` is refused along x when the block beside the
/// feet or the block beside the head is solid, and the camera keeps its x. In
/// every other case the camera moves by the whole step along x. Along z it
/// always moves by the whole step.
pub proof fn lemma_step_refused(p: PlayerModel, step: Step, grids: Seq<Grid>)
    ensures
        ({
            let u = updated(p, step, grids);
            let refused = p.local_pos.0 < NEAR_EDGE && step.dx > MIN_PUSH && (solid(
                beside_feet(p, grids),
            ) || solid(beside_head(p, grids)));
            &&& refused ==> camera_position(u).0 == camera_position(p).0
            &&& !refused ==> camera_position(u).0 == camera_position(p).0 + step.dx
            &&& camera_position(u).2 == camera_position(p).2 + step.dz
        }),
{
}

/// Boundary transfer. On each axis the world position changes by one block
/// up exactly when the offset plus the displacement applied exceeds one block,
/// by one block down exactly when it falls below minus one block, and not at
/// all otherwise; the offset changes by the opposite amount. Along y only the
/// fall is applied, only where the player falls, and no block passes upwards.
pub proof fn lemma_update_carries_whole_blocks(p: PlayerModel, step: Step, grids: Seq<Grid>)
    ensures
        ({
            let u = updated(p, step, grids);
            let x = p.local_pos.0 + applied(p, step, grids).0;
            let y = p.local_pos.1 - fallen(p, step, grids);
            let z = p.local_pos.2 + applied(p, step, grids).1;
            let down = if drops(p, step, grids) {
                1int
            } else {
                0int
            };
            &&& u.world_pos.0 == p.world_pos.0 + carried(x)
            &&& u.local_pos.0 == x - 1_000_000 * carried(x)
            &&& u.world_pos.2 == p.world_pos.2 + carried(z)
            &&& u.local_pos.2 == z - 1_000_000 * carried(z)
            &&& u.world_pos.1 == p.world_pos.1 - down
            &&& u.local_pos.1 == y + 1_000_000 * down
            &&& carried(x) == 1 <==> x > UNITS_PER_BLOCK
            &&& carried(x) == -1 <==> x < -UNITS_PER_BLOCK
            &&& carried(z) == 1 <==> z > UNITS_PER_BLOCK
            &&& carried(z) == -1 <==> z < -UNITS_PER_BLOCK
            &&& down == 1 <==> falls(p, step, grids) && y < -UNITS_PER_BLOCK
        }),
{
}

/// Continuity. An update moves the camera by exactly the displacement that
/// was applied: the step along z, the step along x unless that was refused,
/// and the fall along y if the player fell. The world position changes by whole blocks, at
/// most one on each axis, and never upwards.
pub proof fn lemma_update_continuity(p: PlayerModel, step: Step, grids: Seq<Grid>)
    ensures
        ({
            let u = updated(p, step, grids);
            &&& camera_position(u).0 == camera_position(p).0 + applied(p, step, grids).0
            &&& camera_position(u).1 == camera_position(p).1 - fallen(p, step, grids)
            &&& camera_position(u).2 == camera_position(p).2 + applied(p, step, grids).1
            &&& -1 <= u.world_pos.0 - p.world_pos.0 <= 1
            &&& -1 <= u.world_pos.1 - p.world_pos.1 <= 0
            &&& -1 <= u.world_pos.2 - p.world_pos.2 <= 1
        }),
{
}

/// After an update the offset lies in `[-1, 1)` blocks on an axis exactly
/// when the offset before plus the displacement applied lies within two
/// blocks of the block's centre and is not exactly one block up: an update
/// passes at most one block to the world position, and passes none from an
/// offset of exactly one block. Along y, where the player does not fall the
/// offset stays as it was, and where they fall it can only be passed
/// downwards.
pub proof fn lemma_offset_in_block_after_update(p: PlayerModel, step: Step, grids: Seq<Grid>)
    ensures
        ({
            let u = updated(p, step, grids);
            let x = p.local_pos.0 + applied(p, step, grids).0;
            let y = p.local_pos.1 - fallen(p, step, grids);
            let z = p.local_pos.2 + applied(p, step, grids).1;
            &&& in_block(u.local_pos.0) <==> -2 * UNITS_PER_BLOCK <= x < 2 * UNITS_PER_BLOCK && x
                != UNITS_PER_BLOCK
            &&& in_block(u.local_pos.2) <==> -2 * UNITS_PER_BLOCK <= z < 2 * UNITS_PER_BLOCK && z
                != UNITS_PER_BLOCK
            &&& in_block(u.local_pos.1) <==> if falls(p, step, grids) {
                -2 * UNITS_PER_BLOCK <= y < UNITS_PER_BLOCK
            } else {
                in_block(p.local_pos.1)
            }
        }),
{
}

/// A player whose offset lies in `[-1, 1)` blocks keeps it there through an
/// update whose step and fall are at most a block, unless the step takes the
/// offset along x or z to exactly one block.
pub proof fn lemma_update_keeps_offset_in_block(p: PlayerModel, step: Step, grids: Seq<Grid>)
    requires
        in_block(p.local_pos.0) && in_block(p.local_pos.1) && in_block(p.local_pos.2),
        -UNITS_PER_BLOCK <= step.dx <= UNITS_PER_BLOCK,
        -UNITS_PER_BLOCK <= step.dz <= UNITS_PER_BLOCK,
        0 <= step.fall <= UNITS_PER_BLOCK,
        p.local_pos.0 + applied(p, step, grids).0 != UNITS_PER_BLOCK,
        p.local_pos.2 + applied(p, step, grids).1 != UNITS_PER_BLOCK,
    ensures
        in_block(updated(p, step, grids).local_pos.0),
        in_block(updated(p, step, grids).local_pos.1),
        in_block(updated(p, step, grids).local_pos.2),
{
}

} // verus!
