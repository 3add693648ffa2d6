//! Verified core of a voxel world: block grids, terrain columns, chunk meshing
//! with face culling, the chunk lattice, and the player's position bookkeeping.
//!
//! Lengths are whole blocks unless a unit is named. Geometry is kept in exact
//! integers: vertex positions in half blocks, texture coordinates in sprite
//! sides, the player's offset inside a block in millionths of a block.

pub mod atlas;
pub mod block;
pub mod culling;
pub mod grid;
pub mod mesh;
pub mod player;
pub mod quad;
pub mod terrain;
pub mod world;

pub use block::{Block, BlockType};
pub use mesh::Mesh;
pub use quad::Vertex;
pub use player::Player;
pub use world::Chunk;
