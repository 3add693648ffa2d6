//! Block materials and the voxel cell built from them.

use vstd::prelude::*;

verus! {

/// The material of a voxel cell.
#[derive(Copy, Clone, Debug, PartialEq, Eq, Structural)]
pub enum BlockType {
    Air,
    Water,
    Grass,
    Stone,
}

impl Default for BlockType {
    fn default() -> (t: BlockType)
        ensures
            t == BlockType::Air,
    {
        BlockType::Air
    }
}

/// Whether a material stops the player.
pub open spec fn solid(t: BlockType) -> bool {
    t is Grass
}

/// A voxel cell: its material and the solidity derived from it.
#[derive(Copy, Clone, Debug, PartialEq, Eq, Structural)]
pub struct Block {
    block_type: BlockType,
    is_solid: bool,
}

impl View for Block {
    type V = BlockType;

    closed spec fn view(&self) -> BlockType {
        self.block_type
    }
}

impl Block {
    #[verifier::type_invariant]
    spec fn consistent(self) -> bool {
        self.is_solid == solid(self.block_type)
    }

    /// Builds the cell of material `block_type`.
    pub fn new(block_type: BlockType) -> (b: Block)
        ensures
            b@ == block_type,
    {
        let is_solid = match block_type {
            BlockType::Grass => true,
            _ => false,
        };
        Block { block_type, is_solid }
    }

    /// The cell's material.
    pub fn block_type(&self) -> (t: BlockType)
        ensures
            t == self@,
    {
        self.block_type
    }

    /// Whether the cell stops the player.
    pub fn is_solid(&self) -> (s: bool)
        ensures
            s == solid(self@),
    {
        proof {
            use_type_invariant(self);
        }
        self.is_solid
    }
}

impl Default for Block {
    fn default() -> (b: Block)
        ensures
            b@ == BlockType::Air,
    {
        Block { block_type: BlockType::Air, is_solid: false }
    }
}

} // verus!
