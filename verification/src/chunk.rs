//! A chunk: a fixed 16x16 tile region, the unit of streaming.
//!
//! Each cell holds one block id per layer. Id `0` is air; ids `1..BLOCK_COUNT`
//! are solid kinds whose texture-atlas column is `id - 1`. A chunk also
//! carries its bounding rectangle in world units, computed once from its
//! chunk coordinate and never independently mutated.

use crate::collision::AxisAlignedRectangle;
use crate::vecs::{IVec2, WorldVec, CHUNK_AREA, CHUNK_FP};
use vstd::prelude::*;

verus! {

/// The two block layers of the world. Only the foreground takes part in
/// physics and raycasts; the background is decorative.
#[derive(Clone, Copy, Debug, PartialEq, Eq, Structural)]
pub enum ChunkLayer {
    FOREGROUND,
    BACKGROUND,
}

impl ChunkLayer {
    /// The other layer.
    pub open spec fn spec_flip(self) -> ChunkLayer {
        match self {
            ChunkLayer::FOREGROUND => ChunkLayer::BACKGROUND,
            ChunkLayer::BACKGROUND => ChunkLayer::FOREGROUND,
        }
    }

    /// Swaps foreground and background, for the active placement tool.
    pub fn flip(&self) -> (r: ChunkLayer)
        ensures
            r == self.spec_flip(),
    {
        match self {
            ChunkLayer::FOREGROUND => ChunkLayer::BACKGROUND,
            ChunkLayer::BACKGROUND => ChunkLayer::FOREGROUND,
        }
    }
}

/// The texture-atlas column shown for a block id. Air (`0`) has no atlas
/// entry, so the `id - 1` mapping sits behind this emptiness guard and the
/// subtraction can never wrap.
pub fn block_atlas_index(id: usize) -> (r: Option<usize>)
    ensures
        id == 0 ==> r is None,
        id > 0 ==> r == Some((id - 1) as usize),
{
    if id == 0 {
        None
    } else {
        Some(id - 1)
    }
}

/// The bounding rectangle of the chunk with the given chunk coordinate:
/// a `CHUNK_FP` square whose bottom-left corner sits at
/// `position * CHUNK_FP`.
pub open spec fn spec_chunk_aabb(position: IVec2) -> AxisAlignedRectangle {
    AxisAlignedRectangle {
        center_pos: WorldVec {
            x: (position.x * CHUNK_FP + CHUNK_FP / 2) as i64,
            y: (position.y * CHUNK_FP + CHUNK_FP / 2) as i64,
        },
        size: WorldVec { x: CHUNK_FP, y: CHUNK_FP },
    }
}

/// A 16x16 tile region: its chunk coordinate, one block array per layer
/// (row-major, index `x + y * CHUNK_WIDTH`), and its derived bounding
/// rectangle.
pub struct Chunk {
    pub position: IVec2,
    pub foreground_blocks: Vec<usize>,
    pub background_blocks: Vec<usize>,
    pub aabb: AxisAlignedRectangle,
}

impl Chunk {
    /// Both block arrays hold exactly one id per cell and the bounding
    /// rectangle is the one derived from `position`.
    pub open spec fn wf(self) -> bool {
        &&& self.foreground_blocks@.len() == CHUNK_AREA
        &&& self.background_blocks@.len() == CHUNK_AREA
        &&& self.aabb == spec_chunk_aabb(self.position)
    }

    /// The block array of the given layer.
    pub open spec fn spec_layer(self, layer: ChunkLayer) -> Seq<usize> {
        match layer {
            ChunkLayer::FOREGROUND => self.foreground_blocks@,
            ChunkLayer::BACKGROUND => self.background_blocks@,
        }
    }

    /// Builds a chunk from its coordinate and its two block arrays, deriving
    /// the bounding rectangle from the coordinate.
    pub fn new(position: IVec2, foreground_blocks: Vec<usize>, background_blocks: Vec<usize>) -> (r:
        Chunk)
        requires
            foreground_blocks@.len() == CHUNK_AREA,
            background_blocks@.len() == CHUNK_AREA,
        ensures
            r.position == position,
            r.foreground_blocks == foreground_blocks,
            r.background_blocks == background_blocks,
            r.aabb == spec_chunk_aabb(position),
            r.wf(),
    {
        let aabb = AxisAlignedRectangle {
            center_pos: WorldVec {
                x: position.x as i64 * CHUNK_FP + CHUNK_FP / 2,
                y: position.y as i64 * CHUNK_FP + CHUNK_FP / 2,
            },
            size: WorldVec { x: CHUNK_FP, y: CHUNK_FP },
        };
        Chunk { position, foreground_blocks, background_blocks, aabb }
    }

    /// Reads the block id of one cell of the given layer.
    pub fn read(&self, layer: ChunkLayer, index: usize) -> (r: usize)
        requires
            self.wf(),
            index < CHUNK_AREA,
        ensures
            r == self.spec_layer(layer)[index as int],
    {
        match layer {
            ChunkLayer::FOREGROUND => self.foreground_blocks[index],
            ChunkLayer::BACKGROUND => self.background_blocks[index],
        }
    }

    /// Writes the block id of one cell of the given layer, leaving every
    /// other cell, the other layer, the coordinate and the bounding
    /// rectangle unchanged.
    pub fn write(&mut self, layer: ChunkLayer, index: usize, id: usize)
        requires
            old(self).wf(),
            index < CHUNK_AREA,
        ensures
            final(self).wf(),
            final(self).position == old(self).position,
            final(self).aabb == old(self).aabb,
            final(self).spec_layer(layer) == old(self).spec_layer(layer).update(index as int, id),
            final(self).spec_layer(layer.spec_flip()) == old(self).spec_layer(layer.spec_flip()),
    {
        match layer {
            ChunkLayer::FOREGROUND => {
                self.foreground_blocks.set(index, id);
            },
            ChunkLayer::BACKGROUND => {
                self.background_blocks.set(index, id);
            },
        }
    }
}

} // verus!
