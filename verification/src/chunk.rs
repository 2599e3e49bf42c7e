//! Chunks: columns of block states, and the packets that show them.

use vstd::prelude::*;
use crate::fixed::sat_i32;
use crate::geometry::{BlockPos, ChunkPos};
use crate::outbox::{lemma_extend_emit, lemma_extend_nothing, Outbox};
use crate::s2c::{S2cPlayPacket, S2cView};
use crate::seqs::copy_vec;
use crate::Ticks;

verus! {

/// A cell of a chunk that was written this tick, and what was written.
#[derive(Clone, Copy, PartialEq, Eq, Debug, Structural)]
pub struct BlockChange {
    /// `0..16` from the chunk's western edge.
    pub x: u8,
    /// From the chunk's lowest layer.
    pub y: u32,
    /// `0..16` from the chunk's northern edge.
    pub z: u8,
    pub block_id: u16,
}

/// A 16 by 16 column of block states.
#[derive(Debug)]
pub struct Chunk {
    /// The tick on which the chunk was made, or made anew.
    pub created_tick: Ticks,
    /// The block states, layer by layer from the lowest, row by row from the
    /// north within a layer, west to east within a row.
    pub blocks: Vec<u16>,
    /// The cells written this tick, in the order they were written.
    pub modified: Vec<BlockChange>,
}

/// The index of the cell `x`, `y`, `z` among the block states of a chunk.
pub open spec fn cell_index(x: u8, y: u32, z: u8) -> int {
    x as int + z as int * 16 + y as int * 256
}

/// Where the cell `c` of the chunk at `pos` lies in the world, in a
/// dimension whose lowest layer is at `min_y`.
pub open spec fn cell_location(pos: ChunkPos, min_y: i32, c: BlockChange) -> BlockPos {
    BlockPos {
        x: sat_i32(pos.x as int * 16 + c.x as int) as i32,
        y: sat_i32(min_y as int + c.y as int) as i32,
        z: sat_i32(pos.z as int * 16 + c.z as int) as i32,
    }
}

/// `v` limited to the range of `i32`.
fn saturate_i32(v: i64) -> (r: i32)
    ensures
        r as int == sat_i32(v as int),
{
    if v > i32::MAX as i64 {
        i32::MAX
    } else if v < i32::MIN as i64 {
        i32::MIN
    } else {
        v as i32
    }
}

impl Chunk {
    /// Whether the chunk has a cell `x`, `y`, `z`.
    pub open spec fn has_cell(&self, x: u8, y: u32, z: u8) -> bool {
        x < 16 && z < 16 && cell_index(x, y, z) < self.blocks@.len()
    }

    /// The packets that tell a client which has the chunk of what was
    /// written to it this tick: one block update per write, in order.
    pub open spec fn block_change_stream(&self, pos: ChunkPos, min_y: i32) -> Seq<S2cView> {
        Seq::new(
            self.modified@.len(),
            |i: int|
                S2cView::Plain(
                    S2cPlayPacket::BlockUpdate {
                        location: cell_location(pos, min_y, self.modified@[i]),
                        block_id: self.modified@[i].block_id,
                    },
                ),
        )
    }

    /// The packet that hands a client the whole chunk.
    pub open spec fn chunk_data_spec(&self, pos: ChunkPos) -> S2cView {
        S2cView::LevelChunkWithLight { chunk_x: pos.x, chunk_z: pos.z, blocks: self.blocks@ }
    }

    /// A chunk of `layers` layers of air, made on tick `tick`.
    pub fn new(layers: u16, tick: Ticks) -> (r: Chunk)
        ensures
            r.created_tick == tick,
            r.blocks@ == Seq::new(layers as nat * 256, |i: int| 0u16),
            r.modified@ == Seq::<BlockChange>::empty(),
    {
        let mut blocks: Vec<u16> = Vec::new();
        let n: usize = layers as usize * 256;
        let mut i: usize = 0;
        while i < n
            invariant
                i <= n,
                blocks@ == Seq::new(i as nat, |j: int| 0u16),
            decreases n - i,
        {
            blocks.push(0);
            i = i + 1;
        }
        Chunk { created_tick: tick, blocks, modified: Vec::new() }
    }

    pub fn created_tick(&self) -> (r: Ticks)
        ensures
            r == self.created_tick,
    {
        self.created_tick
    }

    /// The state of the cell `x`, `y`, `z`, if the chunk has such a cell.
    pub fn get_block_state(&self, x: u8, y: u32, z: u8) -> (r: Option<u16>)
        ensures
            r == (if self.has_cell(x, y, z) {
                Some(self.blocks@[cell_index(x, y, z)])
            } else {
                None
            }),
    {
        if x >= 16 || z >= 16 {
            return None;
        }
        let i: u64 = x as u64 + z as u64 * 16 + y as u64 * 256;
        if i < self.blocks.len() as u64 {
            Some(self.blocks[i as usize])
        } else {
            None
        }
    }

    /// Writes `block_id` to the cell `x`, `y`, `z` and records the write;
    /// `false`, and nothing written, if the chunk has no such cell.
    pub fn set_block_state(&mut self, x: u8, y: u32, z: u8, block_id: u16) -> (r: bool)
        ensures
            r == old(self).has_cell(x, y, z),
            final(self).created_tick == old(self).created_tick,
            r ==> final(self).blocks@ == old(self).blocks@.update(cell_index(x, y, z), block_id),
            r ==> final(self).modified@ == old(self).modified@.push(
                BlockChange { x, y, z, block_id },
            ),
            !r ==> final(self).blocks@ == old(self).blocks@ && final(self).modified@ == old(self).modified@,
    {
        if x >= 16 || z >= 16 {
            return false;
        }
        let i: u64 = x as u64 + z as u64 * 16 + y as u64 * 256;
        if i < self.blocks.len() as u64 {
            self.blocks[i as usize] = block_id;
            self.modified.push(BlockChange { x, y, z, block_id });
            true
        } else {
            false
        }
    }

    /// Forgets the writes of this tick.
    pub fn clear_modifications(&mut self)
        ensures
            final(self).created_tick == old(self).created_tick,
            final(self).blocks@ == old(self).blocks@,
            final(self).modified@ == Seq::<BlockChange>::empty(),
    {
        self.modified.clear();
    }

    /// The packet that hands a client the whole chunk.
    pub fn chunk_data_packet(&self, pos: ChunkPos) -> (r: S2cPlayPacket)
        ensures
            r@ == self.chunk_data_spec(pos),
    {
        S2cPlayPacket::LevelChunkWithLight {
            chunk_x: pos.x,
            chunk_z: pos.z,
            blocks: copy_vec(&self.blocks),
        }
    }

    /// Hands `out` the block updates for what was written this tick.
    pub fn block_change_packets(&self, pos: ChunkPos, min_y: i32, out: &mut Outbox)
        ensures
            final(out)@ == old(out)@.extend(self.block_change_stream(pos, min_y)),
    {
        let mut i: usize = 0;
        proof {
            lemma_extend_nothing(out@);
        }
        while i < self.modified.len()
            invariant
                i <= self.modified@.len(),
                out@ == old(out)@.extend(self.block_change_stream(pos, min_y).subrange(0, i as int)),
            decreases self.modified@.len() - i,
        {
            let c: BlockChange = self.modified[i];
            let location = BlockPos {
                x: saturate_i32(pos.x as i64 * 16 + c.x as i64),
                y: saturate_i32(min_y as i64 + c.y as i64),
                z: saturate_i32(pos.z as i64 * 16 + c.z as i64),
            };
            let p = S2cPlayPacket::BlockUpdate { location, block_id: c.block_id };
            proof {
                let stream = self.block_change_stream(pos, min_y);
                lemma_extend_emit(old(out)@, stream.subrange(0, i as int), p@);
                assert(stream.subrange(0, i as int).push(p@) =~= stream.subrange(0, i + 1));
            }
            out.emit(p);
            i = i + 1;
        }
        proof {
            let stream = self.block_change_stream(pos, min_y);
            assert(stream.subrange(0, i as int) =~= stream);
        }
    }
}

} // verus!
