//! The occupancy of the world as a mathematical object: which block, if any,
//! sits in each cell.

use vstd::prelude::*;
use crate::block::Block;
use crate::terrain::chunk::Chunk;
use crate::terrain::coord::{chunk_of, in_chunk, local_of, Cell};

verus! {

/// The blocks of a world: for each stored chunk coordinate, the occupied
/// positions of that chunk.
pub type Grid = Map<Cell, Map<Cell, Block>>;

/// The grid held by a table of chunks.
pub open spec fn grid_of(chunks: Map<Cell, Chunk>) -> Grid {
    chunks.map_values(|chunk: Chunk| chunk@)
}

/// Block at position `p` of chunk `chunk`. There is none when the chunk is
/// not stored or the position is not occupied.
pub open spec fn local_block(grid: Grid, chunk: Cell, p: Cell) -> Option<Block> {
    if grid.contains_key(chunk) && grid[chunk].contains_key(p) {
        Some(grid[chunk][p])
    } else {
        None
    }
}

/// Block in world cell `g`, looked up in the chunk that holds the cell.
pub open spec fn block_at(grid: Grid, g: Cell) -> Option<Block> {
    local_block(grid, chunk_of(g), local_of(g))
}

/// Every occupied position of every chunk lies inside its chunk, and every
/// chunk coordinate is one that a `ChunkPos` can name.
pub open spec fn grid_wf(grid: Grid) -> bool {
    &&& forall|chunk: Cell| #[trigger] grid.contains_key(chunk) ==> chunk.fits_i32()
    &&& forall|chunk: Cell, p: Cell|
        grid.contains_key(chunk) && #[trigger] grid[chunk].contains_key(p) ==> in_chunk(p)
}

/// In a well-formed grid a position outside the chunk holds no block.
pub proof fn lemma_outside_is_empty(grid: Grid, chunk: Cell, p: Cell)
    requires
        grid_wf(grid),
        !in_chunk(p),
    ensures
        local_block(grid, chunk, p) is None,
{
}

} // verus!
