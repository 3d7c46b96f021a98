//! Generation of a dense chunk of 32 x 32 x 32 cells, in which material 0
//! stands for an empty cell.

use vstd::prelude::*;
use crate::block::Block;

verus! {

/// Edge length of a dense generated chunk.
pub const DENSE_SIZE: usize = 32;

/// A dense generated chunk: the block of every cell, indexed `[x][y][z]`.
pub type DenseChunk = [[[Block; 32]; 32]; 32];

/// The surface level of every column of a dense chunk, indexed `[x][z]`.
pub type DenseLevels = [[i32; 32]; 32];

/// Material of a cell that lies `depth` below the surface level of its
/// column: nothing above the surface, then one layer each of materials 1
/// and 2, and material 3 below them.
pub open spec fn dense_material(depth: int) -> u8 {
    if depth < 0 {
        0
    } else if depth < 1 {
        1
    } else if depth < 2 {
        2
    } else {
        3
    }
}

/// The block generated at `(x, y, z)`.
pub open spec fn dense_block(levels: DenseLevels, x: int, y: int, z: int) -> Block {
    Block { block_id: dense_material(levels[x][z] - y), block_state: 0 }
}

/// Place of the cell `(x, y, z)` in the x-major walk of the chunk.
pub open spec fn dense_rank(x: int, y: int, z: int) -> int {
    x * 1024 + y * 32 + z
}

/// Generates a dense chunk from the surface levels of its columns: the cell
/// at height `y` of a column of level `l` lies `l - y` below the surface.
pub fn get_chunk(levels: &DenseLevels) -> (chunk: DenseChunk)
    ensures
        forall|x: int, y: int, z: int|
            0 <= x < 32 && 0 <= y < 32 && 0 <= z < 32 ==> #[trigger] chunk[x][y][z] == dense_block(
                *levels,
                x,
                y,
                z,
            ),
{
    let mut chunk: DenseChunk = [[[Block { block_id: 0, block_state: 0 }; 32]; 32]; 32];
    let mut index: usize = 0;
    while index < 32768
        invariant
            index <= 32768,
            forall|x: int, y: int, z: int|
                0 <= x < 32 && 0 <= y < 32 && 0 <= z < 32 && dense_rank(x, y, z) < index
                    ==> #[trigger] chunk[x][y][z] == dense_block(*levels, x, y, z),
        decreases 32768 - index,
    {
        let x: usize = index / 1024;
        let y: usize = (index / 32) % 32;
        let z: usize = index % 32;
        let depth: i64 = levels[x][z] as i64 - y as i64;
        let generated_id: u8 = if depth < 0 {
            0
        } else if depth < 1 {
            1
        } else if depth < 2 {
            2
        } else {
            3
        };
        let ghost before = chunk;
        chunk[x][y][z] = Block { block_id: generated_id, block_state: 0 };
        proof {
            assert(dense_rank(x as int, y as int, z as int) == index);
            assert forall|a: int, b: int, c: int|
                0 <= a < 32 && 0 <= b < 32 && 0 <= c < 32 && dense_rank(a, b, c) < index
                    + 1 implies #[trigger] chunk[a][b][c] == dense_block(*levels, a, b, c) by {
                if dense_rank(a, b, c) == index {
                    assert(a == x && b == y && c == z);
                } else {
                    assert(before[a][b][c] == dense_block(*levels, a, b, c));
                    assert(a != x || b != y || c != z);
                }
            }
        }
        index = index + 1;
    }
    chunk
}

} // verus!
