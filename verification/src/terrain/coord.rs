//! Coordinates: cells of the world grid, chunk coordinates, positions inside
//! a chunk, and the conversions between them.

use vstd::prelude::*;

verus! {

/// Edge length of a chunk, in blocks.
pub const CHUNK_SIZE: usize = 16;

/// Number of cells in a chunk.
pub const CHUNK_VOLUME: u16 = 4096;

/// A point of the integer lattice. Depending on context it is a block cell of
/// the world, a chunk coordinate, a position relative to a chunk, or an
/// offset between two of those.
pub struct Cell {
    pub x: int,
    pub y: int,
    pub z: int,
}

impl Cell {
    pub open spec fn plus(self, other: Cell) -> Cell {
        Cell { x: self.x + other.x, y: self.y + other.y, z: self.z + other.z }
    }

    pub open spec fn minus(self, other: Cell) -> Cell {
        Cell { x: self.x - other.x, y: self.y - other.y, z: self.z - other.z }
    }

    pub open spec fn times(self, k: int) -> Cell {
        Cell { x: self.x * k, y: self.y * k, z: self.z * k }
    }

    /// The point itself for a positive `sign`, its mirror image through the
    /// origin for a negative one, the origin for zero.
    pub open spec fn signed(self, sign: int) -> Cell {
        if sign > 0 {
            self
        } else if sign < 0 {
            Cell { x: -self.x, y: -self.y, z: -self.z }
        } else {
            Cell { x: 0, y: 0, z: 0 }
        }
    }

    /// Every component fits an `i8`.
    pub open spec fn fits_i8(self) -> bool {
        &&& i8::MIN <= self.x <= i8::MAX
        &&& i8::MIN <= self.y <= i8::MAX
        &&& i8::MIN <= self.z <= i8::MAX
    }

    /// Every component fits an `i32`.
    pub open spec fn fits_i32(self) -> bool {
        &&& i32::MIN <= self.x <= i32::MAX
        &&& i32::MIN <= self.y <= i32::MAX
        &&& i32::MIN <= self.z <= i32::MAX
    }
}

/// The position lies inside a chunk: every component is in `[0, CHUNK_SIZE)`.
pub open spec fn in_chunk(p: Cell) -> bool {
    &&& 0 <= p.x < 16
    &&& 0 <= p.y < 16
    &&& 0 <= p.z < 16
}

/// Coordinate of the chunk that holds world cell `g`: the floor of `g / 16`
/// on every axis.
pub open spec fn chunk_of(g: Cell) -> Cell {
    Cell { x: g.x / 16, y: g.y / 16, z: g.z / 16 }
}

/// Position of world cell `g` inside its chunk: the non-negative remainder of
/// `g / 16` on every axis.
pub open spec fn local_of(g: Cell) -> Cell {
    Cell { x: g.x % 16, y: g.y % 16, z: g.z % 16 }
}

/// World cell at position `p` relative to chunk `chunk`. `p` may lie outside
/// the chunk, in which case the cell belongs to a neighbouring chunk.
pub open spec fn global_of(chunk: Cell, p: Cell) -> Cell {
    chunk.times(16).plus(p)
}

/// Rank of an in-chunk position when the chunk is walked x-major, then y,
/// then z.
pub open spec fn local_rank(p: Cell) -> int {
    p.x * 256 + p.y * 16 + p.z
}

/// The in-chunk position with rank `rank`.
pub open spec fn cell_of_rank(rank: int) -> Cell {
    Cell { x: rank / 256, y: (rank / 16) % 16, z: rank % 16 }
}

/// A position relative to a chunk. It may lie up to a few cells outside
/// the chunk, as neighbours of boundary blocks do.
#[derive(Debug, Clone, Copy, PartialEq, Eq, Structural)]
pub struct LocalPos {
    pub x: i8,
    pub y: i8,
    pub z: i8,
}

/// A small displacement: a face normal, a tangent, or the step from a chunk
/// to one of its neighbours.
#[derive(Debug, Clone, Copy, PartialEq, Eq, Structural)]
pub struct Offset {
    pub x: i8,
    pub y: i8,
    pub z: i8,
}

/// Coordinate of a chunk in the chunk grid.
#[derive(Debug, Clone, Copy, PartialEq, Eq, Structural)]
pub struct ChunkPos {
    pub x: i32,
    pub y: i32,
    pub z: i32,
}

/// A block cell of the world: the floor of a world-space position.
#[derive(Debug, Clone, Copy, PartialEq, Eq, Structural)]
pub struct BlockPos {
    pub x: i32,
    pub y: i32,
    pub z: i32,
}

impl View for LocalPos {
    type V = Cell;

    open spec fn view(&self) -> Cell {
        Cell { x: self.x as int, y: self.y as int, z: self.z as int }
    }
}

impl View for Offset {
    type V = Cell;

    open spec fn view(&self) -> Cell {
        Cell { x: self.x as int, y: self.y as int, z: self.z as int }
    }
}

impl View for ChunkPos {
    type V = Cell;

    open spec fn view(&self) -> Cell {
        Cell { x: self.x as int, y: self.y as int, z: self.z as int }
    }
}

impl View for BlockPos {
    type V = Cell;

    open spec fn view(&self) -> Cell {
        Cell { x: self.x as int, y: self.y as int, z: self.z as int }
    }
}

/// Floor of `v / 16` and the matching non-negative remainder.
fn split_axis(v: i32) -> (parts: (i32, i8))
    ensures
        parts.0 as int == v as int / 16,
        parts.1 as int == v as int % 16,
{
    // Shifting by 2^31, a multiple of 16, makes the dividend non-negative.
    let shifted: i64 = v as i64 + 2147483648;
    let quotient: i64 = shifted / 16 - 134217728;
    let remainder: i64 = shifted % 16;
    (quotient as i32, remainder as i8)
}

/// Splits a world cell into the coordinate of its chunk and its position
/// inside that chunk. Exact for negative coordinates: cell -1 is position 15
/// of chunk -1.
pub fn split_global(position: BlockPos) -> (parts: (ChunkPos, LocalPos))
    ensures
        parts.0@ == chunk_of(position@),
        parts.1@ == local_of(position@),
        in_chunk(parts.1@),
        global_of(parts.0@, parts.1@) == position@,
{
    let (cx, lx) = split_axis(position.x);
    let (cy, ly) = split_axis(position.y);
    let (cz, lz) = split_axis(position.z);
    (ChunkPos { x: cx, y: cy, z: cz }, LocalPos { x: lx, y: ly, z: lz })
}

/// Rank of a position in the x-major walk of a chunk, or `None` when the
/// position lies outside the chunk.
pub fn rank_of(position: &LocalPos) -> (rank: Option<u16>)
    ensures
        in_chunk(position@) ==> rank == Some(local_rank(position@) as u16),
        !in_chunk(position@) ==> rank is None,
        rank matches Some(r) ==> r < CHUNK_VOLUME,
{
    if 0 <= position.x && position.x < 16 && 0 <= position.y && position.y < 16 && 0
        <= position.z && position.z < 16 {
        let x: u16 = position.x as u16;
        let y: u16 = position.y as u16;
        let z: u16 = position.z as u16;
        Some(x * 256 + y * 16 + z)
    } else {
        None
    }
}

/// The in-chunk position with the given rank.
pub(crate) fn position_at(rank: u16) -> (position: LocalPos)
    requires
        rank < CHUNK_VOLUME,
    ensures
        position@ == cell_of_rank(rank as int),
        in_chunk(position@),
        local_rank(position@) == rank,
{
    LocalPos { x: (rank / 256) as i8, y: ((rank / 16) % 16) as i8, z: (rank % 16) as i8 }
}

/// The in-chunk position with the given rank, or `None` when the rank is
/// not below the number of cells of a chunk.
pub fn position_of(rank: u16) -> (position: Option<LocalPos>)
    ensures
        position is Some <==> rank < CHUNK_VOLUME,
        position matches Some(p) ==> p@ == cell_of_rank(rank as int) && in_chunk(p@) && local_rank(
            p@,
        ) == rank,
{
    if rank < CHUNK_VOLUME {
        Some(position_at(rank))
    } else {
        None
    }
}

} // verus!
