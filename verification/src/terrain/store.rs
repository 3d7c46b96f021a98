//! A table keyed by chunk coordinate.

use std::collections::HashMap;
use vstd::prelude::*;
use crate::terrain::chunk::Chunk;
use crate::terrain::coord::{in_chunk, Cell, ChunkPos};
use crate::terrain::grid::{grid_of, grid_wf};

verus! {

broadcast use vstd::std_specs::hash::group_hash_axioms;

/// The key under which a chunk coordinate is stored: its three components,
/// each shifted into `[0, 2^32)`, written side by side.
pub open spec fn chunk_key(c: Cell) -> int {
    (c.x + 0x8000_0000) * 0x1_0000_0000_0000_0000 + (c.y + 0x8000_0000) * 0x1_0000_0000 + (c.z
        + 0x8000_0000)
}

/// Distinct chunk coordinates have distinct keys.
pub proof fn lemma_chunk_key_injective(a: Cell, b: Cell)
    requires
        a.fits_i32(),
        b.fits_i32(),
        chunk_key(a) == chunk_key(b),
    ensures
        a == b,
{
}

fn key_of(position: &ChunkPos) -> (key: u128)
    ensures
        key as int == chunk_key(position@),
{
    let x: u128 = (position.x as i64 + 0x8000_0000) as u128;
    let y: u128 = (position.y as i64 + 0x8000_0000) as u128;
    let z: u128 = (position.z as i64 + 0x8000_0000) as u128;
    x * 0x1_0000_0000_0000_0000 + y * 0x1_0000_0000 + z
}

/// A table from chunk coordinates to values, unbounded in every direction.
#[derive(Debug)]
pub struct ChunkMap<V> {
    entries: HashMap<u128, V>,
}

impl<V> View for ChunkMap<V> {
    type V = Map<Cell, V>;

    /// The stored coordinates and their values.
    closed spec fn view(&self) -> Map<Cell, V> {
        Map::new(
            |c: Cell| c.fits_i32() && self.entries@.contains_key(chunk_key(c) as u128),
            |c: Cell| self.entries@[chunk_key(c) as u128],
        )
    }
}

impl<V> ChunkMap<V> {
    /// An empty table.
    pub fn new() -> (table: ChunkMap<V>)
        ensures
            table@ == Map::<Cell, V>::empty(),
    {
        let table = ChunkMap { entries: HashMap::new() };
        assert(table@ =~= Map::<Cell, V>::empty());
        table
    }

    /// Whether a value is stored at `position`.
    pub fn contains_key(&self, position: &ChunkPos) -> (present: bool)
        ensures
            present == self@.contains_key(position@),
    {
        let key = key_of(position);
        self.entries.contains_key(&key)
    }

    /// The value stored at `position`, if any.
    pub fn get(&self, position: &ChunkPos) -> (value: Option<&V>)
        ensures
            match value {
                Some(v) => self@.contains_key(position@) && *v == self@[position@],
                None => !self@.contains_key(position@),
            },
    {
        let key = key_of(position);
        self.entries.get(&key)
    }

    /// Stores `value` at `position` and returns the value it replaces.
    pub fn insert(&mut self, position: ChunkPos, value: V) -> (replaced: Option<V>)
        ensures
            final(self)@ == old(self)@.insert(position@, value),
            match replaced {
                Some(v) => old(self)@.contains_key(position@) && v == old(self)@[position@],
                None => !old(self)@.contains_key(position@),
            },
    {
        let key = key_of(&position);
        let replaced = self.entries.insert(key, value);
        proof {
            assert forall|c: Cell| c.fits_i32() && c != position@ implies chunk_key(c)
                != chunk_key(position@) by {
                if chunk_key(c) == chunk_key(position@) {
                    lemma_chunk_key_injective(c, position@);
                }
            }
            assert(self@ =~= old(self)@.insert(position@, value));
        }
        replaced
    }

    /// Takes out the value stored at `position` and returns it.
    pub fn remove(&mut self, position: &ChunkPos) -> (removed: Option<V>)
        ensures
            final(self)@ == old(self)@.remove(position@),
            match removed {
                Some(v) => old(self)@.contains_key(position@) && v == old(self)@[position@],
                None => !old(self)@.contains_key(position@),
            },
    {
        let key = key_of(position);
        let removed = self.entries.remove(&key);
        proof {
            assert forall|c: Cell| c.fits_i32() && c != position@ implies chunk_key(c)
                != chunk_key(position@) by {
                if chunk_key(c) == chunk_key(position@) {
                    lemma_chunk_key_injective(c, position@);
                }
            }
            assert(self@ =~= old(self)@.remove(position@));
        }
        removed
    }
}

impl ChunkMap<Chunk> {
    /// The grid held by a table of chunks is well formed.
    pub proof fn lemma_grid_wf(&self)
        ensures
            grid_wf(grid_of(self@)),
    {
        let grid = grid_of(self@);
        assert forall|chunk: Cell, p: Cell|
            grid.contains_key(chunk) && #[trigger] grid[chunk].contains_key(p) implies in_chunk(
            p,
        ) by {
            self@[chunk].lemma_occupied_in_chunk();
        }
    }
}

} // verus!
