//! A chunk: the sparse set of occupied cells of one 16 x 16 x 16 cube.

use std::collections::HashMap;
use vstd::prelude::*;
use crate::block::Block;
use crate::terrain::coord::{in_chunk, local_rank, rank_of, Cell, LocalPos};

verus! {

broadcast use vstd::std_specs::hash::group_hash_axioms;

/// Sparse storage of the blocks of one chunk. A cell without an entry is
/// empty; a stored block, whatever its material, occupies its cell.
#[derive(Debug)]
pub struct Chunk {
    /// Blocks keyed by the rank of their position.
    voxels: HashMap<u16, Block>,
}

impl View for Chunk {
    type V = Map<Cell, Block>;

    /// The occupied positions and their blocks.
    closed spec fn view(&self) -> Map<Cell, Block> {
        Map::new(
            |p: Cell| in_chunk(p) && self.voxels@.contains_key(local_rank(p) as u16),
            |p: Cell| self.voxels@[local_rank(p) as u16],
        )
    }
}

impl Chunk {
    /// A chunk with no blocks.
    pub fn new() -> (chunk: Chunk)
        ensures
            chunk@ == Map::<Cell, Block>::empty(),
    {
        let chunk = Chunk { voxels: HashMap::new() };
        assert(chunk@ =~= Map::<Cell, Block>::empty());
        chunk
    }

    /// Every occupied position lies inside the chunk.
    pub proof fn lemma_occupied_in_chunk(&self)
        ensures
            forall|p: Cell| #[trigger] self@.contains_key(p) ==> in_chunk(p),
    {
    }

    /// The block at `position`, if the cell is occupied. Positions outside
    /// the chunk are never occupied.
    pub fn get(&self, position: &LocalPos) -> (block: Option<Block>)
        ensures
            block == (if self@.contains_key(position@) {
                Some(self@[position@])
            } else {
                None
            }),
    {
        match rank_of(position) {
            Some(rank) => match self.voxels.get(&rank) {
                Some(found) => Some(*found),
                None => None,
            },
            None => None,
        }
    }

    /// Whether the cell at `position` is occupied.
    pub fn contains_key(&self, position: &LocalPos) -> (occupied: bool)
        ensures
            occupied == self@.contains_key(position@),
    {
        match rank_of(position) {
            Some(rank) => self.voxels.contains_key(&rank),
            None => false,
        }
    }

    /// Puts `block` at `position`, replacing what was there, and returns the
    /// block that was replaced. A position outside the chunk is refused: the
    /// chunk stays as it was and `None` is returned.
    #[verifier::rlimit(30)]
    pub fn insert(&mut self, position: LocalPos, block: Block) -> (replaced: Option<Block>)
        ensures
            in_chunk(position@) ==> final(self)@ == old(self)@.insert(position@, block),
            !in_chunk(position@) ==> final(self)@ == old(self)@,
            replaced == (if old(self)@.contains_key(position@) {
                Some(old(self)@[position@])
            } else {
                None
            }),
    {
        match rank_of(&position) {
            Some(rank) => {
                let replaced = self.voxels.insert(rank, block);
                assert(self@ =~= old(self)@.insert(position@, block));
                replaced
            },
            None => None,
        }
    }

    /// Empties the cell at `position` and returns the block that was there.
    #[verifier::rlimit(30)]
    pub fn remove(&mut self, position: &LocalPos) -> (removed: Option<Block>)
        ensures
            final(self)@ == old(self)@.remove(position@),
            removed == (if old(self)@.contains_key(position@) {
                Some(old(self)@[position@])
            } else {
                None
            }),
    {
        match rank_of(position) {
            Some(rank) => {
                let removed = self.voxels.remove(&rank);
                assert(self@ =~= old(self)@.remove(position@));
                removed
            },
            None => {
                assert(self@ =~= old(self)@.remove(position@));
                None
            },
        }
    }
}

} // verus!
