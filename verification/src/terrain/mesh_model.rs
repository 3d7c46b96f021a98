//! What the mesh of a chunk is, as a function of the world's occupancy.
//!
//! A chunk has 4096 x 6 face slots: slot `6 * r + f` is face `f` of the cell
//! of rank `r`. The mesh lists the slots whose face is shown, in ascending
//! order, with four vertices and six indices for each.

use vstd::prelude::*;
use crate::block::{face_of, texture_of};
use crate::terrain::coord::{cell_of_rank, global_of, Cell};
use crate::terrain::grid::{block_at, local_block, Grid};
use crate::terrain::mesher::{
    face_vertex,
    hides,
    is_flipped,
    normal_of,
    occluder_cell,
    quad_index,
};
use crate::terrain::vertex::Vertex;

verus! {

/// Number of face slots of a chunk.
pub open spec fn slot_count() -> int {
    24576
}

/// The cell that slot `slot` belongs to.
pub open spec fn slot_cell(slot: int) -> Cell {
    cell_of_rank(slot / 6)
}

/// The face that slot `slot` stands for.
pub open spec fn slot_face(slot: int) -> int {
    slot % 6
}

/// A normal as the three numbers handed to the texture lookup.
pub open spec fn normal_seq(n: Cell) -> Seq<i8> {
    seq![n.x as i8, n.y as i8, n.z as i8]
}

/// Face `face` of position `p` of chunk `chunk` is shown: the position holds
/// a block, and the cell the face looks at does not hide it.
pub open spec fn face_shown(grid: Grid, chunk: Cell, p: Cell, face: int) -> bool {
    match local_block(grid, chunk, p) {
        Some(block) => !hides(
            block_at(grid, global_of(chunk, p.plus(normal_of(face)))),
            block.block_id,
        ),
        None => false,
    }
}

/// Solidity, towards material `id`, of the eight cells around the cell that
/// face `face` of position `p` looks at.
pub open spec fn ring_solidity(grid: Grid, chunk: Cell, p: Cell, face: int, id: u8) -> Seq<bool> {
    Seq::new(
        8,
        |k: int|
            hides(
                block_at(
                    grid,
                    global_of(chunk, occluder_cell(p.plus(normal_of(face)), normal_of(face), k)),
                ),
                id,
            ),
    )
}

/// Vertex `k` of face `face` of the block at position `p` of chunk `chunk`.
pub open spec fn quad_vertex(grid: Grid, chunk: Cell, p: Cell, face: int, k: int) -> Vertex {
    let id = grid[chunk][p].block_id;
    let n = normal_of(face);
    face_vertex(
        n,
        texture_of(id, face_of(normal_seq(n))),
        p,
        ring_solidity(grid, chunk, p, face, id),
        k,
    )
}

/// The slots below `upto` whose face is shown, in ascending order.
pub open spec fn shown_slots(grid: Grid, chunk: Cell, upto: int) -> Seq<int>
    decreases upto,
{
    if upto <= 0 {
        Seq::empty()
    } else {
        let below = shown_slots(grid, chunk, upto - 1);
        if face_shown(grid, chunk, slot_cell(upto - 1), slot_face(upto - 1)) {
            below.push(upto - 1)
        } else {
            below
        }
    }
}

/// The vertices of the quads of `slots`: four for each slot, in order.
pub open spec fn quad_vertices(grid: Grid, chunk: Cell, slots: Seq<int>) -> Seq<Vertex> {
    Seq::new(
        4 * slots.len(),
        |i: int| quad_vertex(grid, chunk, slot_cell(slots[i / 4]), slot_face(slots[i / 4]), i % 4),
    )
}

/// The indices of the quads of `slots`: six for each slot, pointing at the
/// slot's own four vertices.
pub open spec fn quad_indices(slots: Seq<int>) -> Seq<u32> {
    Seq::new(
        6 * slots.len(),
        |i: int|
            (4 * (i / 6) + quad_index(is_flipped(normal_of(slot_face(slots[i / 6]))), i % 6))
                as u32,
    )
}

/// A mesh as plain data.
pub struct MeshView {
    pub vertices: Seq<Vertex>,
    pub indices: Seq<u32>,
    /// World cell of the chunk's corner of least coordinates.
    pub origin: Cell,
    pub num_indices: nat,
}

/// The mesh of chunk `chunk` in a world with occupancy `grid`.
pub open spec fn mesh_of(grid: Grid, chunk: Cell) -> MeshView {
    let slots = shown_slots(grid, chunk, slot_count());
    MeshView {
        vertices: quad_vertices(grid, chunk, slots),
        indices: quad_indices(slots),
        origin: chunk.times(16),
        num_indices: 6 * slots.len(),
    }
}

/// There are no more shown slots than slots, and each is a slot below `upto`.
pub proof fn lemma_shown_slots_bounds(grid: Grid, chunk: Cell, upto: int)
    requires
        0 <= upto,
    ensures
        shown_slots(grid, chunk, upto).len() <= upto,
        forall|i: int|
            0 <= i < shown_slots(grid, chunk, upto).len() ==> 0 <= #[trigger] shown_slots(
                grid,
                chunk,
                upto,
            )[i] < upto,
    decreases upto,
{
    if upto > 0 {
        lemma_shown_slots_bounds(grid, chunk, upto - 1);
    }
}

/// A cell without a block shows none of its six faces.
pub proof fn lemma_empty_cell_shows_nothing(grid: Grid, chunk: Cell, rank: int)
    requires
        0 <= rank,
        local_block(grid, chunk, cell_of_rank(rank)) is None,
    ensures
        shown_slots(grid, chunk, 6 * rank + 6) == shown_slots(grid, chunk, 6 * rank),
{
    reveal_with_fuel(shown_slots, 7);
    assert(slot_cell(6 * rank) == cell_of_rank(rank));
    assert(slot_cell(6 * rank + 1) == cell_of_rank(rank));
    assert(slot_cell(6 * rank + 2) == cell_of_rank(rank));
    assert(slot_cell(6 * rank + 3) == cell_of_rank(rank));
    assert(slot_cell(6 * rank + 4) == cell_of_rank(rank));
    assert(slot_cell(6 * rank + 5) == cell_of_rank(rank));
}

/// A chunk that is not stored has an empty mesh.
pub proof fn lemma_missing_chunk_shows_nothing(grid: Grid, chunk: Cell, upto: int)
    requires
        !grid.contains_key(chunk),
    ensures
        shown_slots(grid, chunk, upto) == Seq::<int>::empty(),
    decreases upto,
{
    if upto > 0 {
        lemma_missing_chunk_shows_nothing(grid, chunk, upto - 1);
    }
}

/// Adding a slot to a list adds its four vertices to the list's vertices.
pub proof fn lemma_quad_vertices_push(grid: Grid, chunk: Cell, slots: Seq<int>, slot: int)
    ensures
        quad_vertices(grid, chunk, slots.push(slot)) == quad_vertices(grid, chunk, slots).push(
            quad_vertex(grid, chunk, slot_cell(slot), slot_face(slot), 0),
        ).push(quad_vertex(grid, chunk, slot_cell(slot), slot_face(slot), 1)).push(
            quad_vertex(grid, chunk, slot_cell(slot), slot_face(slot), 2),
        ).push(quad_vertex(grid, chunk, slot_cell(slot), slot_face(slot), 3)),
{
    let longer = quad_vertices(grid, chunk, slots.push(slot));
    let pushed = quad_vertices(grid, chunk, slots).push(
        quad_vertex(grid, chunk, slot_cell(slot), slot_face(slot), 0),
    ).push(quad_vertex(grid, chunk, slot_cell(slot), slot_face(slot), 1)).push(
        quad_vertex(grid, chunk, slot_cell(slot), slot_face(slot), 2),
    ).push(quad_vertex(grid, chunk, slot_cell(slot), slot_face(slot), 3));
    assert(longer.len() == pushed.len());
    assert forall|i: int| 0 <= i < longer.len() implies longer[i] == pushed[i] by {
        if i < 4 * slots.len() {
            assert(i / 4 < slots.len());
            assert(slots.push(slot)[i / 4] == slots[i / 4]);
        } else {
            assert(i / 4 == slots.len());
            assert(slots.push(slot)[i / 4] == slot);
        }
    }
    assert(longer =~= pushed);
}

/// Adding a slot to a list adds its six indices to the list's indices.
pub proof fn lemma_quad_indices_push(slots: Seq<int>, slot: int)
    ensures
        ({
            let flipped = is_flipped(normal_of(slot_face(slot)));
            let base = 4 * slots.len();
            quad_indices(slots.push(slot)) == quad_indices(slots).push(
                (base + quad_index(flipped, 0)) as u32,
            ).push((base + quad_index(flipped, 1)) as u32).push(
                (base + quad_index(flipped, 2)) as u32,
            ).push((base + quad_index(flipped, 3)) as u32).push(
                (base + quad_index(flipped, 4)) as u32,
            ).push((base + quad_index(flipped, 5)) as u32)
        }),
{
    let flipped = is_flipped(normal_of(slot_face(slot)));
    let base = 4 * slots.len();
    let longer = quad_indices(slots.push(slot));
    let pushed = quad_indices(slots).push((base + quad_index(flipped, 0)) as u32).push(
        (base + quad_index(flipped, 1)) as u32,
    ).push((base + quad_index(flipped, 2)) as u32).push(
        (base + quad_index(flipped, 3)) as u32,
    ).push((base + quad_index(flipped, 4)) as u32).push((base + quad_index(flipped, 5)) as u32);
    assert(longer.len() == pushed.len());
    assert forall|i: int| 0 <= i < longer.len() implies longer[i] == pushed[i] by {
        if i < 6 * slots.len() {
            assert(i / 6 < slots.len());
            assert(slots.push(slot)[i / 6] == slots[i / 6]);
        } else {
            assert(i / 6 == slots.len());
            assert(slots.push(slot)[i / 6] == slot);
        }
    }
    assert(longer =~= pushed);
}

} // verus!
