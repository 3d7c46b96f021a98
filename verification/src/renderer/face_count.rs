//! How many faces a dense chunk can show.
//!
//! Two cells that share a side show at most one face between them: a face is
//! shown by a solid cell that looks at an empty one. A chunk has 3 x 15 x 256
//! such pairs and 6 x 256 faces on its border, so no chunk shows more than
//! 13056 faces, and the four vertices of every face can be addressed with
//! 16-bit indices.

use vstd::prelude::*;
use crate::renderer::mesher::{dense_shown, dense_slots};
use crate::renderer::vertexer::Chunk;
use crate::terrain::coord::{cell_of_rank, in_chunk, Cell};
use crate::terrain::mesh_model::{slot_cell, slot_face};

verus! {

/// The most faces a dense chunk can show.
pub open spec fn max_faces() -> int {
    13056
}

/// 1 when face `face` of the cell of rank `rank` is shown, 0 otherwise.
pub open spec fn shows(chunk: Chunk, face: int, rank: int) -> int {
    if dense_shown(chunk, cell_of_rank(rank), face) {
        1
    } else {
        0
    }
}

/// How many of the `count` cells from rank `from` on show their face `face`.
pub open spec fn face_sum(chunk: Chunk, face: int, from: int, count: int) -> int
    decreases count,
{
    if count <= 0 {
        0
    } else {
        face_sum(chunk, face, from, count - 1) + shows(chunk, face, from + count - 1)
    }
}

proof fn lemma_sum_bounds(chunk: Chunk, face: int, from: int, count: int)
    requires
        0 <= count,
    ensures
        0 <= face_sum(chunk, face, from, count) <= count,
    decreases count,
{
    if count > 0 {
        lemma_sum_bounds(chunk, face, from, count - 1);
    }
}

proof fn lemma_sum_split(chunk: Chunk, face: int, from: int, first: int, count: int)
    requires
        0 <= first <= count,
    ensures
        face_sum(chunk, face, from, count) == face_sum(chunk, face, from, first) + face_sum(
            chunk,
            face,
            from + first,
            count - first,
        ),
    decreases count,
{
    if count > first {
        lemma_sum_split(chunk, face, from, first, count - 1);
    }
}

/// The cell `shift` ranks after a cell with room above it on the axis of
/// `upper` is the cell that face `upper` looks at, and face `lower` of that
/// cell looks back.
spec fn faces_each_other(lower: int, upper: int, shift: int, rank: int) -> bool {
    let here = cell_of_rank(rank);
    let there = cell_of_rank(rank + shift);
    &&& in_chunk(here)
    &&& in_chunk(there)
    &&& crate::renderer::mesher::facing_cell(here, upper) == there
    &&& crate::renderer::mesher::facing_cell(there, lower) == here
}

proof fn lemma_pair(chunk: Chunk, lower: int, upper: int, shift: int, rank: int)
    requires
        faces_each_other(lower, upper, shift, rank),
    ensures
        shows(chunk, upper, rank) + shows(chunk, lower, rank + shift) <= 1,
{
}

proof fn lemma_sum_pairs(chunk: Chunk, lower: int, upper: int, shift: int, from: int, count: int)
    requires
        0 <= count,
        forall|i: int|
            0 <= i < count ==> #[trigger] faces_each_other(lower, upper, shift, from + i),
    ensures
        face_sum(chunk, upper, from, count) + face_sum(chunk, lower, from + shift, count) <= count,
    decreases count,
{
    if count > 0 {
        lemma_sum_pairs(chunk, lower, upper, shift, from, count - 1);
        assert(faces_each_other(lower, upper, shift, from + (count - 1)));
        lemma_pair(chunk, lower, upper, shift, from + count - 1);
    }
}

/// A run of `length` cells along an axis, in which each cell but the last
/// `shift` faces the cell `shift` ranks after it, shows at most
/// `length + shift` faces on that axis.
proof fn lemma_run(chunk: Chunk, lower: int, upper: int, shift: int, from: int, length: int)
    requires
        0 <= shift <= length,
        forall|i: int|
            0 <= i < length - shift ==> #[trigger] faces_each_other(lower, upper, shift, from + i),
    ensures
        face_sum(chunk, lower, from, length) + face_sum(chunk, upper, from, length) <= length
            + shift,
{
    let inner = length - shift;
    lemma_sum_split(chunk, upper, from, inner, length);
    lemma_sum_bounds(chunk, upper, from + inner, shift);
    lemma_sum_split(chunk, lower, from, shift, length);
    lemma_sum_bounds(chunk, lower, from, shift);
    lemma_sum_pairs(chunk, lower, upper, shift, from, inner);
}

/// The cell at `(x, y, z)` and its neighbour one step up the x axis.
proof fn lemma_faces_along_x(x: int, y: int, z: int)
    requires
        0 <= x < 15,
        0 <= y < 16,
        0 <= z < 16,
    ensures
        faces_each_other(0, 1, 256, 256 * x + 16 * y + z),
{
    let rank = 256 * x + 16 * y + z;
    assert(cell_of_rank(rank) == Cell { x, y, z });
    assert(cell_of_rank(rank + 256) == Cell { x: x + 1, y, z });
}

/// The cell at `(x, y, z)` and its neighbour one step up the y axis.
proof fn lemma_faces_along_y(x: int, y: int, z: int)
    requires
        0 <= x < 16,
        0 <= y < 15,
        0 <= z < 16,
    ensures
        faces_each_other(2, 3, 16, 256 * x + 16 * y + z),
{
    let rank = 256 * x + 16 * y + z;
    assert(cell_of_rank(rank) == Cell { x, y, z });
    assert(cell_of_rank(rank + 16) == Cell { x, y: y + 1, z });
}

/// The cell at `(x, y, z)` and its neighbour one step up the z axis.
proof fn lemma_faces_along_z(x: int, y: int, z: int)
    requires
        0 <= x < 16,
        0 <= y < 16,
        0 <= z < 15,
    ensures
        faces_each_other(4, 5, 1, 256 * x + 16 * y + z),
{
    let rank = 256 * x + 16 * y + z;
    assert(cell_of_rank(rank) == Cell { x, y, z });
    assert(cell_of_rank(rank + 1) == Cell { x, y, z: z + 1 });
}

proof fn lemma_x_axis(chunk: Chunk)
    ensures
        face_sum(chunk, 0, 0, 4096) + face_sum(chunk, 1, 0, 4096) <= 4352,
{
    assert forall|i: int| 0 <= i < 4096 - 256 implies #[trigger] faces_each_other(
        0,
        1,
        256,
        0 + i,
    ) by {
        let x = i / 256;
        let y = (i / 16) % 16;
        let z = i % 16;
        assert(i == 256 * x + 16 * y + z);
        lemma_faces_along_x(x, y, z);
    }
    lemma_run(chunk, 0, 1, 256, 0, 4096);
}

proof fn lemma_y_axis(chunk: Chunk, planes: int)
    requires
        0 <= planes <= 16,
    ensures
        face_sum(chunk, 2, 0, 256 * planes) + face_sum(chunk, 3, 0, 256 * planes) <= 272 * planes,
    decreases planes,
{
    if planes > 0 {
        lemma_y_axis(chunk, planes - 1);
        let from = 256 * (planes - 1);
        assert forall|i: int| 0 <= i < 256 - 16 implies #[trigger] faces_each_other(
            2,
            3,
            16,
            from + i,
        ) by {
            let y = i / 16;
            let z = i % 16;
            assert(i == 16 * y + z);
            lemma_faces_along_y(planes - 1, y, z);
        }
        lemma_run(chunk, 2, 3, 16, from, 256);
        lemma_sum_split(chunk, 2, 0, from, 256 * planes);
        lemma_sum_split(chunk, 3, 0, from, 256 * planes);
    }
}

proof fn lemma_z_axis(chunk: Chunk, rows: int)
    requires
        0 <= rows <= 256,
    ensures
        face_sum(chunk, 4, 0, 16 * rows) + face_sum(chunk, 5, 0, 16 * rows) <= 17 * rows,
    decreases rows,
{
    if rows > 0 {
        lemma_z_axis(chunk, rows - 1);
        let from = 16 * (rows - 1);
        assert forall|i: int| 0 <= i < 16 - 1 implies #[trigger] faces_each_other(
            4,
            5,
            1,
            from + i,
        ) by {
            let x = (rows - 1) / 16;
            let y = (rows - 1) % 16;
            assert(from + i == 256 * x + 16 * y + i);
            lemma_faces_along_z(x, y, i);
        }
        lemma_run(chunk, 4, 5, 1, from, 16);
        lemma_sum_split(chunk, 4, 0, from, 16 * rows);
        lemma_sum_split(chunk, 5, 0, from, 16 * rows);
    }
}

/// The faces shown by the first `cells` cells, counted slot by slot and
/// counted face by face, are the same number.
proof fn lemma_slots_are_sums(chunk: Chunk, cells: int)
    requires
        0 <= cells,
    ensures
        dense_slots(chunk, 6 * cells).len() == face_sum(chunk, 0, 0, cells) + face_sum(
            chunk,
            1,
            0,
            cells,
        ) + face_sum(chunk, 2, 0, cells) + face_sum(chunk, 3, 0, cells) + face_sum(
            chunk,
            4,
            0,
            cells,
        ) + face_sum(chunk, 5, 0, cells),
    decreases cells,
{
    if cells > 0 {
        lemma_slots_are_sums(chunk, cells - 1);
        let base = 6 * (cells - 1);
        let here = cell_of_rank(cells - 1);
        assert(slot_cell(base) == here && slot_face(base) == 0);
        assert(slot_cell(base + 1) == here && slot_face(base + 1) == 1);
        assert(slot_cell(base + 2) == here && slot_face(base + 2) == 2);
        assert(slot_cell(base + 3) == here && slot_face(base + 3) == 3);
        assert(slot_cell(base + 4) == here && slot_face(base + 4) == 4);
        assert(slot_cell(base + 5) == here && slot_face(base + 5) == 5);
        assert(dense_slots(chunk, base + 1).len() == dense_slots(chunk, base).len() + shows(
            chunk,
            0,
            cells - 1,
        ));
        assert(dense_slots(chunk, base + 2).len() == dense_slots(chunk, base + 1).len() + shows(
            chunk,
            1,
            cells - 1,
        ));
        assert(dense_slots(chunk, base + 3).len() == dense_slots(chunk, base + 2).len() + shows(
            chunk,
            2,
            cells - 1,
        ));
        assert(dense_slots(chunk, base + 4).len() == dense_slots(chunk, base + 3).len() + shows(
            chunk,
            3,
            cells - 1,
        ));
        assert(dense_slots(chunk, base + 5).len() == dense_slots(chunk, base + 4).len() + shows(
            chunk,
            4,
            cells - 1,
        ));
        assert(dense_slots(chunk, base + 6).len() == dense_slots(chunk, base + 5).len() + shows(
            chunk,
            5,
            cells - 1,
        ));
    }
}

/// The list of shown slots only grows as more slots are looked at.
pub proof fn lemma_slots_grow(chunk: Chunk, fewer: int, more: int)
    requires
        fewer <= more,
    ensures
        dense_slots(chunk, fewer).len() <= dense_slots(chunk, more).len(),
    decreases more - fewer,
{
    if fewer < more {
        lemma_slots_grow(chunk, fewer, more - 1);
    }
}

/// No dense chunk shows more than 13056 faces.
pub proof fn lemma_face_count(chunk: Chunk)
    ensures
        dense_slots(chunk, 24576).len() <= max_faces(),
{
    lemma_slots_are_sums(chunk, 4096);
    lemma_x_axis(chunk);
    lemma_y_axis(chunk, 16);
    lemma_z_axis(chunk, 256);
}

} // verus!
