//! Properties of edits, dirty marking, generation and meshing that hold of
//! every world.

use vstd::prelude::*;
use crate::block::Block;
use crate::terrain::coord::{cell_of_rank, chunk_of, global_of, in_chunk, local_of, local_rank, Cell};
use crate::terrain::generator::{generated_chunk, terrain_block};
use crate::terrain::grid::{block_at, local_block, Grid};
use crate::terrain::mesh_model::{
    face_shown,
    lemma_shown_slots_bounds,
    mesh_of,
    quad_vertex,
    quad_vertices,
    ring_solidity,
    shown_slots,
    slot_cell,
    slot_count,
    slot_face,
};
use crate::terrain::mesher::{
    corner_point,
    hides,
    lemma_resolve,
    normal_of,
    occluder_cell,
    relative_chunk,
    see_through,
};
use crate::terrain::world::{
    after_add,
    after_remesh,
    after_remove,
    block_present,
    dirty_set,
    edge_step,
    generated_grid,
    generated_meshes,
    in_region,
    with_block,
    without_block,
    WorldView,
};

verus! {

/// Adding a block to a cell of a stored chunk makes the cell hold a block,
/// and removing it again leaves the cell empty.
pub proof fn lemma_add_remove_round_trip(world: WorldView, g: Cell, id: u8)
    requires
        world.grid.contains_key(chunk_of(g)),
    ensures
        block_present(after_add(world, g, id).grid, g),
        !block_present(after_remove(after_add(world, g, id), g).grid, g),
{
}

/// After a removal the cell is empty, whatever the world was.
pub proof fn lemma_remove_then_absent(world: WorldView, g: Cell)
    ensures
        !block_present(after_remove(world, g).grid, g),
{
}

/// Adding a block leaves a cell that already holds one as it is: the first
/// block stays, and nothing more is marked.
pub proof fn lemma_add_keeps_first_block(world: WorldView, g: Cell, id: u8)
    requires
        block_present(world.grid, g),
    ensures
        after_add(world, g, id) == world,
{
}

/// Adding to the same cell twice is adding once: the second call changes
/// neither the blocks nor the dirty queue.
pub proof fn lemma_add_idempotent(world: WorldView, g: Cell, first: u8, second: u8)
    ensures
        after_add(after_add(world, g, first), g, second) == after_add(world, g, first),
{
}

/// Removing from the same cell twice is removing once.
pub proof fn lemma_remove_idempotent(world: WorldView, g: Cell)
    ensures
        after_remove(after_remove(world, g), g) == after_remove(world, g),
{
}

/// An edit changes the content of the edited cell only.
pub proof fn lemma_edit_is_local(grid: Grid, g: Cell, block: Block, other: Cell)
    requires
        grid.contains_key(chunk_of(g)),
        other != g,
    ensures
        block_at(with_block(grid, g, block), other) == block_at(grid, other),
        block_at(without_block(grid, g), other) == block_at(grid, other),
        block_at(with_block(grid, g, block), g) == Some(block),
        block_at(without_block(grid, g), g) is None,
{
    if chunk_of(other) == chunk_of(g) {
        assert(local_of(other) != local_of(g));
    }
}

/// Which chunks an edit marks: exactly those reached from the edited chunk
/// by moving, on each axis, either not at all or one chunk across the
/// boundary that the edited position lies on.
pub proof fn lemma_dirty_set_members(chunk: Cell, local: Cell, c: Cell)
    ensures
        dirty_set(chunk, local).contains(c) <==> {
            &&& (c.x == chunk.x || c.x == chunk.x + edge_step(local.x))
            &&& (c.y == chunk.y || c.y == chunk.y + edge_step(local.y))
            &&& (c.z == chunk.z || c.z == chunk.z + edge_step(local.z))
        },
{
    let marked = dirty_set(chunk, local);
    let dx = edge_step(local.x);
    let dy = edge_step(local.y);
    let dz = edge_step(local.z);
    if marked.contains(c) {
        let j = choose|j: int| 0 <= j < marked.len() && marked[j] == c;
        assert(marked[j] == c);
    }
    if (c.x == chunk.x || c.x == chunk.x + dx) && (c.y == chunk.y || c.y == chunk.y + dy) && (c.z
        == chunk.z || c.z == chunk.z + dz) {
        let sx = c.x - chunk.x;
        let sy = c.y - chunk.y;
        let sz = c.z - chunk.z;
        let nx: int = if dx != 0 { 1 } else { 0 };
        let ny: int = if dy != 0 { 1 } else { 0 };
        let nz: int = if dz != 0 { 1 } else { 0 };
        let nxy: int = if dx != 0 && dy != 0 { 1 } else { 0 };
        let nxz: int = if dx != 0 && dz != 0 { 1 } else { 0 };
        let nyz: int = if dz != 0 && dy != 0 { 1 } else { 0 };
        let j: int = if sx == 0 && sy == 0 && sz == 0 {
            0
        } else if sy == 0 && sz == 0 {
            1
        } else if sx == 0 && sz == 0 {
            1 + nx
        } else if sx == 0 && sy == 0 {
            1 + nx + ny
        } else if sz == 0 {
            1 + nx + ny + nz
        } else if sy == 0 {
            1 + nx + ny + nz + nxy
        } else if sx == 0 {
            1 + nx + ny + nz + nxy + nxz
        } else {
            1 + nx + ny + nz + nxy + nxz + nyz
        };
        assert(0 <= j < marked.len());
        assert(marked[j] == c);
    }
}

/// An edit marks its own chunk first.
pub proof fn lemma_dirty_marks_own_chunk(chunk: Cell, local: Cell)
    ensures
        dirty_set(chunk, local)[0] == chunk,
        1 <= dirty_set(chunk, local).len() <= 8,
{
}

/// An edit on the low x boundary of a chunk marks the neighbour below it
/// along x.
pub proof fn lemma_dirty_marks_low_x_neighbor(chunk: Cell, local: Cell)
    requires
        local.x == 0,
    ensures
        dirty_set(chunk, local).contains(Cell { x: chunk.x - 1, y: chunk.y, z: chunk.z }),
{
    lemma_dirty_set_members(chunk, local, Cell { x: chunk.x - 1, y: chunk.y, z: chunk.z });
}

/// An edit on the upper x-y edge of a chunk, away from the z boundaries,
/// marks four chunks: the chunk, its two face neighbours and the edge
/// neighbour they share.
pub proof fn lemma_dirty_on_edge_marks_four(chunk: Cell, local: Cell)
    requires
        local.x == 15,
        local.y == 15,
        0 < local.z < 15,
    ensures
        dirty_set(chunk, local) == seq![
            chunk,
            Cell { x: chunk.x + 1, y: chunk.y, z: chunk.z },
            Cell { x: chunk.x, y: chunk.y + 1, z: chunk.z },
            Cell { x: chunk.x + 1, y: chunk.y + 1, z: chunk.z },
        ],
{
    assert(dirty_set(chunk, local) =~= seq![
        chunk,
        Cell { x: chunk.x + 1, y: chunk.y, z: chunk.z },
        Cell { x: chunk.x, y: chunk.y + 1, z: chunk.z },
        Cell { x: chunk.x + 1, y: chunk.y + 1, z: chunk.z },
    ]);
}

/// An edit in a corner of a chunk marks eight chunks, and no edit marks more.
pub proof fn lemma_dirty_in_corner_marks_eight(chunk: Cell, local: Cell)
    requires
        local.x == 0 || local.x == 15,
        local.y == 0 || local.y == 15,
        local.z == 0 || local.z == 15,
    ensures
        dirty_set(chunk, local).len() == 8,
{
}

/// The mesh lists a slot exactly when the slot's face is shown.
pub proof fn lemma_shown_slots_members(grid: Grid, chunk: Cell, upto: int, slot: int)
    ensures
        shown_slots(grid, chunk, upto).contains(slot) <==> 0 <= slot < upto && face_shown(
            grid,
            chunk,
            slot_cell(slot),
            slot_face(slot),
        ),
    decreases upto,
{
    if upto > 0 {
        lemma_shown_slots_members(grid, chunk, upto - 1, slot);
        let below = shown_slots(grid, chunk, upto - 1);
        if face_shown(grid, chunk, slot_cell(upto - 1), slot_face(upto - 1)) {
            let all = below.push(upto - 1);
            if all.contains(slot) {
                let j = choose|j: int| 0 <= j < all.len() && all[j] == slot;
                if j < below.len() {
                    assert(below[j] == slot);
                }
            }
            if below.contains(slot) {
                let j = choose|j: int| 0 <= j < below.len() && below[j] == slot;
                assert(all[j] == slot);
            }
            assert(all[below.len() as int] == upto - 1);
        }
    }
}

/// The slot of face `face` of the in-chunk position `p`.
pub open spec fn slot_of(p: Cell, face: int) -> int {
    6 * local_rank(p) + face
}

/// The face on the other side of the cell: 0 and 1, 2 and 3, 4 and 5 are
/// opposite.
pub open spec fn opposite_face(face: int) -> int {
    if face % 2 == 0 {
        face + 1
    } else {
        face - 1
    }
}

/// A slot names its position and its face.
pub proof fn lemma_slot_of(p: Cell, face: int)
    requires
        in_chunk(p),
        0 <= face < 6,
    ensures
        0 <= slot_of(p, face) < slot_count(),
        slot_cell(slot_of(p, face)) == p,
        slot_face(slot_of(p, face)) == face,
{
    let rank = local_rank(p);
    assert((6 * rank + face) / 6 == rank);
    assert((6 * rank + face) % 6 == face);
    assert(cell_of_rank(rank) == p);
}

/// Whether the face `face` of world cell `a` is part of the mesh of the
/// cell's chunk: it is when the cell holds a block and the cell it looks at
/// does not hide that block's faces.
pub proof fn lemma_face_in_mesh(grid: Grid, a: Cell, face: int)
    requires
        0 <= face < 6,
    ensures
        shown_slots(grid, chunk_of(a), slot_count()).contains(slot_of(local_of(a), face)) <==> (
        block_at(grid, a) matches Some(block) && !hides(
            block_at(grid, a.plus(normal_of(face))),
            block.block_id,
        )),
{
    let chunk = chunk_of(a);
    let p = local_of(a);
    lemma_slot_of(p, face);
    lemma_shown_slots_members(grid, chunk, slot_count(), slot_of(p, face));
    assert(global_of(chunk, p.plus(normal_of(face))) == a.plus(normal_of(face)));
}

/// No face between two solid blocks: where two neighbouring world cells
/// both hold blocks that are not see-through, the mesh of the first cell's
/// chunk has no quad for the face that looks at the second, and the mesh of
/// the second cell's chunk has none for the face that looks back. This holds
/// within a chunk and across the border between two chunks alike.
pub proof fn lemma_no_face_between_solid_blocks(grid: Grid, a: Cell, face: int)
    requires
        0 <= face < 6,
        block_at(grid, a) matches Some(block) && !see_through(block.block_id),
        block_at(grid, a.plus(normal_of(face))) matches Some(block) && !see_through(
            block.block_id,
        ),
    ensures
        !shown_slots(grid, chunk_of(a), slot_count()).contains(slot_of(local_of(a), face)),
        !shown_slots(grid, chunk_of(a.plus(normal_of(face))), slot_count()).contains(
            slot_of(local_of(a.plus(normal_of(face))), opposite_face(face)),
        ),
{
    let b = a.plus(normal_of(face));
    let back = opposite_face(face);
    assert(b.plus(normal_of(back)) == a);
    lemma_face_in_mesh(grid, a, face);
    lemma_face_in_mesh(grid, b, back);
}

/// A face that looks at an empty cell, or at a cell of a chunk that is not
/// stored, is part of the mesh.
pub proof fn lemma_face_towards_empty_is_shown(grid: Grid, a: Cell, face: int)
    requires
        0 <= face < 6,
        block_at(grid, a) is Some,
        block_at(grid, a.plus(normal_of(face))) is None,
    ensures
        shown_slots(grid, chunk_of(a), slot_count()).contains(slot_of(local_of(a), face)),
{
    lemma_face_in_mesh(grid, a, face);
}

/// The cells a chunk's mesh can depend on: the chunk's own cells and the
/// cells within one block of it.
pub open spec fn in_reach(p: Cell) -> bool {
    &&& -1 <= p.x <= 16
    &&& -1 <= p.y <= 16
    &&& -1 <= p.z <= 16
}

proof fn lemma_same_slots(first: Grid, second: Grid, chunk: Cell, upto: int)
    requires
        0 <= upto <= slot_count(),
        forall|p: Cell|
            in_reach(p) ==> block_at(first, #[trigger] global_of(chunk, p)) == block_at(
                second,
                global_of(chunk, p),
            ),
    ensures
        shown_slots(first, chunk, upto) == shown_slots(second, chunk, upto),
    decreases upto,
{
    if upto > 0 {
        lemma_same_slots(first, second, chunk, upto - 1);
        let p = slot_cell(upto - 1);
        let face = slot_face(upto - 1);
        assert(in_chunk(p));
        assert(in_reach(p));
        assert(in_reach(p.plus(normal_of(face))));
        assert(block_at(first, global_of(chunk, p)) == block_at(second, global_of(chunk, p)));
        assert(block_at(first, global_of(chunk, p.plus(normal_of(face)))) == block_at(
            second,
            global_of(chunk, p.plus(normal_of(face))),
        ));
        assert(local_block(first, chunk, p) == block_at(first, global_of(chunk, p)));
        assert(local_block(second, chunk, p) == block_at(second, global_of(chunk, p)));
    }
}

proof fn lemma_same_quad(first: Grid, second: Grid, chunk: Cell, p: Cell, face: int, k: int)
    requires
        in_chunk(p),
        0 <= face < 6,
        local_block(first, chunk, p) is Some,
        forall|q: Cell|
            in_reach(q) ==> block_at(first, #[trigger] global_of(chunk, q)) == block_at(
                second,
                global_of(chunk, q),
            ),
    ensures
        quad_vertex(first, chunk, p, face, k) == quad_vertex(second, chunk, p, face, k),
{
    assert(in_reach(p));
    assert(block_at(first, global_of(chunk, p)) == block_at(second, global_of(chunk, p)));
    assert(local_block(first, chunk, p) == block_at(first, global_of(chunk, p)));
    assert(local_block(second, chunk, p) == block_at(second, global_of(chunk, p)));
    let id = first[chunk][p].block_id;
    assert(second[chunk][p].block_id == id);
    let n = normal_of(face);
    assert forall|j: int| 0 <= j < 8 implies ring_solidity(first, chunk, p, face, id)[j]
        == ring_solidity(second, chunk, p, face, id)[j] by {
        let q = occluder_cell(p.plus(n), n, j);
        assert(in_reach(q));
        assert(block_at(first, global_of(chunk, q)) == block_at(second, global_of(chunk, q)));
    }
    assert(ring_solidity(first, chunk, p, face, id) =~= ring_solidity(second, chunk, p, face, id));
}

/// The mesh of a chunk depends on the chunk's own cells and on the cells
/// within one block of it, and on nothing else: two worlds that agree on
/// those cells give the chunk the same mesh.
pub proof fn lemma_mesh_is_local(first: Grid, second: Grid, chunk: Cell)
    requires
        forall|p: Cell|
            in_reach(p) ==> block_at(first, #[trigger] global_of(chunk, p)) == block_at(
                second,
                global_of(chunk, p),
            ),
    ensures
        mesh_of(first, chunk) == mesh_of(second, chunk),
{
    lemma_same_slots(first, second, chunk, slot_count());
    let slots = shown_slots(first, chunk, slot_count());
    lemma_shown_slots_bounds(first, chunk, slot_count());
    let one = quad_vertices(first, chunk, slots);
    let two = quad_vertices(second, chunk, slots);
    assert forall|i: int| 0 <= i < one.len() implies one[i] == two[i] by {
        let slot = slots[i / 4];
        assert(0 <= i / 4 < slots.len());
        assert(0 <= slot < slot_count());
        lemma_shown_slots_members(first, chunk, slot_count(), slot);
        assert(slots.contains(slot));
        assert(in_chunk(slot_cell(slot)));
        lemma_same_quad(first, second, chunk, slot_cell(slot), slot_face(slot), i % 4);
    }
    assert(one =~= two);
}

/// Dirty marking is complete: an edit changes the mesh of no chunk that it
/// does not mark.
pub proof fn lemma_unmarked_mesh_unchanged(grid: Grid, g: Cell, block: Block, chunk: Cell)
    requires
        grid.contains_key(chunk_of(g)),
        !dirty_set(chunk_of(g), local_of(g)).contains(chunk),
    ensures
        mesh_of(with_block(grid, g, block), chunk) == mesh_of(grid, chunk),
        mesh_of(without_block(grid, g), chunk) == mesh_of(grid, chunk),
{
    lemma_dirty_set_members(chunk_of(g), local_of(g), chunk);
    assert forall|p: Cell| in_reach(p) implies #[trigger] global_of(chunk, p) != g by {
        if global_of(chunk, p) == g {
            lemma_resolve(chunk, p);
            assert(chunk_of(g) == chunk.plus(relative_chunk(p)));
            assert(local_of(g) == p.minus(relative_chunk(p).times(16)));
        }
    }
    assert forall|p: Cell| in_reach(p) implies block_at(
        with_block(grid, g, block),
        #[trigger] global_of(chunk, p),
    ) == block_at(grid, global_of(chunk, p)) by {
        lemma_edit_is_local(grid, g, block, global_of(chunk, p));
    }
    lemma_mesh_is_local(with_block(grid, g, block), grid, chunk);
    assert forall|p: Cell| in_reach(p) implies block_at(
        without_block(grid, g),
        #[trigger] global_of(chunk, p),
    ) == block_at(grid, global_of(chunk, p)) by {
        lemma_edit_is_local(grid, g, block, global_of(chunk, p));
    }
    lemma_mesh_is_local(without_block(grid, g), grid, chunk);
}

/// The shape of a mesh: four vertices and six indices for every face, no
/// more than 24576 faces, and every index points at a vertex of the quad
/// that the index belongs to.
pub proof fn lemma_mesh_shape(grid: Grid, chunk: Cell)
    ensures
        ({
            let mesh = mesh_of(grid, chunk);
            let faces = shown_slots(grid, chunk, slot_count()).len();
            &&& faces <= slot_count()
            &&& mesh.vertices.len() == 4 * faces
            &&& mesh.indices.len() == 6 * faces
            &&& mesh.num_indices == mesh.indices.len()
            &&& forall|i: int|
                0 <= i < mesh.indices.len() ==> 4 * (i / 6) <= #[trigger] mesh.indices[i] < 4 * (i
                    / 6) + 4 && mesh.indices[i] < mesh.vertices.len()
        }),
{
    lemma_shown_slots_bounds(grid, chunk, slot_count());
    let mesh = mesh_of(grid, chunk);
    let faces = shown_slots(grid, chunk, slot_count()).len();
    assert forall|i: int| 0 <= i < mesh.indices.len() implies 4 * (i / 6)
        <= #[trigger] mesh.indices[i] < 4 * (i / 6) + 4 && mesh.indices[i]
        < mesh.vertices.len() by {
        assert(i / 6 < faces);
    }
}

/// The quad of a face lies flush on its side of the block: in half blocks,
/// every corner is one step from the block's centre on each axis, on the
/// side of the normal along the normal's axis, and the four corners are the
/// four corners of that side.
pub proof fn lemma_quad_on_block_surface(p: Cell, face: int, k: int)
    requires
        0 <= face < 6,
        0 <= k < 4,
    ensures
        ({
            let n = normal_of(face);
            let corner = corner_point(p, n, k);
            let centre = p.times(2).plus(Cell { x: 1, y: 1, z: 1 });
            &&& corner.x == centre.x - 1 || corner.x == centre.x + 1
            &&& corner.y == centre.y - 1 || corner.y == centre.y + 1
            &&& corner.z == centre.z - 1 || corner.z == centre.z + 1
            &&& n.x != 0 ==> corner.x == centre.x + n.x
            &&& n.y != 0 ==> corner.y == centre.y + n.y
            &&& n.z != 0 ==> corner.z == centre.z + n.z
            &&& forall|j: int| 0 <= j < 4 && j != k ==> corner_point(p, n, j) != corner
        }),
{
    let n = normal_of(face);
    assert(corner_point(p, n, 0) != corner_point(p, n, 1));
    assert(corner_point(p, n, 0) != corner_point(p, n, 2));
    assert(corner_point(p, n, 0) != corner_point(p, n, 3));
    assert(corner_point(p, n, 1) != corner_point(p, n, 2));
    assert(corner_point(p, n, 1) != corner_point(p, n, 3));
    assert(corner_point(p, n, 2) != corner_point(p, n, 3));
}

/// The occlusion of a vertex is a count of at most three solid cells.
pub proof fn lemma_occlusion_range(grid: Grid, chunk: Cell, p: Cell, face: int, k: int)
    requires
        0 <= k < 4,
    ensures
        quad_vertex(grid, chunk, p, face, k).ao <= 3,
{
}

/// Every stored mesh is up to date unless its chunk is marked: a mesh whose
/// chunk is not in the dirty queue is the mesh of the present blocks.
pub open spec fn meshes_current(world: WorldView) -> bool {
    forall|c: Cell|
        world.meshes.contains_key(c) && !world.dirty.contains(c) ==> #[trigger] world.meshes[c]
            == mesh_of(world.grid, c)
}

/// A freshly generated world has every mesh up to date.
pub proof fn lemma_new_world_is_current(world: WorldView, world_size: int)
    requires
        world.meshes == generated_meshes(world.grid, world_size),
    ensures
        meshes_current(world),
{
}

/// Adding a block keeps the meshes up to date: every mesh that the edit
/// makes stale belongs to a chunk that the edit marks.
pub proof fn lemma_add_keeps_meshes_current(world: WorldView, g: Cell, id: u8)
    requires
        meshes_current(world),
    ensures
        meshes_current(after_add(world, g, id)),
{
    let next = after_add(world, g, id);
    if next != world {
        let marked = dirty_set(chunk_of(g), local_of(g));
        assert forall|c: Cell|
            next.meshes.contains_key(c) && !next.dirty.contains(c) implies #[trigger] next.meshes[c]
            == mesh_of(next.grid, c) by {
            lemma_concat_contains(world.dirty, marked, c);
            lemma_unmarked_mesh_unchanged(
                world.grid,
                g,
                Block { block_id: id, block_state: 0 },
                c,
            );
        }
    }
}

/// Removing a block keeps the meshes up to date.
pub proof fn lemma_remove_keeps_meshes_current(world: WorldView, g: Cell)
    requires
        meshes_current(world),
    ensures
        meshes_current(after_remove(world, g)),
{
    let next = after_remove(world, g);
    if next != world {
        let marked = dirty_set(chunk_of(g), local_of(g));
        assert forall|c: Cell|
            next.meshes.contains_key(c) && !next.dirty.contains(c) implies #[trigger] next.meshes[c]
            == mesh_of(next.grid, c) by {
            lemma_concat_contains(world.dirty, marked, c);
            lemma_unmarked_mesh_unchanged(
                world.grid,
                g,
                Block { block_id: 0, block_state: 0 },
                c,
            );
        }
    }
}

/// Rebuilding the stale meshes brings every mesh up to date and leaves no
/// chunk marked.
pub proof fn lemma_remesh_makes_meshes_current(world: WorldView)
    requires
        meshes_current(world),
    ensures
        meshes_current(after_remesh(world)),
        forall|c: Cell| #[trigger]
            after_remesh(world).meshes.contains_key(c) ==> after_remesh(world).meshes[c]
                == mesh_of(world.grid, c),
{
}

proof fn lemma_concat_contains(first: Seq<Cell>, second: Seq<Cell>, c: Cell)
    ensures
        (first + second).contains(c) <==> first.contains(c) || second.contains(c),
{
    let both = first + second;
    if both.contains(c) {
        let j = choose|j: int| 0 <= j < both.len() && both[j] == c;
        if j < first.len() {
            assert(first[j] == c);
        } else {
            assert(second[j - first.len()] == c);
        }
    }
    if first.contains(c) {
        let j = choose|j: int| 0 <= j < first.len() && first[j] == c;
        assert(both[j] == c);
    }
    if second.contains(c) {
        let j = choose|j: int| 0 <= j < second.len() && second[j] == c;
        assert(both[first.len() + j] == c);
    }
}

/// Terrain is seamless: the block generated in a world cell depends on the
/// cell's world coordinates only, not on the chunk it is generated in.
pub proof fn lemma_terrain_is_global(columns: Map<(int, int), int>, world_size: int, g: Cell)
    requires
        in_region(world_size, chunk_of(g)),
    ensures
        block_at(generated_grid(columns, world_size), g) == terrain_block(columns, g),
{
    let chunk = chunk_of(g);
    let p = local_of(g);
    assert(chunk.times(16).plus(p) == g);
    assert(generated_grid(columns, world_size)[chunk] == generated_chunk(columns, chunk));
}

} // verus!
