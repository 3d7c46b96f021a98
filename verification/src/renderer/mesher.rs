//! The mesh of a dense chunk: one quad for every face of a solid cell that
//! looks at an empty cell or out of the chunk.

use vstd::prelude::*;
use crate::atlas::{get_texture_coordinates, texture_corner, Atlas, TexCoord};
use crate::renderer::face_count::{lemma_face_count, lemma_slots_grow};
use crate::renderer::vertex::Vertex;
use crate::renderer::vertexer::{generic_face, Chunk};
use crate::terrain::coord::{cell_of_rank, in_chunk, position_at, Cell, CHUNK_VOLUME};
use crate::terrain::mesh_model::{slot_cell, slot_face};
use crate::terrain::vertex::Corner;

verus! {

/// The six indices of a quad whose first vertex has index `offset`.
pub fn offset_indices(offset: u16) -> (indices: [u16; 6])
    requires
        offset + 3 <= u16::MAX,
    ensures
        forall|j: int| 0 <= j < 6 ==> #[trigger] indices[j] == offset + generic_face(j),
{
    [offset, 2 + offset, 3 + offset, offset, 3 + offset, 1 + offset]
}

/// Corner `corner` of the cell at `c`, in half blocks. The three low bits of
/// `corner` choose the upper end of the cell along x (4), y (2) and z (1).
/// Numbers above 7 name no corner and give the origin.
pub open spec fn cell_corner(corner: int, c: Cell) -> Cell {
    if 0 <= corner < 8 {
        Cell {
            x: 2 * c.x + (if corner / 4 == 1 {
                1int
            } else {
                -1int
            }),
            y: 2 * c.y + (if (corner / 2) % 2 == 1 {
                1int
            } else {
                -1int
            }),
            z: 2 * c.z + (if corner % 2 == 1 {
                1int
            } else {
                -1int
            }),
        }
    } else {
        Cell { x: 0, y: 0, z: 0 }
    }
}

/// The corner of the cell that vertex `k` of face `face` sits on. Faces 0 to
/// 5 look along -x, +x, -y, +y, -z, +z; other numbers name no face.
pub open spec fn face_corner(face: int, k: int) -> int {
    if face == 0 {
        if k == 0 { 2 } else if k == 1 { 3 } else if k == 2 { 0 } else { 1 }
    } else if face == 1 {
        if k == 0 { 7 } else if k == 1 { 6 } else if k == 2 { 5 } else { 4 }
    } else if face == 2 {
        if k == 0 { 5 } else if k == 1 { 4 } else if k == 2 { 1 } else { 0 }
    } else if face == 3 {
        if k == 0 { 3 } else if k == 1 { 2 } else if k == 2 { 7 } else { 6 }
    } else if face == 4 {
        if k == 0 { 6 } else if k == 1 { 2 } else if k == 2 { 4 } else { 0 }
    } else if face == 5 {
        if k == 0 { 3 } else if k == 1 { 7 } else if k == 2 { 1 } else { 5 }
    } else {
        8
    }
}

/// Vertex `k` of face `face` of the cell at `c`, textured with `tile`.
pub open spec fn dense_vertex(face: int, tile: Atlas, c: Cell, k: int) -> Vertex {
    let point = cell_corner(face_corner(face, k), c);
    let tex = texture_corner(tile, 0, k);
    Vertex {
        position: Corner { x: point.x as i16, y: point.y as i16, z: point.z as i16 },
        tex_coords: TexCoord { u: tex.0 as u8, v: tex.1 as u8 },
    }
}

/// The cell that face `face` of cell `c` looks at.
pub open spec fn facing_cell(c: Cell, face: int) -> Cell {
    if face == 0 {
        Cell { x: c.x - 1, y: c.y, z: c.z }
    } else if face == 1 {
        Cell { x: c.x + 1, y: c.y, z: c.z }
    } else if face == 2 {
        Cell { x: c.x, y: c.y - 1, z: c.z }
    } else if face == 3 {
        Cell { x: c.x, y: c.y + 1, z: c.z }
    } else if face == 4 {
        Cell { x: c.x, y: c.y, z: c.z - 1 }
    } else if face == 5 {
        Cell { x: c.x, y: c.y, z: c.z + 1 }
    } else {
        c
    }
}

/// Corner `corner` of the cell at `coordinates`, in half blocks.
pub fn get_corner(corner: u8, coordinates: [i8; 3]) -> (point: Corner)
    ensures
        ({
            let expected = cell_corner(
                corner as int,
                Cell {
                    x: coordinates[0] as int,
                    y: coordinates[1] as int,
                    z: coordinates[2] as int,
                },
            );
            point.x == expected.x && point.y == expected.y && point.z == expected.z
        }),
{
    let x: i16 = 2 * (coordinates[0] as i16);
    let y: i16 = 2 * (coordinates[1] as i16);
    let z: i16 = 2 * (coordinates[2] as i16);
    match corner {
        0 => Corner { x: x - 1, y: y - 1, z: z - 1 },
        1 => Corner { x: x - 1, y: y - 1, z: z + 1 },
        2 => Corner { x: x - 1, y: y + 1, z: z - 1 },
        3 => Corner { x: x - 1, y: y + 1, z: z + 1 },
        4 => Corner { x: x + 1, y: y - 1, z: z - 1 },
        5 => Corner { x: x + 1, y: y - 1, z: z + 1 },
        6 => Corner { x: x + 1, y: y + 1, z: z - 1 },
        7 => Corner { x: x + 1, y: y + 1, z: z + 1 },
        _ => Corner { x: 0, y: 0, z: 0 },
    }
}

/// The four vertices of face `face` of the cell at `coordinates`.
pub fn get_face(face: u8, texture: Atlas, coordinates: [i8; 3]) -> (quad: [Vertex; 4])
    ensures
        forall|k: int|
            0 <= k < 4 ==> #[trigger] quad[k] == dense_vertex(
                face as int,
                texture,
                Cell {
                    x: coordinates[0] as int,
                    y: coordinates[1] as int,
                    z: coordinates[2] as int,
                },
                k,
            ),
{
    let textures = get_texture_coordinates(texture, 0);
    let corners: [u8; 4] = match face {
        0 => [2, 3, 0, 1],
        1 => [7, 6, 5, 4],
        2 => [5, 4, 1, 0],
        3 => [3, 2, 7, 6],
        4 => [6, 2, 4, 0],
        5 => [3, 7, 1, 5],
        _ => [8, 8, 8, 8],
    };
    assert forall|k: int| 0 <= k < 4 implies #[trigger] corners[k] == face_corner(face as int, k) by {}
    [
        Vertex { position: get_corner(corners[0], coordinates), tex_coords: textures[0] },
        Vertex { position: get_corner(corners[1], coordinates), tex_coords: textures[1] },
        Vertex { position: get_corner(corners[2], coordinates), tex_coords: textures[2] },
        Vertex { position: get_corner(corners[3], coordinates), tex_coords: textures[3] },
    ]
}

/// The cell that face `face` of the cell `current` looks at.
pub fn get_neighbor(current: [usize; 3], face: u8) -> (neighbor: [usize; 3])
    requires
        face == 0 ==> current[0] > 0,
        face == 1 ==> current[0] < usize::MAX,
        face == 2 ==> current[1] > 0,
        face == 3 ==> current[1] < usize::MAX,
        face == 4 ==> current[2] > 0,
        face == 5 ==> current[2] < usize::MAX,
    ensures
        ({
            let expected = facing_cell(
                Cell { x: current[0] as int, y: current[1] as int, z: current[2] as int },
                face as int,
            );
            neighbor[0] == expected.x && neighbor[1] == expected.y && neighbor[2] == expected.z
        }),
{
    let x = current[0];
    let y = current[1];
    let z = current[2];
    match face {
        0 => [x - 1, y, z],
        1 => [x + 1, y, z],
        2 => [x, y - 1, z],
        3 => [x, y + 1, z],
        4 => [x, y, z - 1],
        5 => [x, y, z + 1],
        _ => [x, y, z],
    }
}

/// The tile that every face of a dense-chunk mesh is textured with.
pub open spec fn dense_tile() -> Atlas {
    Atlas::Stone
}

/// The cell at `c` holds a block: its material is not 0.
pub open spec fn dense_solid(chunk: Chunk, c: Cell) -> bool {
    chunk[c.x][c.y][c.z].block_id != 0
}

/// Face `face` of the cell at `c` is shown: the cell is solid and the face
/// looks at an empty cell or out of the chunk.
pub open spec fn dense_shown(chunk: Chunk, c: Cell, face: int) -> bool {
    dense_solid(chunk, c) && (!in_chunk(facing_cell(c, face)) || !dense_solid(
        chunk,
        facing_cell(c, face),
    ))
}

/// The slots below `upto` whose face is shown, in ascending order. Slot
/// `6 * r + f` is face `f` of the cell of rank `r`.
pub open spec fn dense_slots(chunk: Chunk, upto: int) -> Seq<int>
    decreases upto,
{
    if upto <= 0 {
        Seq::empty()
    } else {
        let below = dense_slots(chunk, upto - 1);
        if dense_shown(chunk, slot_cell(upto - 1), slot_face(upto - 1)) {
            below.push(upto - 1)
        } else {
            below
        }
    }
}

/// The vertices of the quads of `slots`: four for each slot, in order.
pub open spec fn dense_vertices(slots: Seq<int>) -> Seq<Vertex> {
    Seq::new(
        4 * slots.len(),
        |i: int| dense_vertex(slot_face(slots[i / 4]), dense_tile(), slot_cell(slots[i / 4]), i % 4),
    )
}

/// The indices of a mesh of `count` quads: the pattern of one quad, moved on
/// by four for every quad.
pub open spec fn dense_indices(count: nat) -> Seq<u16> {
    Seq::new(6 * count, |i: int| (4 * (i / 6) + generic_face(i % 6)) as u16)
}

proof fn lemma_dense_vertices_push(slots: Seq<int>, slot: int)
    ensures
        dense_vertices(slots.push(slot)) == dense_vertices(slots).push(
            dense_vertex(slot_face(slot), dense_tile(), slot_cell(slot), 0),
        ).push(dense_vertex(slot_face(slot), dense_tile(), slot_cell(slot), 1)).push(
            dense_vertex(slot_face(slot), dense_tile(), slot_cell(slot), 2),
        ).push(dense_vertex(slot_face(slot), dense_tile(), slot_cell(slot), 3)),
{
    let longer = dense_vertices(slots.push(slot));
    let pushed = dense_vertices(slots).push(
        dense_vertex(slot_face(slot), dense_tile(), slot_cell(slot), 0),
    ).push(dense_vertex(slot_face(slot), dense_tile(), slot_cell(slot), 1)).push(
        dense_vertex(slot_face(slot), dense_tile(), slot_cell(slot), 2),
    ).push(dense_vertex(slot_face(slot), dense_tile(), slot_cell(slot), 3));
    assert(longer.len() == pushed.len());
    assert forall|i: int| 0 <= i < longer.len() implies longer[i] == pushed[i] by {
        if i < 4 * slots.len() {
            assert(i / 4 < slots.len());
            assert(slots.push(slot)[i / 4] == slots[i / 4]);
        } else {
            assert(i / 4 == slots.len());
            assert(slots.push(slot)[i / 4] == slot);
        }
    }
    assert(longer =~= pushed);
}

proof fn lemma_dense_indices_push(count: nat)
    ensures
        dense_indices(count + 1) == dense_indices(count).push(
            (4 * count + generic_face(0)) as u16,
        ).push((4 * count + generic_face(1)) as u16).push(
            (4 * count + generic_face(2)) as u16,
        ).push((4 * count + generic_face(3)) as u16).push(
            (4 * count + generic_face(4)) as u16,
        ).push((4 * count + generic_face(5)) as u16),
{
    let longer = dense_indices(count + 1);
    let pushed = dense_indices(count).push((4 * count + generic_face(0)) as u16).push(
        (4 * count + generic_face(1)) as u16,
    ).push((4 * count + generic_face(2)) as u16).push((4 * count + generic_face(3)) as u16).push(
        (4 * count + generic_face(4)) as u16,
    ).push((4 * count + generic_face(5)) as u16);
    assert(longer.len() == pushed.len());
    assert forall|i: int| 0 <= i < longer.len() implies longer[i] == pushed[i] by {
        if i >= 6 * count {
            assert(i / 6 == count);
        }
    }
    assert(longer =~= pushed);
}

/// The mesh of a dense chunk.
#[derive(Debug)]
pub struct Mesh {
    pub vertices: Vec<Vertex>,
    pub indices: Vec<u16>,
}

/// Builds the mesh of a dense chunk.
///
/// Cells are visited x-major, then y, then z, and the six faces of each
/// solid cell in order. A face is part of the mesh when it looks at an empty
/// cell or out of the chunk. Every face is textured with the same tile.
pub fn get_mesh(voxeldata: Chunk) -> (mesh: Mesh)
    ensures
        mesh.vertices@ == dense_vertices(dense_slots(voxeldata, 24576)),
        mesh.indices@ == dense_indices(dense_slots(voxeldata, 24576).len()),
{
    let mut verts: Vec<Vertex> = Vec::new();
    let mut inds: Vec<u16> = Vec::new();
    let mut off: u16 = 0;
    let mut rank: u16 = 0;
    proof {
        lemma_face_count(voxeldata);
    }
    assert(verts@ =~= dense_vertices(dense_slots(voxeldata, 0)));
    assert(inds@ =~= dense_indices(0));
    while rank < CHUNK_VOLUME
        invariant
            rank <= CHUNK_VOLUME,
            dense_slots(voxeldata, 24576).len() <= 13056,
            verts@ == dense_vertices(dense_slots(voxeldata, 6 * rank)),
            inds@ == dense_indices(dense_slots(voxeldata, 6 * rank).len()),
            off == 4 * dense_slots(voxeldata, 6 * rank).len(),
        decreases CHUNK_VOLUME - rank,
    {
        let position = position_at(rank);
        let x: usize = position.x as usize;
        let y: usize = position.y as usize;
        let z: usize = position.z as usize;
        let solid = voxeldata[x][y][z].block_id != 0;
        let mut face: u8 = 0;
        while face < 6
            invariant
                face <= 6,
                rank < CHUNK_VOLUME,
                position@ == cell_of_rank(rank as int),
                in_chunk(position@),
                x == position.x,
                y == position.y,
                z == position.z,
                solid == dense_solid(voxeldata, position@),
                dense_slots(voxeldata, 24576).len() <= 13056,
                verts@ == dense_vertices(dense_slots(voxeldata, 6 * rank + face)),
                inds@ == dense_indices(dense_slots(voxeldata, 6 * rank + face).len()),
                off == 4 * dense_slots(voxeldata, 6 * rank + face).len(),
            decreases 6 - face,
        {
            let ghost slot = 6 * rank + face;
            let ghost before = dense_slots(voxeldata, slot);
            proof {
                assert(slot_cell(slot) == position@);
                assert(slot_face(slot) == face);
                lemma_slots_grow(voxeldata, slot + 1, 24576);
            }
            if solid {
                let neighbor;
                let x_border = (x == 0 && face == 0) || (x == 15 && face == 1);
                let y_border = (y == 0 && face == 2) || (y == 15 && face == 3);
                let z_border = (z == 0 && face == 4) || (z == 15 && face == 5);
                if x_border || y_border || z_border {
                    neighbor = false;
                } else {
                    let next = get_neighbor([x, y, z], face);
                    neighbor = voxeldata[next[0]][next[1]][next[2]].block_id != 0;
                }

                if !neighbor {
                    let quad = get_face(face, Atlas::Stone, [position.x, position.y, position.z]);
                    let corners = offset_indices(off);
                    verts.push(quad[0]);
                    verts.push(quad[1]);
                    verts.push(quad[2]);
                    verts.push(quad[3]);
                    inds.push(corners[0]);
                    inds.push(corners[1]);
                    inds.push(corners[2]);
                    inds.push(corners[3]);
                    inds.push(corners[4]);
                    inds.push(corners[5]);
                    off = off + 4;
                    proof {
                        assert(dense_shown(voxeldata, position@, face as int));
                        assert(dense_slots(voxeldata, slot + 1) == before.push(slot));
                        lemma_dense_vertices_push(before, slot);
                        lemma_dense_indices_push(before.len());
                    }
                } else {
                    assert(!dense_shown(voxeldata, position@, face as int));
                }
            }
            face = face + 1;
        }
        rank = rank + 1;
    }
    Mesh { vertices: verts, indices: inds }
}

} // verus!
