//! Mesh construction: one quad for every block face that is not hidden by
//! its neighbour, with ambient occlusion sampled across chunk borders.

use vstd::prelude::*;
use crate::atlas::{get_texture_coordinates, texture_corner, Atlas, TexCoord};
use crate::block::{face_of, get_texture, texture_of, Block};
use crate::terrain::chunk::Chunk;
use crate::terrain::coord::{
    cell_of_rank,
    chunk_of,
    global_of,
    in_chunk,
    local_of,
    position_at,
    Cell,
    ChunkPos,
    LocalPos,
    Offset,
    CHUNK_VOLUME,
};
use crate::terrain::grid::{block_at, grid_of, lemma_outside_is_empty, local_block, Grid};
use crate::terrain::mesh_model::{
    face_shown,
    lemma_empty_cell_shows_nothing,
    lemma_missing_chunk_shows_nothing,
    lemma_quad_indices_push,
    lemma_quad_vertices_push,
    lemma_shown_slots_bounds,
    mesh_of,
    normal_seq,
    quad_indices,
    quad_vertex,
    quad_vertices,
    ring_solidity,
    shown_slots,
    slot_cell,
    slot_count,
    slot_face,
    MeshView,
};
use crate::terrain::store::ChunkMap;
use crate::terrain::vertex::{Corner, Vertex};

verus! {

/// 1 for `true`, 0 for `false`.
pub open spec fn indicator(b: bool) -> int {
    if b {
        1
    } else {
        0
    }
}

/// Outward normal of face `face`: faces 0 to 5 point along +x, -x, +y, -y,
/// +z, -z. Any other number gives the zero vector.
pub open spec fn normal_of(face: int) -> Cell {
    Cell {
        x: indicator(face == 0) - indicator(face == 1),
        y: indicator(face == 2) - indicator(face == 3),
        z: indicator(face == 4) - indicator(face == 5),
    }
}

/// First tangent of a face: the normal with its components rotated one place.
pub open spec fn tangent_h(n: Cell) -> Cell {
    Cell { x: n.y, y: n.z, z: n.x }
}

/// Second tangent of a face: the normal with its components rotated two
/// places.
pub open spec fn tangent_v(n: Cell) -> Cell {
    Cell { x: n.z, y: n.x, z: n.y }
}

/// Signs of the two tangents that lead from the middle of a 3 x 3 ring to
/// its `k`-th cell. The ring starts at `+h` and turns towards `+v`.
pub open spec fn ring_step(k: int) -> (int, int) {
    if k == 0 {
        (1, 0)
    } else if k == 1 {
        (1, 1)
    } else if k == 2 {
        (0, 1)
    } else if k == 3 {
        (-1, 1)
    } else if k == 4 {
        (-1, 0)
    } else if k == 5 {
        (-1, -1)
    } else if k == 6 {
        (0, -1)
    } else {
        (1, -1)
    }
}

/// The `k`-th of the eight cells that surround `center` in the plane with
/// normal `n`.
pub open spec fn occluder_cell(center: Cell, n: Cell, k: int) -> Cell {
    center.plus(tangent_h(n).signed(ring_step(k).0)).plus(tangent_v(n).signed(ring_step(k).1))
}

/// Signs of the two tangents at corner `k` of a quad.
pub open spec fn corner_signs(k: int) -> (int, int) {
    if k == 0 {
        (1, 1)
    } else if k == 1 {
        (-1, 1)
    } else if k == 2 {
        (1, -1)
    } else {
        (-1, -1)
    }
}

/// Corner `k` of the face with normal `n` of the block at `p`, in half
/// blocks: the centre of the block, moved half a block along the normal onto
/// the face and half a block along each tangent, with the corner's signs.
pub open spec fn corner_point(p: Cell, n: Cell, k: int) -> Cell {
    p.times(2).plus(Cell { x: 1, y: 1, z: 1 }).plus(n).plus(
        tangent_h(n).signed(corner_signs(k).0),
    ).plus(tangent_v(n).signed(corner_signs(k).1))
}

/// The three ring cells that touch corner `k`.
pub open spec fn corner_samples(k: int) -> (int, int, int) {
    if k == 0 {
        (0, 1, 2)
    } else if k == 1 {
        (2, 3, 4)
    } else if k == 2 {
        (6, 7, 0)
    } else {
        (4, 5, 6)
    }
}

/// A face is flipped when its normal points towards a negative axis, that is
/// when the components of the normal sum to less than zero.
pub open spec fn is_flipped(n: Cell) -> bool {
    n.x + n.y + n.z < 0
}

/// Quarter turns applied to the texture of a face, chosen by the sign of the
/// normal on the horizontal axes.
pub open spec fn texture_turns(n: Cell) -> int {
    if n.z == 1 || n.z == -1 {
        3
    } else if n.x == -1 {
        2
    } else {
        0
    }
}

/// Slot of the texture quad used by corner `k`: on a flipped face the two
/// slots of each row change places.
pub open spec fn texture_slot(k: int, flipped: bool) -> int {
    if k == 0 || k == 2 {
        k + indicator(flipped)
    } else {
        k - indicator(flipped)
    }
}

/// The `j`-th index of the two triangles of a quad whose first vertex has
/// index 0. A flipped quad lists the same indices in reverse order.
pub open spec fn quad_index(flipped: bool, j: int) -> int {
    let k = if flipped {
        5 - j
    } else {
        j
    };
    if k == 0 || k == 3 {
        0
    } else if k == 1 {
        2
    } else if k == 2 || k == 4 {
        3
    } else {
        1
    }
}

/// How many of three samples are solid.
pub open spec fn solid_count(a: bool, b: bool, c: bool) -> int {
    indicator(a) + indicator(b) + indicator(c)
}

/// Vertex `k` of a face, from the face's normal, its atlas tile, the position
/// of its block and the solidity of the eight cells of its ring.
pub open spec fn face_vertex(n: Cell, tile: Atlas, p: Cell, ring: Seq<bool>, k: int) -> Vertex {
    let point = corner_point(p, n, k);
    let tex = texture_corner(tile, texture_turns(n), texture_slot(k, is_flipped(n)));
    let samples = corner_samples(k);
    Vertex {
        position: Corner { x: point.x as i16, y: point.y as i16, z: point.z as i16 },
        tex_coords: TexCoord { u: tex.0 as u8, v: tex.1 as u8 },
        normal: Offset { x: n.x as i8, y: n.y as i8, z: n.z as i8 },
        ao: solid_count(ring[samples.0], ring[samples.1], ring[samples.2]) as u8,
    }
}

/// The six indices of a quad whose first vertex has index `offset`.
///
/// The quad is split into the triangles `(0, 2, 3)` and `(0, 3, 1)`; with
/// `flip` the six indices come in reverse order, which turns the winding
/// around.
pub fn offset_indices(offset: u32, flip: bool) -> (indices: [u32; 6])
    requires
        offset + 3 <= u32::MAX,
    ensures
        forall|j: int| 0 <= j < 6 ==> #[trigger] indices[j] == offset + quad_index(flip, j),
{
    if flip {
        [1 + offset, 3 + offset, offset, 3 + offset, 2 + offset, offset]
    } else {
        [offset, 2 + offset, 3 + offset, offset, 3 + offset, 1 + offset]
    }
}

/// The four corners of the face with normal `normal` of the block at
/// `position`, in half blocks.
pub fn get_corners(normal: Offset, position: LocalPos) -> (corners: [Corner; 4])
    ensures
        forall|k: int|
            0 <= k < 4 ==> {
                let point = corner_point(position@, normal@, k);
                &&& (#[trigger] corners[k]).x == point.x
                &&& corners[k].y == point.y
                &&& corners[k].z == point.z
            },
{
    let nx: i16 = normal.x as i16;
    let ny: i16 = normal.y as i16;
    let nz: i16 = normal.z as i16;
    let mx: i16 = 2 * (position.x as i16) + 1 + nx;
    let my: i16 = 2 * (position.y as i16) + 1 + ny;
    let mz: i16 = 2 * (position.z as i16) + 1 + nz;
    let corners = [
        Corner { x: mx + ny + nz, y: my + nz + nx, z: mz + nx + ny },
        Corner { x: mx - ny + nz, y: my - nz + nx, z: mz - nx + ny },
        Corner { x: mx + ny - nz, y: my + nz - nx, z: mz + nx - ny },
        Corner { x: mx - ny - nz, y: my - nz - nx, z: mz - nx - ny },
    ];
    proof {
        assert(corners[0].x == corner_point(position@, normal@, 0).x);
        assert(corners[1].x == corner_point(position@, normal@, 1).x);
        assert(corners[2].x == corner_point(position@, normal@, 2).x);
        assert(corners[3].x == corner_point(position@, normal@, 3).x);
    }
    corners
}

fn count_solid(a: bool, b: bool, c: bool) -> (count: u8)
    ensures
        count == solid_count(a, b, c),
{
    let mut count: u8 = 0;
    if a {
        count = count + 1;
    }
    if b {
        count = count + 1;
    }
    if c {
        count = count + 1;
    }
    count
}

/// Vertex `k` of a face, put together from the face's corners, its texture
/// quad and the solidity of its ring.
fn corner_vertex(
    k: usize,
    normal: Offset,
    corners: &[Corner; 4],
    textures: &[TexCoord; 4],
    flipped: bool,
    occluders: &[bool; 8],
) -> (vertex: Vertex)
    requires
        k < 4,
    ensures
        vertex.position == corners[k as int],
        vertex.tex_coords == textures[texture_slot(k as int, flipped)],
        vertex.normal == normal,
        vertex.ao == solid_count(
            occluders[corner_samples(k as int).0],
            occluders[corner_samples(k as int).1],
            occluders[corner_samples(k as int).2],
        ),
{
    let flip: usize = if flipped {
        1
    } else {
        0
    };
    if k == 0 {
        Vertex {
            position: corners[0],
            tex_coords: textures[0 + flip],
            normal,
            ao: count_solid(occluders[0], occluders[1], occluders[2]),
        }
    } else if k == 1 {
        Vertex {
            position: corners[1],
            tex_coords: textures[1 - flip],
            normal,
            ao: count_solid(occluders[2], occluders[3], occluders[4]),
        }
    } else if k == 2 {
        Vertex {
            position: corners[2],
            tex_coords: textures[2 + flip],
            normal,
            ao: count_solid(occluders[6], occluders[7], occluders[0]),
        }
    } else {
        Vertex {
            position: corners[3],
            tex_coords: textures[3 - flip],
            normal,
            ao: count_solid(occluders[4], occluders[5], occluders[6]),
        }
    }
}

/// The four vertices of a face.
///
/// `occluders` tells, for each of the eight cells around the cell in front
/// of the face, whether it is solid. Every corner counts the solid cells
/// among the three that touch it.
#[verifier::rlimit(30)]
pub fn get_face(normal: Offset, texture: Atlas, coordinates: LocalPos, occluders: [
    bool;
    8
]) -> (face: [Vertex; 4])
    ensures
        forall|k: int|
            0 <= k < 4 ==> #[trigger] face[k] == face_vertex(
                normal@,
                texture,
                coordinates@,
                occluders@,
                k,
            ),
{
    let mut rotation: u8 = 0;
    if normal.x == -1 {
        rotation = 2;
    }
    if normal.z == -1 {
        rotation = 3;
    }
    if normal.z == 1 {
        rotation = 3;
    }
    let textures = get_texture_coordinates(texture, rotation);
    let corners = get_corners(normal, coordinates);
    let sum: i16 = normal.x as i16 + normal.y as i16 + normal.z as i16;
    let flipped = sum < 0;
    let face = [
        corner_vertex(0, normal, &corners, &textures, flipped, &occluders),
        corner_vertex(1, normal, &corners, &textures, flipped, &occluders),
        corner_vertex(2, normal, &corners, &textures, flipped, &occluders),
        corner_vertex(3, normal, &corners, &textures, flipped, &occluders),
    ];
    proof {
        assert(rotation == texture_turns(normal@));
        assert(flipped == is_flipped(normal@));
        assert forall|k: int| 0 <= k < 4 implies #[trigger] face[k] == face_vertex(
            normal@,
            texture,
            coordinates@,
            occluders@,
            k,
        ) by {
            let slot = texture_slot(k, flipped);
            assert(0 <= slot < 4);
            let expected = face_vertex(normal@, texture, coordinates@, occluders@, k);
            assert(face[k].position == corners[k]);
            assert(face[k].position == expected.position);
            assert(face[k].tex_coords == textures[slot]);
            assert(face[k].tex_coords == expected.tex_coords);
            assert(face[k].normal == expected.normal);
            assert(face[k].ao == expected.ao);
        }
    }
    face
}

/// The eight cells around `position` in the plane with normal `normal`, in
/// ring order.
#[verifier::rlimit(30)]
pub fn get_occluders(position: LocalPos, normal: Offset) -> (ring: [LocalPos; 8])
    requires
        forall|k: int| 0 <= k < 8 ==> #[trigger] occluder_cell(position@, normal@, k).fits_i8(),
    ensures
        forall|k: int| 0 <= k < 8 ==> (#[trigger] ring[k])@ == occluder_cell(position@, normal@, k),
{
    let px: i16 = position.x as i16;
    let py: i16 = position.y as i16;
    let pz: i16 = position.z as i16;
    let hx: i16 = normal.y as i16;
    let hy: i16 = normal.z as i16;
    let hz: i16 = normal.x as i16;
    let vx: i16 = normal.z as i16;
    let vy: i16 = normal.x as i16;
    let vz: i16 = normal.y as i16;
    proof {
        assert(occluder_cell(position@, normal@, 0).fits_i8());
        assert(occluder_cell(position@, normal@, 1).fits_i8());
        assert(occluder_cell(position@, normal@, 2).fits_i8());
        assert(occluder_cell(position@, normal@, 3).fits_i8());
        assert(occluder_cell(position@, normal@, 4).fits_i8());
        assert(occluder_cell(position@, normal@, 5).fits_i8());
        assert(occluder_cell(position@, normal@, 6).fits_i8());
        assert(occluder_cell(position@, normal@, 7).fits_i8());
    }
    let ring = [
        LocalPos { x: (px + hx) as i8, y: (py + hy) as i8, z: (pz + hz) as i8 },
        LocalPos { x: (px + hx + vx) as i8, y: (py + hy + vy) as i8, z: (pz + hz + vz) as i8 },
        LocalPos { x: (px + vx) as i8, y: (py + vy) as i8, z: (pz + vz) as i8 },
        LocalPos { x: (px + vx - hx) as i8, y: (py + vy - hy) as i8, z: (pz + vz - hz) as i8 },
        LocalPos { x: (px - hx) as i8, y: (py - hy) as i8, z: (pz - hz) as i8 },
        LocalPos { x: (px - hx - vx) as i8, y: (py - hy - vy) as i8, z: (pz - hz - vz) as i8 },
        LocalPos { x: (px - vx) as i8, y: (py - vy) as i8, z: (pz - vz) as i8 },
        LocalPos { x: (px - vx + hx) as i8, y: (py - vy + hy) as i8, z: (pz - vz + hz) as i8 },
    ];
    proof {
        assert(ring[0]@ == occluder_cell(position@, normal@, 0));
        assert(ring[1]@ == occluder_cell(position@, normal@, 1));
        assert(ring[2]@ == occluder_cell(position@, normal@, 2));
        assert(ring[3]@ == occluder_cell(position@, normal@, 3));
        assert(ring[4]@ == occluder_cell(position@, normal@, 4));
        assert(ring[5]@ == occluder_cell(position@, normal@, 5));
        assert(ring[6]@ == occluder_cell(position@, normal@, 6));
        assert(ring[7]@ == occluder_cell(position@, normal@, 7));
    }
    ring
}

/// The outward normal of face `face`.
pub fn get_normal(face: u8) -> (normal: Offset)
    ensures
        normal@ == normal_of(face as int),
{
    let x: i8 = if face == 0 {
        1
    } else if face == 1 {
        -1
    } else {
        0
    };
    let y: i8 = if face == 2 {
        1
    } else if face == 3 {
        -1
    } else {
        0
    };
    let z: i8 = if face == 4 {
        1
    } else if face == 5 {
        -1
    } else {
        0
    };
    Offset { x, y, z }
}

/// Whether `position` lies outside the chunk it is relative to.
pub fn outside_chunk(position: &LocalPos) -> (outside: bool)
    ensures
        outside == !in_chunk(position@),
{
    position.x < 0 || position.x >= 16 || position.y < 0 || position.y >= 16 || position.z < 0
        || position.z >= 16
}

/// On one axis: -1 below the chunk, 1 above it, 0 inside.
pub open spec fn axis_step(v: int) -> int {
    if v < 0 {
        -1
    } else if v >= 16 {
        1
    } else {
        0
    }
}

/// Step towards the neighbouring chunk that a position outside the chunk
/// falls into, one chunk at most on each axis.
pub open spec fn relative_chunk(p: Cell) -> Cell {
    Cell { x: axis_step(p.x), y: axis_step(p.y), z: axis_step(p.z) }
}

fn step_of(v: i8) -> (step: i8)
    ensures
        step == axis_step(v as int),
{
    if v < 0 {
        -1
    } else if v >= 16 {
        1
    } else {
        0
    }
}

/// Step from the chunk towards the neighbouring chunk that `position` falls
/// into; zero on every axis on which the position is inside.
pub fn get_relative_chunk(position: &LocalPos) -> (step: Offset)
    ensures
        step@ == relative_chunk(position@),
{
    Offset { x: step_of(position.x), y: step_of(position.y), z: step_of(position.z) }
}

/// Materials that do not hide what lies behind them: water (0), iron bars
/// (7) and glass (9).
pub open spec fn see_through(id: u8) -> bool {
    id == 7 || id == 9 || id == 0
}

/// Whether the content of a cell hides a face of a block of material
/// `self_id` that looks at it.
///
/// An empty cell hides nothing. A see-through material lets a face of its
/// own material show and hides the faces of every other material. Every
/// other block hides every face.
pub open spec fn hides(content: Option<Block>, self_id: u8) -> bool {
    match content {
        None => false,
        Some(block) => if see_through(block.block_id) {
            block.block_id != self_id
        } else {
            true
        },
    }
}

fn is_see_through(id: u8) -> (yes: bool)
    ensures
        yes == see_through(id),
{
    id == 7 || id == 9 || id == 0
}

/// Whether position `relative_pos` of chunk `chunk_pos` hides a face of a
/// block of material `self_id`. A chunk that is not stored hides nothing.
pub fn block_opaque(
    chunks: &ChunkMap<Chunk>,
    chunk_pos: &ChunkPos,
    relative_pos: &LocalPos,
    self_id: u8,
) -> (opaque: bool)
    ensures
        opaque == hides(local_block(grid_of(chunks@), chunk_pos@, relative_pos@), self_id),
{
    match chunks.get(chunk_pos) {
        None => false,
        Some(chunk) => match chunk.get(relative_pos) {
            None => false,
            Some(block) => if is_see_through(block.block_id) {
                block.block_id != self_id
            } else {
                true
            },
        },
    }
}

fn shift_axis(base: i32, step: i8) -> (shifted: Option<i32>)
    ensures
        shifted == (if i32::MIN <= base + step <= i32::MAX {
            Some((base + step) as i32)
        } else {
            None
        }),
{
    let sum: i64 = base as i64 + step as i64;
    if sum < -2147483648 || sum > 2147483647 {
        None
    } else {
        Some(sum as i32)
    }
}

fn unwrap_axis(position: i8, step: i8) -> (wrapped: Option<i8>)
    ensures
        wrapped == (if 0 <= position - 16 * step < 16 {
            Some((position - 16 * step) as i8)
        } else {
            None
        }),
{
    let moved: i16 = position as i16 - 16 * (step as i16);
    if moved < 0 || moved >= 16 {
        None
    } else {
        Some(moved as i8)
    }
}

/// Whether `neighbor`, a position relative to chunk `chunk_pos` that falls
/// into the chunk `normal` steps away, hides a face of a block of material
/// `self_id`. The position is looked up in that other chunk, moved back by a
/// chunk's edge for every step.
pub fn check_neighbor_at_edge_of_chunk(
    chunks: &ChunkMap<Chunk>,
    chunk_pos: &ChunkPos,
    normal: &Offset,
    neighbor: &LocalPos,
    self_id: u8,
) -> (opaque: bool)
    ensures
        opaque == hides(
            local_block(
                grid_of(chunks@),
                chunk_pos@.plus(normal@),
                neighbor@.minus(normal@.times(16)),
            ),
            self_id,
        ),
{
    proof {
        chunks.lemma_grid_wf();
        if !in_chunk(neighbor@.minus(normal@.times(16))) {
            lemma_outside_is_empty(
                grid_of(chunks@),
                chunk_pos@.plus(normal@),
                neighbor@.minus(normal@.times(16)),
            );
        }
    }
    let cx = shift_axis(chunk_pos.x, normal.x);
    let cy = shift_axis(chunk_pos.y, normal.y);
    let cz = shift_axis(chunk_pos.z, normal.z);
    let px = unwrap_axis(neighbor.x, normal.x);
    let py = unwrap_axis(neighbor.y, normal.y);
    let pz = unwrap_axis(neighbor.z, normal.z);
    match (cx, cy, cz, px, py, pz) {
        (Some(cx), Some(cy), Some(cz), Some(px), Some(py), Some(pz)) => {
            let neighbor_chunk = ChunkPos { x: cx, y: cy, z: cz };
            let relative_pos = LocalPos { x: px, y: py, z: pz };
            block_opaque(chunks, &neighbor_chunk, &relative_pos, self_id)
        },
        _ => false,
    }
}

/// Whether the cell at `position`, relative to chunk `chunk_pos`, hides a
/// face of a block of material `self_id`.
///
/// A position inside the chunk is looked up there; one outside is looked up
/// in the neighbouring chunk it falls into, diagonal neighbours included.
/// For every position within one chunk's edge of the chunk this is the
/// content of the world cell `global_of(chunk_pos, position)`.
pub fn neighbor_opaque(
    chunks: &ChunkMap<Chunk>,
    chunk_pos: &ChunkPos,
    position: &LocalPos,
    self_id: u8,
) -> (opaque: bool)
    ensures
        opaque == hides(
            local_block(
                grid_of(chunks@),
                chunk_pos@.plus(relative_chunk(position@)),
                position@.minus(relative_chunk(position@).times(16)),
            ),
            self_id,
        ),
        -16 <= position.x < 32 && -16 <= position.y < 32 && -16 <= position.z < 32 ==> opaque
            == hides(block_at(grid_of(chunks@), global_of(chunk_pos@, position@)), self_id),
{
    proof {
        if -16 <= position.x < 32 && -16 <= position.y < 32 && -16 <= position.z < 32 {
            lemma_resolve(chunk_pos@, position@);
        }
    }
    if outside_chunk(position) {
        let step = get_relative_chunk(position);
        check_neighbor_at_edge_of_chunk(chunks, chunk_pos, &step, position, self_id)
    } else {
        assert(chunk_pos@.plus(relative_chunk(position@)) == chunk_pos@);
        assert(position@.minus(relative_chunk(position@).times(16)) == position@);
        block_opaque(chunks, chunk_pos, position, self_id)
    }
}

/// A position within one chunk's edge of chunk `chunk` names the world cell
/// found in the neighbouring chunk `relative_chunk` steps away, at the
/// position moved back by a chunk's edge for every step.
pub proof fn lemma_resolve(chunk: Cell, p: Cell)
    requires
        -16 <= p.x < 32,
        -16 <= p.y < 32,
        -16 <= p.z < 32,
    ensures
        chunk_of(global_of(chunk, p)) == chunk.plus(relative_chunk(p)),
        local_of(global_of(chunk, p)) == p.minus(relative_chunk(p).times(16)),
{
}

/// The renderable form of a chunk: vertices, triangle indices and the place
/// of the chunk in the world.
#[derive(Debug)]
pub struct Mesh {
    pub vertices: Vec<Vertex>,
    pub indices: Vec<u32>,
    /// World cell of the chunk's corner of least coordinates.
    pub origin: (i64, i64, i64),
    pub num_indices: usize,
}

impl View for Mesh {
    type V = MeshView;

    open spec fn view(&self) -> MeshView {
        MeshView {
            vertices: self.vertices@,
            indices: self.indices@,
            origin: Cell { x: self.origin.0 as int, y: self.origin.1 as int, z: self.origin.2 as int },
            num_indices: self.num_indices as nat,
        }
    }
}

/// The ring around the cell in front of a face of an in-chunk block stays
/// within one block of the chunk.
proof fn lemma_ring_in_reach(p: Cell, face: int, k: int)
    requires
        in_chunk(p),
        0 <= face < 6,
        0 <= k < 8,
    ensures
        ({
            let cell = occluder_cell(p.plus(normal_of(face)), normal_of(face), k);
            &&& -1 <= cell.x <= 16
            &&& -1 <= cell.y <= 16
            &&& -1 <= cell.z <= 16
        }),
{
}

/// Whether the cell at `position`, within one block of chunk `chunk_pos`,
/// is solid towards material `id`.
fn solid_at(chunks: &ChunkMap<Chunk>, chunk_pos: &ChunkPos, position: &LocalPos, id: u8) -> (solid:
    bool)
    requires
        -1 <= position.x <= 16,
        -1 <= position.y <= 16,
        -1 <= position.z <= 16,
    ensures
        solid == hides(block_at(grid_of(chunks@), global_of(chunk_pos@, position@)), id),
{
    neighbor_opaque(chunks, chunk_pos, position, id)
}

/// Solidity, towards material `id`, of the eight cells around the cell that
/// face `face` of the block at `position` looks at.
fn sample_ring(
    chunks: &ChunkMap<Chunk>,
    chunk_pos: &ChunkPos,
    position: LocalPos,
    face: u8,
    id: u8,
) -> (flags: [bool; 8])
    requires
        in_chunk(position@),
        face < 6,
    ensures
        flags@ == ring_solidity(grid_of(chunks@), chunk_pos@, position@, face as int, id),
{
    let normal = get_normal(face);
    let center = LocalPos {
        x: position.x + normal.x,
        y: position.y + normal.y,
        z: position.z + normal.z,
    };
    proof {
        assert(center@ == position@.plus(normal_of(face as int)));
        assert forall|k: int| 0 <= k < 8 implies {
            let cell = #[trigger] occluder_cell(center@, normal@, k);
            &&& -1 <= cell.x <= 16
            &&& -1 <= cell.y <= 16
            &&& -1 <= cell.z <= 16
        } by {
            lemma_ring_in_reach(position@, face as int, k);
        }
    }
    let ring = get_occluders(center, normal);
    proof {
        assert forall|k: int| 0 <= k < 8 implies -1 <= (#[trigger] ring[k]).x <= 16 && -1
            <= ring[k].y <= 16 && -1 <= ring[k].z <= 16 by {
            assert(ring[k]@ == occluder_cell(center@, normal@, k));
        }
    }
    let flags = [
        solid_at(chunks, chunk_pos, &ring[0], id),
        solid_at(chunks, chunk_pos, &ring[1], id),
        solid_at(chunks, chunk_pos, &ring[2], id),
        solid_at(chunks, chunk_pos, &ring[3], id),
        solid_at(chunks, chunk_pos, &ring[4], id),
        solid_at(chunks, chunk_pos, &ring[5], id),
        solid_at(chunks, chunk_pos, &ring[6], id),
        solid_at(chunks, chunk_pos, &ring[7], id),
    ];
    proof {
        let expected = ring_solidity(grid_of(chunks@), chunk_pos@, position@, face as int, id);
        assert forall|k: int| 0 <= k < 8 implies flags@[k] == expected[k] by {
            assert(ring[k]@ == occluder_cell(center@, normal@, k));
        }
        assert(flags@ =~= expected);
    }
    flags
}

/// Appends one quad to the buffers of a mesh.
fn push_quad(
    vertices: &mut Vec<Vertex>,
    indices: &mut Vec<u32>,
    quad: &[Vertex; 4],
    corners: &[u32; 6],
)
    ensures
        final(vertices)@ == old(vertices)@.push(quad[0]).push(quad[1]).push(quad[2]).push(quad[3]),
        final(indices)@ == old(indices)@.push(corners[0]).push(corners[1]).push(corners[2]).push(
            corners[3],
        ).push(corners[4]).push(corners[5]),
{
    vertices.push(quad[0]);
    vertices.push(quad[1]);
    vertices.push(quad[2]);
    vertices.push(quad[3]);
    indices.push(corners[0]);
    indices.push(corners[1]);
    indices.push(corners[2]);
    indices.push(corners[3]);
    indices.push(corners[4]);
    indices.push(corners[5]);
}

/// The quad that `get_face` builds for a shown face is the quad of the
/// mesh model.
proof fn lemma_quad_is_model(
    grid: Grid,
    chunk: Cell,
    p: Cell,
    face: int,
    id: u8,
    tile: Atlas,
    ring: Seq<bool>,
    k: int,
)
    requires
        grid.contains_key(chunk),
        grid[chunk].contains_key(p),
        grid[chunk][p].block_id == id,
        tile == texture_of(id, face_of(normal_seq(normal_of(face)))),
        ring == ring_solidity(grid, chunk, p, face, id),
    ensures
        face_vertex(normal_of(face), tile, p, ring, k) == quad_vertex(grid, chunk, p, face, k),
{
}

/// Appends face `face` of the block of rank `rank` to the buffers, if the
/// face is shown.
#[verifier::rlimit(30)]
fn mesh_face(
    chunks: &ChunkMap<Chunk>,
    chunk_pos: &ChunkPos,
    rank: u16,
    face: u8,
    block: Block,
    vertices: &mut Vec<Vertex>,
    indices: &mut Vec<u32>,
    off: &mut u32,
)
    requires
        rank < CHUNK_VOLUME,
        face < 6,
        local_block(grid_of(chunks@), chunk_pos@, cell_of_rank(rank as int)) == Some(block),
        old(vertices)@ == quad_vertices(
            grid_of(chunks@),
            chunk_pos@,
            shown_slots(grid_of(chunks@), chunk_pos@, 6 * rank + face),
        ),
        old(indices)@ == quad_indices(shown_slots(grid_of(chunks@), chunk_pos@, 6 * rank + face)),
        *old(off) == 4 * shown_slots(grid_of(chunks@), chunk_pos@, 6 * rank + face).len(),
    ensures
        final(vertices)@ == quad_vertices(
            grid_of(chunks@),
            chunk_pos@,
            shown_slots(grid_of(chunks@), chunk_pos@, 6 * rank + face + 1),
        ),
        final(indices)@ == quad_indices(
            shown_slots(grid_of(chunks@), chunk_pos@, 6 * rank + face + 1),
        ),
        *final(off) == 4 * shown_slots(grid_of(chunks@), chunk_pos@, 6 * rank + face + 1).len(),
{
    let ghost grid = grid_of(chunks@);
    let ghost chunk = chunk_pos@;
    let ghost slot = 6 * rank + face;
    let ghost before = shown_slots(grid, chunk, slot);
    let position = position_at(rank);
    let normal = get_normal(face);
    proof {
        lemma_shown_slots_bounds(grid, chunk, slot);
        assert(slot_cell(slot) == position@) by {
            assert(slot / 6 == rank);
        }
        assert(slot_face(slot) == face) by {
            assert(slot % 6 == face);
        }
        assert(normal@ == normal_of(face as int));
    }
    let neighbor = LocalPos {
        x: position.x + normal.x,
        y: position.y + normal.y,
        z: position.z + normal.z,
    };
    assert(neighbor@ == position@.plus(normal_of(face as int)));
    let hidden = neighbor_opaque(chunks, chunk_pos, &neighbor, block.block_id);
    assert(face_shown(grid, chunk, position@, face as int) == !hidden);
    if !hidden {
        let occluders = sample_ring(chunks, chunk_pos, position, face, block.block_id);
        let flip = face == 1 || face == 3 || face == 5;
        let texture = get_texture(block.block_id, [normal.x, normal.y, normal.z]);
        let quad = get_face(normal, texture, position, occluders);
        let corners = offset_indices(*off, flip);
        push_quad(vertices, indices, &quad, &corners);
        *off = *off + 4;
        proof {
            assert(shown_slots(grid, chunk, slot + 1) == before.push(slot));
            assert(flip == is_flipped(normal_of(face as int)));
            assert(face_of([normal.x, normal.y, normal.z]@) == face_of(normal_seq(normal@)));
            assert forall|k: int| 0 <= k < 4 implies #[trigger] quad[k] == quad_vertex(
                grid,
                chunk,
                position@,
                face as int,
                k,
            ) by {
                lemma_quad_is_model(
                    grid,
                    chunk,
                    position@,
                    face as int,
                    block.block_id,
                    texture,
                    occluders@,
                    k,
                );
            }
            lemma_quad_vertices_push(grid, chunk, before, slot);
            lemma_quad_indices_push(before, slot);
        }
    } else {
        assert(shown_slots(grid, chunk, slot + 1) == before);
    }
}

/// Appends the shown faces of the block of rank `rank` to the buffers.
fn mesh_block(
    chunks: &ChunkMap<Chunk>,
    chunk_pos: &ChunkPos,
    rank: u16,
    block: Block,
    vertices: &mut Vec<Vertex>,
    indices: &mut Vec<u32>,
    off: &mut u32,
)
    requires
        rank < CHUNK_VOLUME,
        local_block(grid_of(chunks@), chunk_pos@, cell_of_rank(rank as int)) == Some(block),
        old(vertices)@ == quad_vertices(
            grid_of(chunks@),
            chunk_pos@,
            shown_slots(grid_of(chunks@), chunk_pos@, 6 * rank),
        ),
        old(indices)@ == quad_indices(shown_slots(grid_of(chunks@), chunk_pos@, 6 * rank)),
        *old(off) == 4 * shown_slots(grid_of(chunks@), chunk_pos@, 6 * rank).len(),
    ensures
        final(vertices)@ == quad_vertices(
            grid_of(chunks@),
            chunk_pos@,
            shown_slots(grid_of(chunks@), chunk_pos@, 6 * rank + 6),
        ),
        final(indices)@ == quad_indices(shown_slots(grid_of(chunks@), chunk_pos@, 6 * rank + 6)),
        *final(off) == 4 * shown_slots(grid_of(chunks@), chunk_pos@, 6 * rank + 6).len(),
{
    let mut face: u8 = 0;
    while face < 6
        invariant
            face <= 6,
            rank < CHUNK_VOLUME,
            local_block(grid_of(chunks@), chunk_pos@, cell_of_rank(rank as int)) == Some(block),
            vertices@ == quad_vertices(
                grid_of(chunks@),
                chunk_pos@,
                shown_slots(grid_of(chunks@), chunk_pos@, 6 * rank + face),
            ),
            indices@ == quad_indices(shown_slots(grid_of(chunks@), chunk_pos@, 6 * rank + face)),
            *off == 4 * shown_slots(grid_of(chunks@), chunk_pos@, 6 * rank + face).len(),
        decreases 6 - face,
    {
        mesh_face(chunks, chunk_pos, rank, face, block, vertices, indices, off);
        face = face + 1;
    }
}

/// Builds the mesh of the chunk at `chunk_pos`.
///
/// Cells are visited x-major, then y, then z, and the six faces of each
/// block in the order of `get_normal`. A face is part of the mesh when the
/// cell it looks at does not hide it; that cell, and the cells sampled for
/// ambient occlusion, are looked up in the neighbouring chunks where they
/// fall outside this one. A chunk that is not stored hides nothing, and the
/// mesh of a chunk that is not stored is empty.
///
/// The mesh is a function of the stored chunks and the coordinate alone.
pub fn get_mesh(chunks: &ChunkMap<Chunk>, chunk_pos: ChunkPos) -> (mesh: Mesh)
    ensures
        mesh@ == mesh_of(grid_of(chunks@), chunk_pos@),
{
    let mut vertices: Vec<Vertex> = Vec::new();
    let mut indices: Vec<u32> = Vec::new();
    let mut off: u32 = 0;
    let ghost grid = grid_of(chunks@);
    let ghost chunk = chunk_pos@;
    match chunks.get(&chunk_pos) {
        None => {
            proof {
                lemma_missing_chunk_shows_nothing(grid, chunk, slot_count());
            }
        },
        Some(voxeldata) => {
            let mut rank: u16 = 0;
            while rank < CHUNK_VOLUME
                invariant
                    rank <= CHUNK_VOLUME,
                    grid == grid_of(chunks@),
                    chunk == chunk_pos@,
                    chunks@.contains_key(chunk),
                    *voxeldata == chunks@[chunk],
                    vertices@ == quad_vertices(grid, chunk, shown_slots(grid, chunk, 6 * rank)),
                    indices@ == quad_indices(shown_slots(grid, chunk, 6 * rank)),
                    off == 4 * shown_slots(grid, chunk, 6 * rank).len(),
                decreases CHUNK_VOLUME - rank,
            {
                let position = position_at(rank);
                match voxeldata.get(&position) {
                    Some(block) => {
                        mesh_block(
                            chunks,
                            &chunk_pos,
                            rank,
                            block,
                            &mut vertices,
                            &mut indices,
                            &mut off,
                        );
                    },
                    None => {
                        proof {
                            lemma_empty_cell_shows_nothing(grid, chunk, rank as int);
                        }
                    },
                }
                rank = rank + 1;
            }
        },
    }
    let num_indices = indices.len();
    let mesh = Mesh {
        vertices,
        indices,
        origin: (chunk_pos.x as i64 * 16, chunk_pos.y as i64 * 16, chunk_pos.z as i64 * 16),
        num_indices,
    };
    assert(mesh@.vertices =~= mesh_of(grid, chunk).vertices);
    assert(mesh@.indices =~= mesh_of(grid, chunk).indices);
    mesh
}

} // verus!
