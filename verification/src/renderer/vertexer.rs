//! A dense chunk and the unit cube it is drawn with.

use vstd::prelude::*;
use crate::atlas::TexCoord;
use crate::block::Block;
use crate::renderer::vertex::Vertex;
use crate::terrain::vertex::Corner;

verus! {

/// A dense chunk: the block of every cell, indexed `[x][y][z]`.
pub type Chunk = [[[Block; 16]; 16]; 16];

/// The index pattern of a quad: the triangles `(0, 2, 3)` and `(0, 3, 1)`.
pub open spec fn generic_face(j: int) -> int {
    if j == 0 || j == 3 {
        0
    } else if j == 1 {
        2
    } else if j == 2 || j == 4 {
        3
    } else {
        1
    }
}

/// Vertex `i` of the unit cube centred on the origin, in half blocks.
///
/// The four front vertices (`z = 1`) come first, the four back ones after
/// them; in each group the order is top-left, top-right, bottom-left,
/// bottom-right as seen from the front. Texture coordinates are in
/// sixteenths of the atlas edge and address the tile at `(0, 1)`; the back
/// face mirrors them left to right.
pub open spec fn cube_vertex(i: int) -> Vertex {
    let right = i % 2 == 1;
    let bottom = (i / 2) % 2 == 1;
    let back = i >= 4;
    Vertex {
        position: Corner {
            x: if right {
                1i16
            } else {
                -1i16
            },
            y: if bottom {
                -1i16
            } else {
                1i16
            },
            z: if back {
                -1i16
            } else {
                1i16
            },
        },
        tex_coords: TexCoord {
            u: if right != back {
                1u8
            } else {
                0u8
            },
            v: if bottom {
                2u8
            } else {
                1u8
            },
        },
    }
}

/// Adds `offset` to each of the six indices of a face.
pub fn offset_face(face: [u16; 6], offset: u16) -> (moved: [u16; 6])
    requires
        forall|j: int| 0 <= j < 6 ==> #[trigger] face[j] + offset <= u16::MAX,
    ensures
        forall|j: int| 0 <= j < 6 ==> #[trigger] moved[j] == face[j] + offset,
{
    [
        face[0] + offset,
        face[1] + offset,
        face[2] + offset,
        face[3] + offset,
        face[4] + offset,
        face[5] + offset,
    ]
}

/// Holds a dense chunk while it is edited and drawn.
#[derive(Debug, Clone, Copy)]
pub struct Vertexer {
    pub voxeldata: Chunk,
}

impl Vertexer {
    /// Takes a chunk.
    pub fn new(chunk: Chunk) -> (vertexer: Vertexer)
        ensures
            vertexer.voxeldata == chunk,
    {
        Vertexer { voxeldata: chunk }
    }

    /// Replaces the block at `pos` and leaves every other cell as it is.
    pub fn change_block(&mut self, pos: [usize; 3], new_block: Block)
        requires
            pos[0] < 16,
            pos[1] < 16,
            pos[2] < 16,
        ensures
            forall|x: int, y: int, z: int|
                0 <= x < 16 && 0 <= y < 16 && 0 <= z < 16
                    ==> #[trigger] final(self).voxeldata[x][y][z] == (if x == pos[0] && y == pos[1]
                    && z == pos[2] {
                    new_block
                } else {
                    old(self).voxeldata[x][y][z]
                }),
    {
        self.voxeldata[pos[0]][pos[1]][pos[2]] = new_block;
    }

    /// The eight vertices of the unit cube.
    pub fn get_vertices() -> (vertices: [Vertex; 8])
        ensures
            forall|i: int| 0 <= i < 8 ==> #[trigger] vertices[i] == cube_vertex(i),
    {
        let tl = TexCoord { u: 0, v: 1 };
        let tr = TexCoord { u: 1, v: 1 };
        let bl = TexCoord { u: 0, v: 2 };
        let br = TexCoord { u: 1, v: 2 };
        [
            Vertex { position: Corner { x: -1, y: 1, z: 1 }, tex_coords: tl },
            Vertex { position: Corner { x: 1, y: 1, z: 1 }, tex_coords: tr },
            Vertex { position: Corner { x: -1, y: -1, z: 1 }, tex_coords: bl },
            Vertex { position: Corner { x: 1, y: -1, z: 1 }, tex_coords: br },
            Vertex { position: Corner { x: -1, y: 1, z: -1 }, tex_coords: tr },
            Vertex { position: Corner { x: 1, y: 1, z: -1 }, tex_coords: tl },
            Vertex { position: Corner { x: -1, y: -1, z: -1 }, tex_coords: br },
            Vertex { position: Corner { x: 1, y: -1, z: -1 }, tex_coords: bl },
        ]
    }

    /// Indices for six quads of four vertices each: the pattern of one quad,
    /// moved on by four for every quad.
    pub fn get_indices() -> (indices: [u16; 36])
        ensures
            forall|i: int| 0 <= i < 36 ==> #[trigger] indices[i] == generic_face(i % 6) + 4 * (i / 6),
    {
        let face: [u16; 6] = [0, 2, 3, 0, 3, 1];
        let a = offset_face(face, 4);
        let b = offset_face(face, 8);
        let c = offset_face(face, 12);
        let d = offset_face(face, 16);
        let e = offset_face(face, 20);
        [
            face[0], face[1], face[2], face[3], face[4], face[5],
            a[0], a[1], a[2], a[3], a[4], a[5],
            b[0], b[1], b[2], b[3], b[4], b[5],
            c[0], c[1], c[2], c[3], c[4], c[5],
            d[0], d[1], d[2], d[3], d[4], d[5],
            e[0], e[1], e[2], e[3], e[4], e[5],
        ]
    }
}

} // verus!
