//! The vertex of a chunk mesh.

use vstd::prelude::*;
use crate::atlas::TexCoord;
use crate::terrain::coord::Offset;

verus! {

/// A corner of a quad, relative to the chunk, in half blocks: block corner
/// `(1, 2, 3)` is `Corner { x: 2, y: 4, z: 6 }`.
#[derive(Debug, Clone, Copy, PartialEq, Eq, Structural)]
pub struct Corner {
    pub x: i16,
    pub y: i16,
    pub z: i16,
}

/// One vertex of a chunk mesh.
#[derive(Debug, Clone, Copy, PartialEq, Eq, Structural)]
pub struct Vertex {
    /// Where the vertex is, in half blocks relative to the chunk.
    pub position: Corner,
    /// Where it samples the atlas, in tenths of the atlas edge.
    pub tex_coords: TexCoord,
    /// The outward normal of its face.
    pub normal: Offset,
    /// Ambient occlusion: how many of the three cells around this corner,
    /// in the plane in front of the face, are solid. Each one stands for one
    /// fixed increment of darkening.
    pub ao: u8,
}

} // verus!
