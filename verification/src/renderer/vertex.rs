//! The vertex of a dense-chunk mesh.

use vstd::prelude::*;
use crate::atlas::TexCoord;
use crate::terrain::vertex::Corner;

verus! {

/// One vertex: a position in half blocks and a texture coordinate.
#[derive(Debug, Clone, Copy, PartialEq, Eq, Structural)]
pub struct Vertex {
    pub position: Corner,
    pub tex_coords: TexCoord,
}

} // verus!
