//! Meshing of dense chunks: every cell of the cube holds a block, and
//! material 0 stands for an empty cell.

pub mod face_count;
pub mod mesher;
pub mod vertex;
pub mod vertexer;
