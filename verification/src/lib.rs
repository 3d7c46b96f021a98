//! Voxel world core: sparse chunked block storage, terrain cut from a field
//! of surface levels, face-culled meshing with ambient occlusion across
//! chunk borders, edits with dirty marking, and the integer side of player
//! input.
//!
//! Everything here works on integers. World-space positions are block cells
//! (the floor of a floating-point position), mesh corners are given in half
//! blocks, texture coordinates in tenths of the atlas edge, and ambient
//! occlusion is a count of solid samples.
//!
//! * [`block`] and [`atlas`]: a voxel, and the texture of each of its faces.
//! * [`terrain`]: chunks, the world, generation, meshing, and the
//!   properties that hold of every world (`terrain::laws`).
//! * [`renderer`]: meshing of dense chunks, with the proof that their meshes
//!   fit 16-bit indices.
//! * [`player`]: collision neighbourhoods and the keyboard state.

pub mod atlas;
pub mod block;
pub mod player;
pub mod renderer;
pub mod terrain;
