//! The voxel world: chunk storage, terrain generation, edits and meshing.

pub mod chunk;
pub mod coord;
pub mod dense;
pub mod generator;
pub mod grid;
pub mod laws;
pub mod mesh_model;
pub mod mesher;
pub mod store;
pub mod vertex;
pub mod world;

pub use self::chunk::Chunk;
pub use self::dense::get_chunk;
pub use self::coord::{BlockPos, ChunkPos, LocalPos, Offset, CHUNK_SIZE};
pub use self::generator::{gen_chunk, HeightField};
pub use self::store::ChunkMap;
pub use self::world::World;
