use voxel_world::atlas::{Atlas, TexCoord};
use voxel_world::block::Block;
use voxel_world::terrain::mesher::{
    block_opaque, check_neighbor_at_edge_of_chunk, get_corners, get_face, get_mesh, get_normal,
    get_occluders, get_relative_chunk, neighbor_opaque, offset_indices, outside_chunk, Mesh,
};
use voxel_world::terrain::vertex::{Corner, Vertex};
use voxel_world::terrain::{Chunk, ChunkMap, ChunkPos, LocalPos, Offset};

fn local(x: i8, y: i8, z: i8) -> LocalPos {
    LocalPos { x, y, z }
}

fn step(x: i8, y: i8, z: i8) -> Offset {
    Offset { x, y, z }
}

fn chunk_at(x: i32, y: i32, z: i32) -> ChunkPos {
    ChunkPos { x, y, z }
}

fn corner(x: i16, y: i16, z: i16) -> Corner {
    Corner { x, y, z }
}

/// Chunks holding the given blocks: `(chunk, position, material)`.
fn chunks_with(blocks: &[((i32, i32, i32), (i8, i8, i8), u8)]) -> ChunkMap<Chunk> {
    let mut chunks: ChunkMap<Chunk> = ChunkMap::new();
    for (place, position, id) in blocks {
        let place = chunk_at(place.0, place.1, place.2);
        let mut chunk = match chunks.remove(&place) {
            Some(chunk) => chunk,
            None => Chunk::new(),
        };
        chunk.insert(local(position.0, position.1, position.2), Block { block_id: *id, block_state: 0 });
        chunks.insert(place, chunk);
    }
    chunks
}

fn faces(mesh: &Mesh) -> usize {
    assert_eq!(mesh.vertices.len() % 4, 0);
    assert_eq!(mesh.indices.len(), mesh.vertices.len() / 4 * 6);
    assert_eq!(mesh.num_indices, mesh.indices.len());
    mesh.vertices.len() / 4
}

/// The normals of the faces of a mesh, one for each quad.
fn normals(mesh: &Mesh) -> Vec<(i8, i8, i8)> {
    let mut all = Vec::new();
    for quad in 0..faces(mesh) {
        let normal = mesh.vertices[4 * quad].normal;
        all.push((normal.x, normal.y, normal.z));
    }
    all
}

#[test]
fn six_normals() {
    assert_eq!(get_normal(0), step(1, 0, 0));
    assert_eq!(get_normal(1), step(-1, 0, 0));
    assert_eq!(get_normal(2), step(0, 1, 0));
    assert_eq!(get_normal(3), step(0, -1, 0));
    assert_eq!(get_normal(4), step(0, 0, 1));
    assert_eq!(get_normal(5), step(0, 0, -1));
}

#[test]
fn other_face_numbers_have_no_normal() {
    assert_eq!(get_normal(6), step(0, 0, 0));
    assert_eq!(get_normal(255), step(0, 0, 0));
}

#[test]
fn positions_outside_the_chunk() {
    assert!(!outside_chunk(&local(0, 0, 0)));
    assert!(!outside_chunk(&local(15, 15, 15)));
    assert!(outside_chunk(&local(-1, 0, 0)));
    assert!(outside_chunk(&local(0, 16, 0)));
    assert!(outside_chunk(&local(0, 0, -128)));
    assert!(outside_chunk(&local(127, 0, 0)));
}

#[test]
fn relative_chunk_of_a_position() {
    assert_eq!(get_relative_chunk(&local(0, 15, 7)), step(0, 0, 0));
    assert_eq!(get_relative_chunk(&local(-1, 0, 0)), step(-1, 0, 0));
    assert_eq!(get_relative_chunk(&local(16, -1, 5)), step(1, -1, 0));
    assert_eq!(get_relative_chunk(&local(16, 16, 16)), step(1, 1, 1));
    assert_eq!(get_relative_chunk(&local(-128, 127, 0)), step(-1, 1, 0));
}

#[test]
fn index_pattern_of_a_quad() {
    assert_eq!(offset_indices(0, false), [0, 2, 3, 0, 3, 1]);
    assert_eq!(offset_indices(8, false), [8, 10, 11, 8, 11, 9]);
    assert_eq!(offset_indices(0, true), [1, 3, 0, 3, 2, 0]);
    assert_eq!(offset_indices(4, true), [5, 7, 4, 7, 6, 4]);
    assert_eq!(
        offset_indices(u32::MAX - 3, false),
        [u32::MAX - 3, u32::MAX - 1, u32::MAX, u32::MAX - 3, u32::MAX, u32::MAX - 2]
    );
}

#[test]
fn corners_of_the_east_face() {
    assert_eq!(
        get_corners(step(1, 0, 0), local(0, 0, 0)),
        [corner(2, 2, 2), corner(2, 2, 0), corner(2, 0, 2), corner(2, 0, 0)]
    );
}

#[test]
fn corners_of_the_west_face() {
    assert_eq!(
        get_corners(step(-1, 0, 0), local(0, 0, 0)),
        [corner(0, 0, 0), corner(0, 0, 2), corner(0, 2, 0), corner(0, 2, 2)]
    );
}

#[test]
fn corners_of_the_top_face() {
    assert_eq!(
        get_corners(step(0, 1, 0), local(3, 4, 5)),
        [corner(8, 10, 12), corner(6, 10, 12), corner(8, 10, 10), corner(6, 10, 10)]
    );
}

#[test]
fn corners_lie_on_the_face_of_the_block() {
    for face in 0u8..6 {
        let normal = get_normal(face);
        let corners = get_corners(normal, local(7, 8, 9));
        for c in corners {
            // On the axis of the normal every corner is on the face; on the
            // other two axes it is one of the two ends of the block.
            let parts = [(c.x, normal.x, 14), (c.y, normal.y, 16), (c.z, normal.z, 18)];
            for (value, along, low) in parts {
                if along == 1 {
                    assert_eq!(value, low + 2);
                } else if along == -1 {
                    assert_eq!(value, low);
                } else {
                    assert!(value == low || value == low + 2);
                }
            }
        }
        for i in 0..4 {
            for j in 0..i {
                assert_ne!(corners[i], corners[j]);
            }
        }
    }
}

#[test]
fn corners_of_a_slanted_normal_fall_between_lattice_points() {
    // centre (1, 1, 1) + normal (1, 1, 0), then h = (1, 0, 1) and v = (0, 1, 1)
    // with the signs of each corner
    assert_eq!(
        get_corners(step(1, 1, 0), local(0, 0, 0)),
        [corner(3, 3, 3), corner(1, 3, 1), corner(3, 1, 1), corner(1, 1, -1)]
    );
}

#[test]
fn ring_around_the_cell_above() {
    assert_eq!(
        get_occluders(local(1, 2, 1), step(0, 1, 0)),
        [
            local(2, 2, 1),
            local(2, 2, 2),
            local(1, 2, 2),
            local(0, 2, 2),
            local(0, 2, 1),
            local(0, 2, 0),
            local(1, 2, 0),
            local(2, 2, 0),
        ]
    );
}

#[test]
fn ring_around_the_cell_to_the_east() {
    assert_eq!(
        get_occluders(local(16, 15, 15), step(1, 0, 0)),
        [
            local(16, 15, 16),
            local(16, 16, 16),
            local(16, 16, 15),
            local(16, 16, 14),
            local(16, 15, 14),
            local(16, 14, 14),
            local(16, 14, 15),
            local(16, 14, 16),
        ]
    );
}

#[test]
fn ring_stays_in_the_plane_of_the_face() {
    for face in 0u8..6 {
        let normal = get_normal(face);
        let ring = get_occluders(local(5, 5, 5), normal);
        for cell in ring {
            let moved = (cell.x - 5, cell.y - 5, cell.z - 5);
            assert_eq!(moved.0 * normal.x + moved.1 * normal.y + moved.2 * normal.z, 0);
            assert_ne!(moved, (0, 0, 0));
            assert!(moved.0.abs() <= 1 && moved.1.abs() <= 1 && moved.2.abs() <= 1);
        }
        for i in 0..8 {
            for j in 0..i {
                assert_ne!(ring[i], ring[j]);
            }
        }
    }
}

#[test]
fn face_vertices_of_an_unflipped_face() {
    let face = get_face(step(1, 0, 0), Atlas::Stone, local(0, 0, 0), [false; 8]);
    let expected = [
        (corner(2, 2, 2), (3, 0)),
        (corner(2, 2, 0), (4, 0)),
        (corner(2, 0, 2), (3, 1)),
        (corner(2, 0, 0), (4, 1)),
    ];
    for k in 0..4 {
        assert_eq!(
            face[k],
            Vertex {
                position: expected[k].0,
                tex_coords: TexCoord { u: expected[k].1 .0, v: expected[k].1 .1 },
                normal: step(1, 0, 0),
                ao: 0,
            }
        );
    }
}

#[test]
fn face_vertices_of_a_flipped_face() {
    // The west face turns its texture by two quarter turns and, being
    // flipped, exchanges the two texture slots of each row.
    let face = get_face(step(-1, 0, 0), Atlas::Stone, local(0, 0, 0), [false; 8]);
    let expected = [
        (corner(0, 0, 0), (3, 1)),
        (corner(0, 0, 2), (4, 1)),
        (corner(0, 2, 0), (3, 0)),
        (corner(0, 2, 2), (4, 0)),
    ];
    for k in 0..4 {
        assert_eq!(face[k].position, expected[k].0);
        assert_eq!((face[k].tex_coords.u, face[k].tex_coords.v), expected[k].1);
        assert_eq!(face[k].normal, step(-1, 0, 0));
    }
}

#[test]
fn texture_turns_by_normal() {
    // Slot 0 of the texture quad of tile (2, 0), for each number of turns:
    // 0 -> (2, 0), 2 -> (3, 1), 3 -> (3, 0).
    let top = get_face(step(0, 1, 0), Atlas::Dirt, local(0, 0, 0), [false; 8]);
    assert_eq!((top[0].tex_coords.u, top[0].tex_coords.v), (2, 0));
    let east = get_face(step(1, 0, 0), Atlas::Dirt, local(0, 0, 0), [false; 8]);
    assert_eq!((east[0].tex_coords.u, east[0].tex_coords.v), (2, 0));
    let south = get_face(step(0, 0, 1), Atlas::Dirt, local(0, 0, 0), [false; 8]);
    assert_eq!((south[0].tex_coords.u, south[0].tex_coords.v), (3, 0));
    // Flipped faces take slot 1 for corner 0.
    let west = get_face(step(-1, 0, 0), Atlas::Dirt, local(0, 0, 0), [false; 8]);
    assert_eq!((west[0].tex_coords.u, west[0].tex_coords.v), (2, 1));
    let north = get_face(step(0, 0, -1), Atlas::Dirt, local(0, 0, 0), [false; 8]);
    assert_eq!((north[0].tex_coords.u, north[0].tex_coords.v), (3, 1));
    let bottom = get_face(step(0, -1, 0), Atlas::Dirt, local(0, 0, 0), [false; 8]);
    assert_eq!((bottom[0].tex_coords.u, bottom[0].tex_coords.v), (3, 0));
}

#[test]
fn occlusion_counts_the_solid_cells_at_each_corner() {
    let mut ring = [false; 8];
    ring[0] = true;
    let face = get_face(step(0, 1, 0), Atlas::Stone, local(1, 1, 1), ring);
    assert_eq!([face[0].ao, face[1].ao, face[2].ao, face[3].ao], [1, 0, 1, 0]);
    let mut ring = [false; 8];
    ring[2] = true;
    ring[3] = true;
    ring[4] = true;
    let face = get_face(step(0, 1, 0), Atlas::Stone, local(1, 1, 1), ring);
    assert_eq!([face[0].ao, face[1].ao, face[2].ao, face[3].ao], [1, 3, 0, 1]);
    let face = get_face(step(0, 1, 0), Atlas::Stone, local(1, 1, 1), [true; 8]);
    assert_eq!([face[0].ao, face[1].ao, face[2].ao, face[3].ao], [3, 3, 3, 3]);
    let mut ring = [false; 8];
    ring[5] = true;
    ring[7] = true;
    let face = get_face(step(0, 1, 0), Atlas::Stone, local(1, 1, 1), ring);
    assert_eq!([face[0].ao, face[1].ao, face[2].ao, face[3].ao], [0, 0, 1, 1]);
}

#[test]
fn empty_cells_and_missing_chunks_hide_nothing() {
    let chunks = chunks_with(&[((0, 0, 0), (1, 1, 1), 3)]);
    assert!(!block_opaque(&chunks, &chunk_at(0, 0, 0), &local(2, 2, 2), 3));
    assert!(!block_opaque(&chunks, &chunk_at(5, 0, 0), &local(1, 1, 1), 3));
    assert!(!block_opaque(&chunks, &chunk_at(0, 0, 0), &local(-1, 1, 1), 3));
    assert!(!block_opaque(&chunks, &chunk_at(0, 0, 0), &local(16, 1, 1), 3));
}

#[test]
fn ordinary_blocks_hide_every_face() {
    let chunks = chunks_with(&[((0, 0, 0), (1, 1, 1), 3), ((0, 0, 0), (2, 2, 2), 11)]);
    for id in [0u8, 1, 3, 7, 9, 11, 255] {
        assert!(block_opaque(&chunks, &chunk_at(0, 0, 0), &local(1, 1, 1), id));
        assert!(block_opaque(&chunks, &chunk_at(0, 0, 0), &local(2, 2, 2), id));
    }
}

#[test]
fn see_through_blocks_let_their_own_material_show() {
    let chunks = chunks_with(&[
        ((0, 0, 0), (0, 0, 0), 0),
        ((0, 0, 0), (0, 0, 7), 7),
        ((0, 0, 0), (0, 0, 9), 9),
    ]);
    for (z, id) in [(0i8, 0u8), (7, 7), (9, 9)] {
        assert!(!block_opaque(&chunks, &chunk_at(0, 0, 0), &local(0, 0, z), id));
        for other in [1u8, 3, 8, 10] {
            assert!(block_opaque(&chunks, &chunk_at(0, 0, 0), &local(0, 0, z), other));
        }
    }
    assert!(block_opaque(&chunks, &chunk_at(0, 0, 0), &local(0, 0, 7), 9));
    assert!(block_opaque(&chunks, &chunk_at(0, 0, 0), &local(0, 0, 9), 0));
}

#[test]
fn neighbor_at_the_edge_is_found_in_the_next_chunk() {
    let chunks = chunks_with(&[((1, 0, 0), (0, 5, 5), 3), ((0, -1, 0), (4, 15, 4), 3)]);
    let origin = chunk_at(0, 0, 0);
    assert!(check_neighbor_at_edge_of_chunk(&chunks, &origin, &step(1, 0, 0), &local(16, 5, 5), 3));
    assert!(!check_neighbor_at_edge_of_chunk(&chunks, &origin, &step(1, 0, 0), &local(16, 5, 6), 3));
    assert!(check_neighbor_at_edge_of_chunk(&chunks, &origin, &step(0, -1, 0), &local(4, -1, 4), 3));
    assert!(!check_neighbor_at_edge_of_chunk(&chunks, &origin, &step(-1, 0, 0), &local(-1, 5, 5), 3));
    // A position that the step does not bring back into a chunk holds nothing.
    assert!(!check_neighbor_at_edge_of_chunk(&chunks, &origin, &step(1, 0, 0), &local(0, 5, 5), 3));
    assert!(!check_neighbor_at_edge_of_chunk(&chunks, &origin, &step(1, 0, 0), &local(127, 5, 5), 3));
}

#[test]
fn neighbor_lookup_at_the_end_of_the_chunk_grid() {
    let chunks = chunks_with(&[((i32::MAX, 0, 0), (15, 0, 0), 3)]);
    let last = chunk_at(i32::MAX, 0, 0);
    assert!(neighbor_opaque(&chunks, &last, &local(15, 0, 0), 3));
    assert!(!neighbor_opaque(&chunks, &last, &local(16, 0, 0), 3));
    assert!(!check_neighbor_at_edge_of_chunk(&chunks, &last, &step(1, 0, 0), &local(16, 0, 0), 3));
    let mesh = get_mesh(&chunks, last);
    assert_eq!(faces(&mesh), 6);
    assert_eq!(mesh.origin, (i32::MAX as i64 * 16, 0, 0));
}

#[test]
fn neighbor_lookup_resolves_diagonal_chunks() {
    let chunks = chunks_with(&[
        ((0, 0, 0), (3, 3, 3), 3),
        ((1, 1, 1), (0, 0, 0), 3),
        ((-1, 0, 1), (15, 8, 0), 3),
    ]);
    let origin = chunk_at(0, 0, 0);
    assert!(neighbor_opaque(&chunks, &origin, &local(3, 3, 3), 3));
    assert!(neighbor_opaque(&chunks, &origin, &local(16, 16, 16), 3));
    assert!(neighbor_opaque(&chunks, &origin, &local(-1, 8, 16), 3));
    assert!(!neighbor_opaque(&chunks, &origin, &local(16, 16, 15), 3));
    assert!(!neighbor_opaque(&chunks, &origin, &local(-1, -1, -1), 3));
}

#[test]
fn mesh_of_a_single_block() {
    let chunks = chunks_with(&[((0, 0, 0), (0, 0, 0), 3)]);
    let mesh = get_mesh(&chunks, chunk_at(0, 0, 0));
    assert_eq!(faces(&mesh), 6);
    assert_eq!(mesh.vertices.len(), 24);
    assert_eq!(mesh.num_indices, 36);
    assert_eq!(mesh.origin, (0, 0, 0));
    assert_eq!(
        normals(&mesh),
        vec![(1, 0, 0), (-1, 0, 0), (0, 1, 0), (0, -1, 0), (0, 0, 1), (0, 0, -1)]
    );
    assert_eq!(
        mesh.indices,
        vec![
            0, 2, 3, 0, 3, 1, 5, 7, 4, 7, 6, 4, 8, 10, 11, 8, 11, 9, 13, 15, 12, 15, 14, 12, 16,
            18, 19, 16, 19, 17, 21, 23, 20, 23, 22, 20
        ]
    );
    assert_eq!(mesh.vertices[0].position, corner(2, 2, 2));
    assert_eq!(mesh.vertices[3].position, corner(2, 0, 0));
    assert_eq!(mesh.vertices[4].position, corner(0, 0, 0));
    assert_eq!(mesh.vertices[7].position, corner(0, 2, 2));
    for vertex in &mesh.vertices {
        assert_eq!(vertex.ao, 0);
        assert!(3 <= vertex.tex_coords.u && vertex.tex_coords.u <= 4);
        assert!(vertex.tex_coords.v <= 1);
    }
}

#[test]
fn mesh_faces_equal_get_face() {
    let chunks = chunks_with(&[((2, -3, 4), (7, 8, 9), 1)]);
    let mesh = get_mesh(&chunks, chunk_at(2, -3, 4));
    assert_eq!(mesh.origin, (32, -48, 64));
    assert_eq!(faces(&mesh), 6);
    let tiles = [
        Atlas::GrassSide,
        Atlas::GrassSide,
        Atlas::GrassTop,
        Atlas::Dirt,
        Atlas::GrassSide,
        Atlas::GrassSide,
    ];
    for face in 0u8..6 {
        let expected = get_face(get_normal(face), tiles[face as usize], local(7, 8, 9), [false; 8]);
        for k in 0..4 {
            assert_eq!(mesh.vertices[4 * face as usize + k], expected[k]);
        }
    }
}

#[test]
fn mesh_of_a_missing_chunk_is_empty() {
    let chunks = chunks_with(&[((0, 0, 0), (0, 0, 0), 3)]);
    let mesh = get_mesh(&chunks, chunk_at(1, 0, 0));
    assert_eq!(faces(&mesh), 0);
    assert_eq!(mesh.num_indices, 0);
    assert_eq!(mesh.origin, (16, 0, 0));
}

#[test]
fn mesh_of_an_empty_chunk_is_empty() {
    let mut chunks: ChunkMap<Chunk> = ChunkMap::new();
    chunks.insert(chunk_at(0, 0, 0), Chunk::new());
    let mesh = get_mesh(&chunks, chunk_at(0, 0, 0));
    assert_eq!(faces(&mesh), 0);
}

#[test]
fn mesh_is_the_same_when_built_twice() {
    let mut blocks = Vec::new();
    for i in 0..200u32 {
        let x = (i * 7 % 16) as i8;
        let y = (i * 5 % 16) as i8;
        let z = (i * 11 % 16) as i8;
        blocks.push(((0, 0, 0), (x, y, z), (i % 11) as u8));
        blocks.push(((1, 0, 0), (z, x, y), (i % 5) as u8));
        blocks.push(((0, -1, 1), (y, z, x), 3));
    }
    let chunks = chunks_with(&blocks);
    for place in [chunk_at(0, 0, 0), chunk_at(1, 0, 0), chunk_at(0, -1, 1)] {
        let first = get_mesh(&chunks, place);
        let second = get_mesh(&chunks, place);
        assert!(faces(&first) > 0);
        assert_eq!(first.vertices, second.vertices);
        assert_eq!(first.indices, second.indices);
        assert_eq!(first.origin, second.origin);
        assert_eq!(first.num_indices, second.num_indices);
    }
}

#[test]
fn mesh_does_not_depend_on_the_order_of_insertion() {
    let blocks = [
        ((0, 0, 0), (1, 1, 1), 3),
        ((0, 0, 0), (1, 2, 1), 1),
        ((0, 0, 0), (9, 9, 9), 9),
        ((0, 0, 0), (15, 15, 15), 2),
        ((0, 0, 0), (0, 0, 0), 0),
    ];
    let mut reversed = blocks;
    reversed.reverse();
    let first = get_mesh(&chunks_with(&blocks), chunk_at(0, 0, 0));
    let second = get_mesh(&chunks_with(&reversed), chunk_at(0, 0, 0));
    assert_eq!(first.vertices, second.vertices);
    assert_eq!(first.indices, second.indices);
}

#[test]
fn blocks_are_meshed_x_major() {
    let chunks = chunks_with(&[
        ((0, 0, 0), (5, 0, 0), 3),
        ((0, 0, 0), (0, 5, 0), 3),
        ((0, 0, 0), (0, 0, 5), 3),
    ]);
    let mesh = get_mesh(&chunks, chunk_at(0, 0, 0));
    assert_eq!(faces(&mesh), 18);
    // first vertex of the east face of each block, in order
    assert_eq!(mesh.vertices[0].position, corner(2, 2, 12));
    assert_eq!(mesh.vertices[24].position, corner(2, 12, 2));
    assert_eq!(mesh.vertices[48].position, corner(12, 2, 2));
}

#[test]
fn touching_faces_of_solid_blocks_are_left_out() {
    let chunks = chunks_with(&[((0, 0, 0), (4, 4, 4), 3), ((0, 0, 0), (5, 4, 4), 2)]);
    let mesh = get_mesh(&chunks, chunk_at(0, 0, 0));
    assert_eq!(faces(&mesh), 10);
    assert_eq!(
        normals(&mesh),
        vec![
            (-1, 0, 0),
            (0, 1, 0),
            (0, -1, 0),
            (0, 0, 1),
            (0, 0, -1),
            (1, 0, 0),
            (0, 1, 0),
            (0, -1, 0),
            (0, 0, 1),
            (0, 0, -1),
        ]
    );
}

#[test]
fn no_face_at_the_border_between_two_solid_chunks() {
    let chunks = chunks_with(&[((0, 0, 0), (15, 5, 5), 3), ((1, 0, 0), (0, 5, 5), 3)]);
    let west = get_mesh(&chunks, chunk_at(0, 0, 0));
    let east = get_mesh(&chunks, chunk_at(1, 0, 0));
    assert_eq!(faces(&west), 5);
    assert_eq!(faces(&east), 5);
    assert!(!normals(&west).contains(&(1, 0, 0)));
    assert!(!normals(&east).contains(&(-1, 0, 0)));
}

#[test]
fn no_face_at_any_of_the_six_borders() {
    let pairs = [
        ((15, 5, 5), (1, 0, 0), (0, 5, 5)),
        ((0, 5, 5), (-1, 0, 0), (15, 5, 5)),
        ((5, 15, 5), (0, 1, 0), (5, 0, 5)),
        ((5, 0, 5), (0, -1, 0), (5, 15, 5)),
        ((5, 5, 15), (0, 0, 1), (5, 5, 0)),
        ((5, 5, 0), (0, 0, -1), (5, 5, 15)),
    ];
    for (here, towards, there) in pairs {
        let chunks = chunks_with(&[((0, 0, 0), here, 3), (towards, there, 1)]);
        let first = get_mesh(&chunks, chunk_at(0, 0, 0));
        let second = get_mesh(&chunks, chunk_at(towards.0, towards.1, towards.2));
        assert_eq!(faces(&first), 5);
        assert_eq!(faces(&second), 5);
        assert!(!normals(&first).contains(&(towards.0 as i8, towards.1 as i8, towards.2 as i8)));
        assert!(!normals(&second).contains(&(-towards.0 as i8, -towards.1 as i8, -towards.2 as i8)));
    }
}

#[test]
fn faces_towards_a_missing_chunk_are_shown() {
    let chunks = chunks_with(&[((0, 0, 0), (15, 15, 15), 3)]);
    let mesh = get_mesh(&chunks, chunk_at(0, 0, 0));
    assert_eq!(faces(&mesh), 6);
}

#[test]
fn see_through_neighbors_of_the_same_material_keep_their_faces() {
    let chunks = chunks_with(&[((0, 0, 0), (4, 4, 4), 9), ((0, 0, 0), (5, 4, 4), 9)]);
    assert_eq!(faces(&get_mesh(&chunks, chunk_at(0, 0, 0))), 12);
    let chunks = chunks_with(&[((0, 0, 0), (4, 4, 4), 9), ((0, 0, 0), (5, 4, 4), 7)]);
    assert_eq!(faces(&get_mesh(&chunks, chunk_at(0, 0, 0))), 10);
    let chunks = chunks_with(&[((0, 0, 0), (4, 4, 4), 9), ((0, 0, 0), (5, 4, 4), 3)]);
    assert_eq!(faces(&get_mesh(&chunks, chunk_at(0, 0, 0))), 10);
}

#[test]
fn occlusion_in_a_mesh() {
    // A block with a second block diagonally above it: the top face of the
    // lower block has the upper block in cell 0 of its ring.
    let chunks = chunks_with(&[((0, 0, 0), (1, 1, 1), 3), ((0, 0, 0), (2, 2, 1), 3)]);
    let mesh = get_mesh(&chunks, chunk_at(0, 0, 0));
    assert_eq!(faces(&mesh), 12);
    // faces of the lower block come first; its top face is the third
    let top = &mesh.vertices[8..12];
    assert_eq!(top[0].normal, step(0, 1, 0));
    assert_eq!([top[0].ao, top[1].ao, top[2].ao, top[3].ao], [1, 0, 1, 0]);
    // its east face looks at (2, 1, 1); the upper block is the cell at +v of that ring
    let east = &mesh.vertices[0..4];
    assert_eq!(east[0].normal, step(1, 0, 0));
    assert_eq!([east[0].ao, east[1].ao, east[2].ao, east[3].ao], [1, 1, 0, 0]);
    // the other faces of the lower block touch nothing
    for vertex in &mesh.vertices[4..8] {
        assert_eq!(vertex.ao, 0);
    }
    for vertex in &mesh.vertices[12..24] {
        assert_eq!(vertex.ao, 0);
    }
}

#[test]
fn occlusion_is_sampled_across_chunk_corners() {
    let chunks = chunks_with(&[((0, 0, 0), (15, 15, 15), 3), ((1, 1, 1), (0, 0, 0), 3)]);
    let mesh = get_mesh(&chunks, chunk_at(0, 0, 0));
    assert_eq!(faces(&mesh), 6);
    // East face: the ring cell at +h+v is (16, 16, 16), the first cell of
    // the chunk at (1, 1, 1). It touches corner 0 only.
    let east = &mesh.vertices[0..4];
    assert_eq!([east[0].ao, east[1].ao, east[2].ao, east[3].ao], [1, 0, 0, 0]);
    let top = &mesh.vertices[8..12];
    assert_eq!(top[0].normal, step(0, 1, 0));
    assert_eq!([top[0].ao, top[1].ao, top[2].ao, top[3].ao], [1, 0, 0, 0]);
    let south = &mesh.vertices[16..20];
    assert_eq!(south[0].normal, step(0, 0, 1));
    assert_eq!([south[0].ao, south[1].ao, south[2].ao, south[3].ao], [1, 0, 0, 0]);
}

#[test]
fn occlusion_ignores_see_through_cells_of_the_same_material() {
    let chunks = chunks_with(&[((0, 0, 0), (1, 1, 1), 9), ((0, 0, 0), (2, 2, 1), 9)]);
    let mesh = get_mesh(&chunks, chunk_at(0, 0, 0));
    for vertex in &mesh.vertices {
        assert_eq!(vertex.ao, 0);
    }
}
