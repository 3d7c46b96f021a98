use voxel_world::block::Block;
use voxel_world::terrain::mesher::get_mesh;
use voxel_world::terrain::{BlockPos, Chunk, ChunkMap, ChunkPos, HeightField, LocalPos, World};

fn at(x: i32, y: i32, z: i32) -> BlockPos {
    BlockPos { x, y, z }
}

fn chunk_at(x: i32, y: i32, z: i32) -> ChunkPos {
    ChunkPos { x, y, z }
}

fn flat_field(radius: i32, level: i32) -> HeightField {
    let side = ((2 * radius + 1) * 16) as usize;
    HeightField::new(radius, vec![level; side * side]).unwrap()
}

/// A world of empty chunks, one at each of the given coordinates.
fn empty_world(places: &[ChunkPos]) -> World {
    let mut chunks = ChunkMap::new();
    for place in places {
        chunks.insert(*place, Chunk::new());
    }
    World { chunks, meshes: ChunkMap::new(), dirty: Vec::new() }
}

fn cube_of_chunks() -> World {
    let mut places = Vec::new();
    for x in -1..=1 {
        for y in -1..=1 {
            for z in -1..=1 {
                places.push(chunk_at(x, y, z));
            }
        }
    }
    empty_world(&places)
}

#[test]
fn new_world_has_three_layers_of_chunks() {
    let world = World::new(1, &flat_field(1, 3));
    for x in -1..=1 {
        for z in -1..=1 {
            for y in -1..=1 {
                assert!(world.chunks.contains_key(&chunk_at(x, y, z)));
                assert!(world.meshes.contains_key(&chunk_at(x, y, z)));
            }
            assert!(!world.chunks.contains_key(&chunk_at(x, 2, z)));
            assert!(!world.chunks.contains_key(&chunk_at(x, -2, z)));
        }
    }
    assert!(!world.chunks.contains_key(&chunk_at(2, 0, 0)));
    assert!(!world.chunks.contains_key(&chunk_at(0, 0, -2)));
    assert!(world.dirty.is_empty());
}

#[test]
fn new_world_holds_the_generated_terrain() {
    let world = World::new(0, &flat_field(0, 3));
    assert!(world.block_exists(at(0, 3, 0)));
    assert!(world.block_exists(at(15, 3, 15)));
    assert!(!world.block_exists(at(0, 4, 0)));
    assert!(world.block_exists(at(7, -16, 7)));
    assert!(!world.block_exists(at(7, -17, 7)));
    assert!(!world.block_exists(at(16, 3, 0)));
    assert_eq!(
        world.get_chunk(0, 0, 0).get(&LocalPos { x: 2, y: 3, z: 2 }),
        Some(Block { block_id: 1, block_state: 0 })
    );
    assert_eq!(
        world.get_chunk(0, -1, 0).get(&LocalPos { x: 2, y: 15, z: 2 }),
        Some(Block { block_id: 3, block_state: 0 })
    );
}

#[test]
fn new_world_meshes_match_a_fresh_build() {
    let world = World::new(0, &flat_field(0, 3));
    for y in -1..=1 {
        let stored = world.meshes.get(&chunk_at(0, y, 0)).unwrap();
        let fresh = get_mesh(&world.chunks, chunk_at(0, y, 0));
        assert_eq!(stored.vertices, fresh.vertices);
        assert_eq!(stored.indices, fresh.indices);
        assert_eq!(stored.origin, (0, (y as i64) * 16, 0));
    }
    // The top chunk is empty, the middle one shows its top surface and its
    // open sides, the bottom one its open sides and its underside.
    assert_eq!(world.meshes.get(&chunk_at(0, 1, 0)).unwrap().num_indices, 0);
    let middle = world.meshes.get(&chunk_at(0, 0, 0)).unwrap();
    assert_eq!(middle.num_indices, 6 * (256 + 4 * 16 * 4));
    let bottom = world.meshes.get(&chunk_at(0, -1, 0)).unwrap();
    assert_eq!(bottom.num_indices, 6 * (256 + 4 * 16 * 16));
}

#[test]
fn world_of_negative_size_has_an_empty_origin_chunk() {
    let world = World::new(-1, &flat_field(0, 3));
    assert!(world.chunks.contains_key(&chunk_at(0, 0, 0)));
    assert!(!world.chunks.contains_key(&chunk_at(0, 1, 0)));
    assert!(!world.chunks.contains_key(&chunk_at(0, -1, 0)));
    assert!(!world.meshes.contains_key(&chunk_at(0, 0, 0)));
    assert!(!world.block_exists(at(0, 0, 0)));
    assert!(world.dirty.is_empty());
}

#[test]
fn get_chunk_falls_back_to_the_origin_chunk() {
    let mut world = empty_world(&[chunk_at(0, 0, 0), chunk_at(1, 0, 0)]);
    world.add_block(at(3, 3, 3), 5);
    world.add_block(at(19, 3, 3), 6);
    let here = LocalPos { x: 3, y: 3, z: 3 };
    assert_eq!(world.get_chunk(0, 0, 0).get(&here).unwrap().block_id, 5);
    assert_eq!(world.get_chunk(1, 0, 0).get(&here).unwrap().block_id, 6);
    assert_eq!(world.get_chunk(9, 9, 9).get(&here).unwrap().block_id, 5);
    assert_eq!(world.get_chunk(-1, 0, 0).get(&here).unwrap().block_id, 5);
}

#[test]
fn block_exists_is_false_without_a_chunk() {
    let world = empty_world(&[chunk_at(0, 0, 0)]);
    assert!(!world.block_exists(at(100, 100, 100)));
    assert!(!world.block_exists(at(-1, 0, 0)));
    assert!(!world.block_exists(at(i32::MIN, i32::MIN, i32::MIN)));
    assert!(!world.block_exists(at(i32::MAX, i32::MAX, i32::MAX)));
}

#[test]
fn add_then_exists_then_remove() {
    let mut world = cube_of_chunks();
    for place in [at(0, 0, 0), at(-1, -1, -1), at(15, 0, 16), at(-16, 31, -3)] {
        assert!(!world.block_exists(place));
        world.add_block(place, 3);
        assert!(world.block_exists(place));
        world.remove_block(place);
        assert!(!world.block_exists(place));
    }
}

#[test]
fn added_block_has_the_given_material_and_state_zero() {
    let mut world = cube_of_chunks();
    world.add_block(at(-1, 17, 5), 9);
    let chunk = world.chunks.get(&chunk_at(-1, 1, 0)).unwrap();
    assert_eq!(
        chunk.get(&LocalPos { x: 15, y: 1, z: 5 }),
        Some(Block { block_id: 9, block_state: 0 })
    );
}

#[test]
fn material_zero_is_a_block() {
    let mut world = cube_of_chunks();
    world.add_block(at(4, 4, 4), 0);
    assert!(world.block_exists(at(4, 4, 4)));
}

#[test]
fn add_touches_no_other_cell() {
    let mut world = cube_of_chunks();
    world.add_block(at(0, 0, 0), 3);
    for dx in -1..=1 {
        for dy in -1..=1 {
            for dz in -1..=1 {
                if (dx, dy, dz) != (0, 0, 0) {
                    assert!(!world.block_exists(at(dx, dy, dz)));
                }
            }
        }
    }
    assert!(!world.block_exists(at(16, 0, 0)));
    assert!(!world.block_exists(at(-16, 0, 0)));
}

#[test]
fn second_add_is_a_no_op() {
    let mut world = cube_of_chunks();
    world.add_block(at(0, 5, 5), 3);
    let marked = world.dirty.clone();
    world.add_block(at(0, 5, 5), 8);
    assert_eq!(world.dirty, marked);
    let chunk = world.chunks.get(&chunk_at(0, 0, 0)).unwrap();
    assert_eq!(chunk.get(&LocalPos { x: 0, y: 5, z: 5 }).unwrap().block_id, 3);
}

#[test]
fn remove_of_nothing_is_a_no_op() {
    let mut world = cube_of_chunks();
    world.remove_block(at(0, 0, 0));
    assert!(world.dirty.is_empty());
    world.add_block(at(0, 0, 0), 3);
    world.remove_block(at(0, 0, 0));
    let marked = world.dirty.clone();
    world.remove_block(at(0, 0, 0));
    assert_eq!(world.dirty, marked);
    world.remove_block(at(1000, 1000, 1000));
    assert_eq!(world.dirty, marked);
}

#[test]
fn add_outside_the_stored_chunks_is_a_no_op() {
    let mut world = empty_world(&[chunk_at(0, 0, 0)]);
    world.add_block(at(16, 0, 0), 3);
    world.add_block(at(-1, 0, 0), 3);
    world.add_block(at(i32::MAX, i32::MIN, 0), 3);
    assert!(!world.block_exists(at(16, 0, 0)));
    assert!(!world.block_exists(at(-1, 0, 0)));
    assert!(!world.chunks.contains_key(&chunk_at(1, 0, 0)));
    assert!(!world.chunks.contains_key(&chunk_at(-1, 0, 0)));
    assert!(world.dirty.is_empty());
}

#[test]
fn edit_inside_a_chunk_marks_that_chunk_only() {
    let mut world = cube_of_chunks();
    world.add_block(at(5, 6, 7), 3);
    assert_eq!(world.dirty, vec![chunk_at(0, 0, 0)]);
    world.remove_block(at(5, 6, 7));
    assert_eq!(world.dirty, vec![chunk_at(0, 0, 0), chunk_at(0, 0, 0)]);
}

#[test]
fn edit_on_the_low_x_face_marks_the_western_chunk() {
    let mut world = cube_of_chunks();
    world.add_block(at(0, 5, 7), 3);
    assert_eq!(world.dirty, vec![chunk_at(0, 0, 0), chunk_at(-1, 0, 0)]);
    let mut world = cube_of_chunks();
    world.add_block(at(16, 21, -9), 3);
    assert_eq!(world.dirty, vec![chunk_at(1, 1, -1), chunk_at(0, 1, -1)]);
}

#[test]
fn edit_on_each_face_marks_the_chunk_behind_it() {
    let cases = [
        (at(15, 5, 5), chunk_at(1, 0, 0)),
        (at(0, 5, 5), chunk_at(-1, 0, 0)),
        (at(5, 15, 5), chunk_at(0, 1, 0)),
        (at(5, 0, 5), chunk_at(0, -1, 0)),
        (at(5, 5, 15), chunk_at(0, 0, 1)),
        (at(5, 5, 0), chunk_at(0, 0, -1)),
    ];
    for (place, neighbor) in cases {
        let mut world = cube_of_chunks();
        world.add_block(place, 3);
        assert_eq!(world.dirty, vec![chunk_at(0, 0, 0), neighbor]);
    }
}

#[test]
fn edit_on_an_edge_marks_four_chunks() {
    let mut world = cube_of_chunks();
    world.add_block(at(15, 15, 7), 3);
    assert_eq!(
        world.dirty,
        vec![chunk_at(0, 0, 0), chunk_at(1, 0, 0), chunk_at(0, 1, 0), chunk_at(1, 1, 0)]
    );
    let mut world = cube_of_chunks();
    world.add_block(at(0, 7, 15), 3);
    assert_eq!(
        world.dirty,
        vec![chunk_at(0, 0, 0), chunk_at(-1, 0, 0), chunk_at(0, 0, 1), chunk_at(-1, 0, 1)]
    );
    let mut world = cube_of_chunks();
    world.add_block(at(7, 0, 0), 3);
    assert_eq!(
        world.dirty,
        vec![chunk_at(0, 0, 0), chunk_at(0, -1, 0), chunk_at(0, 0, -1), chunk_at(0, -1, -1)]
    );
}

#[test]
fn edit_in_a_corner_marks_eight_chunks() {
    let mut world = cube_of_chunks();
    world.add_block(at(15, 0, 15), 3);
    assert_eq!(
        world.dirty,
        vec![
            chunk_at(0, 0, 0),
            chunk_at(1, 0, 0),
            chunk_at(0, -1, 0),
            chunk_at(0, 0, 1),
            chunk_at(1, -1, 0),
            chunk_at(1, 0, 1),
            chunk_at(0, -1, 1),
            chunk_at(1, -1, 1),
        ]
    );
}

#[test]
fn edits_mark_chunks_that_are_not_stored_too() {
    let mut world = empty_world(&[chunk_at(0, 0, 0)]);
    world.add_block(at(0, 5, 5), 3);
    assert_eq!(world.dirty, vec![chunk_at(0, 0, 0), chunk_at(-1, 0, 0)]);
}

#[test]
fn dirty_queue_keeps_duplicates() {
    let mut world = cube_of_chunks();
    world.add_block(at(1, 1, 1), 3);
    world.add_block(at(2, 2, 2), 3);
    assert_eq!(world.dirty, vec![chunk_at(0, 0, 0), chunk_at(0, 0, 0)]);
}

#[test]
fn remesh_rebuilds_marked_chunks_and_clears_the_queue() {
    let mut world = cube_of_chunks();
    world.add_block(at(0, 5, 5), 3);
    world.remesh_dirty();
    assert!(world.dirty.is_empty());
    let mesh = world.meshes.get(&chunk_at(0, 0, 0)).unwrap();
    assert_eq!(mesh.vertices.len(), 24);
    assert_eq!(mesh.num_indices, 36);
    let west = world.meshes.get(&chunk_at(-1, 0, 0)).unwrap();
    assert_eq!(west.vertices.len(), 0);
    assert!(!world.meshes.contains_key(&chunk_at(1, 0, 0)));
    assert!(world.block_exists(at(0, 5, 5)));
}

#[test]
fn remesh_replaces_a_stale_mesh() {
    let mut world = cube_of_chunks();
    world.add_block(at(5, 5, 5), 3);
    world.remesh_dirty();
    world.remove_block(at(5, 5, 5));
    assert_eq!(world.meshes.get(&chunk_at(0, 0, 0)).unwrap().num_indices, 36);
    world.remesh_dirty();
    assert_eq!(world.meshes.get(&chunk_at(0, 0, 0)).unwrap().num_indices, 0);
}

#[test]
fn remesh_of_a_chunk_that_is_not_stored_gives_an_empty_mesh() {
    let mut world = empty_world(&[chunk_at(0, 0, 0)]);
    world.add_block(at(0, 5, 5), 3);
    world.remesh_dirty();
    let west = world.meshes.get(&chunk_at(-1, 0, 0)).unwrap();
    assert!(west.vertices.is_empty());
    assert!(west.indices.is_empty());
    assert_eq!(west.origin, (-16, 0, 0));
}

#[test]
fn chunk_and_position_of_a_cell() {
    let world = empty_world(&[]);
    let (chunk, position) = world.chunk_block_from_global(at(-1, 32, 47));
    assert_eq!(chunk, chunk_at(-1, 2, 2));
    assert_eq!(position, LocalPos { x: 15, y: 0, z: 15 });
}

#[test]
fn world_larger_than_its_field_is_empty_outside() {
    let world = World::new(1, &flat_field(0, 3));
    assert!(world.chunks.contains_key(&chunk_at(1, 0, 1)));
    assert!(world.block_exists(at(0, 3, 0)));
    assert!(!world.block_exists(at(16, 3, 0)));
    assert!(!world.block_exists(at(-1, -5, -1)));
    assert_eq!(world.meshes.get(&chunk_at(1, 0, 0)).unwrap().num_indices, 0);
}
