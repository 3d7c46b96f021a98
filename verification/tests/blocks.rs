use voxel_world::atlas::{get_texture_coordinates, Atlas, TexCoord};
use voxel_world::block::{get_texture, Block};

fn uv(corners: [TexCoord; 4]) -> [(u8, u8); 4] {
    [
        (corners[0].u, corners[0].v),
        (corners[1].u, corners[1].v),
        (corners[2].u, corners[2].v),
        (corners[3].u, corners[3].v),
    ]
}

#[test]
fn block_is_copied_by_value() {
    let a = Block { block_id: 3, block_state: 7 };
    let b = a;
    assert_eq!(a, b);
    assert_eq!(b.block_id, 3);
    assert_eq!(b.block_state, 7);
}

#[test]
fn grass_has_three_textures() {
    assert_eq!(get_texture(1, [0, 1, 0]), Atlas::GrassTop);
    assert_eq!(get_texture(1, [0, -1, 0]), Atlas::Dirt);
    assert_eq!(get_texture(1, [1, 0, 0]), Atlas::GrassSide);
    assert_eq!(get_texture(1, [-1, 0, 0]), Atlas::GrassSide);
    assert_eq!(get_texture(1, [0, 0, 1]), Atlas::GrassSide);
    assert_eq!(get_texture(1, [0, 0, -1]), Atlas::GrassSide);
}

#[test]
fn log_has_two_textures() {
    assert_eq!(get_texture(10, [0, 1, 0]), Atlas::LogTop);
    assert_eq!(get_texture(10, [0, -1, 0]), Atlas::LogTop);
    assert_eq!(get_texture(10, [1, 0, 0]), Atlas::LogSide);
    assert_eq!(get_texture(10, [0, 0, -1]), Atlas::LogSide);
}

#[test]
fn plain_materials_ignore_the_face() {
    let normals = [[1, 0, 0], [-1, 0, 0], [0, 1, 0], [0, -1, 0], [0, 0, 1], [0, 0, -1]];
    for normal in normals {
        assert_eq!(get_texture(0, normal), Atlas::Water);
        assert_eq!(get_texture(2, normal), Atlas::Dirt);
        assert_eq!(get_texture(3, normal), Atlas::Stone);
        assert_eq!(get_texture(4, normal), Atlas::Sand);
        assert_eq!(get_texture(5, normal), Atlas::StoneBrick);
        assert_eq!(get_texture(6, normal), Atlas::MossyBrick);
        assert_eq!(get_texture(7, normal), Atlas::IronBars);
        assert_eq!(get_texture(8, normal), Atlas::Plank);
        assert_eq!(get_texture(9, normal), Atlas::Glass);
        assert_eq!(get_texture(11, normal), Atlas::Unknown);
        assert_eq!(get_texture(255, normal), Atlas::Unknown);
    }
}

#[test]
fn odd_normal_counts_as_top() {
    assert_eq!(get_texture(1, [0, 0, 0]), Atlas::GrassTop);
    assert_eq!(get_texture(1, [1, 1, 0]), Atlas::GrassTop);
    assert_eq!(get_texture(10, [2, 0, 0]), Atlas::LogTop);
}

#[test]
fn texture_corners_without_rotation() {
    assert_eq!(uv(get_texture_coordinates(Atlas::GrassTop, 0)), [(0, 0), (1, 0), (0, 1), (1, 1)]);
    assert_eq!(uv(get_texture_coordinates(Atlas::Plank, 0)), [(3, 1), (4, 1), (3, 2), (4, 2)]);
    assert_eq!(uv(get_texture_coordinates(Atlas::Water, 0)), [(7, 0), (8, 0), (7, 1), (8, 1)]);
    assert_eq!(uv(get_texture_coordinates(Atlas::Unknown, 0)), [(9, 9), (10, 9), (9, 10), (10, 10)]);
}

#[test]
fn texture_corners_rotate_by_quarter_turns() {
    assert_eq!(uv(get_texture_coordinates(Atlas::Dirt, 1)), [(2, 1), (2, 0), (3, 1), (3, 0)]);
    assert_eq!(uv(get_texture_coordinates(Atlas::Dirt, 2)), [(3, 1), (2, 1), (3, 0), (2, 0)]);
    assert_eq!(uv(get_texture_coordinates(Atlas::Dirt, 3)), [(3, 0), (3, 1), (2, 0), (2, 1)]);
}

#[test]
fn texture_rotation_wraps_after_four() {
    for turn in 0u8..4 {
        assert_eq!(
            uv(get_texture_coordinates(Atlas::Glass, turn)),
            uv(get_texture_coordinates(Atlas::Glass, turn + 4))
        );
        assert_eq!(
            uv(get_texture_coordinates(Atlas::Glass, turn)),
            uv(get_texture_coordinates(Atlas::Glass, turn + 252))
        );
    }
}

#[test]
fn every_tile_has_its_origin() {
    let tiles = [
        (Atlas::GrassTop, (0, 0)),
        (Atlas::GrassSide, (1, 0)),
        (Atlas::Dirt, (2, 0)),
        (Atlas::Stone, (3, 0)),
        (Atlas::Sand, (4, 0)),
        (Atlas::StoneBrick, (0, 1)),
        (Atlas::MossyBrick, (1, 1)),
        (Atlas::IronBars, (2, 1)),
        (Atlas::Plank, (3, 1)),
        (Atlas::Glass, (4, 1)),
        (Atlas::Leaves, (2, 2)),
        (Atlas::LogSide, (3, 2)),
        (Atlas::LogTop, (4, 2)),
        (Atlas::Water, (7, 0)),
        (Atlas::Unknown, (9, 9)),
    ];
    for (tile, origin) in tiles {
        let corners = uv(get_texture_coordinates(tile, 0));
        assert_eq!(corners[0], origin);
        assert_eq!(corners[3], (origin.0 + 1, origin.1 + 1));
    }
}
