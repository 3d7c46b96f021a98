//! The texture atlas: which tile a texture occupies and how its four corners
//! are handed to a quad.

use vstd::prelude::*;

verus! {

/// A tile of the texture atlas.
#[derive(Debug, Clone, Copy, PartialEq, Eq, Structural)]
pub enum Atlas {
    Unknown,
    GrassTop,
    GrassSide,
    Dirt,
    Stone,
    Sand,
    StoneBrick,
    MossyBrick,
    IronBars,
    Plank,
    Glass,
    Leaves,
    LogSide,
    LogTop,
    Water,
}

/// A texture coordinate, in tenths of the atlas edge.
#[derive(Debug, Clone, Copy, PartialEq, Eq, Structural)]
pub struct TexCoord {
    pub u: u8,
    pub v: u8,
}

/// Top-left corner of a tile, in tenths of the atlas edge.
pub open spec fn tile_origin(tile: Atlas) -> (int, int) {
    match tile {
        Atlas::GrassTop => (0, 0),
        Atlas::GrassSide => (1, 0),
        Atlas::Dirt => (2, 0),
        Atlas::Stone => (3, 0),
        Atlas::Sand => (4, 0),
        Atlas::StoneBrick => (0, 1),
        Atlas::MossyBrick => (1, 1),
        Atlas::IronBars => (2, 1),
        Atlas::Plank => (3, 1),
        Atlas::Glass => (4, 1),
        Atlas::Leaves => (2, 2),
        Atlas::LogSide => (3, 2),
        Atlas::LogTop => (4, 2),
        Atlas::Water => (7, 0),
        Atlas::Unknown => (9, 9),
    }
}

/// Offset of the `k`-th corner of a tile when walking its outline clockwise
/// from the top-left corner.
pub open spec fn outline_offset(k: int) -> (int, int) {
    if k == 0 {
        (0, 0)
    } else if k == 1 {
        (1, 0)
    } else if k == 2 {
        (1, 1)
    } else {
        (0, 1)
    }
}

/// Position on the outline that ends up in slot `slot` of the result: the
/// outline is rotated right by `rotate` places and its last two entries are
/// then exchanged, so that the slots read row by row.
pub open spec fn outline_index(rotate: int, slot: int) -> int {
    let row_major = if slot == 2 {
        3
    } else if slot == 3 {
        2
    } else {
        slot
    };
    (row_major + 4 - rotate % 4) % 4
}

/// Texture coordinate, in tenths of the atlas edge, of slot `slot` of a quad
/// textured with `tile` turned by `rotate` quarter turns.
pub open spec fn texture_corner(tile: Atlas, rotate: int, slot: int) -> (int, int) {
    let origin = tile_origin(tile);
    let offset = outline_offset(outline_index(rotate, slot));
    (origin.0 + offset.0, origin.1 + offset.1)
}

fn origin_of(tile: Atlas) -> (origin: (u8, u8))
    ensures
        (origin.0 as int, origin.1 as int) == tile_origin(tile),
{
    match tile {
        Atlas::GrassTop => (0, 0),
        Atlas::GrassSide => (1, 0),
        Atlas::Dirt => (2, 0),
        Atlas::Stone => (3, 0),
        Atlas::Sand => (4, 0),
        Atlas::StoneBrick => (0, 1),
        Atlas::MossyBrick => (1, 1),
        Atlas::IronBars => (2, 1),
        Atlas::Plank => (3, 1),
        Atlas::Glass => (4, 1),
        Atlas::Leaves => (2, 2),
        Atlas::LogSide => (3, 2),
        Atlas::LogTop => (4, 2),
        Atlas::Water => (7, 0),
        Atlas::Unknown => (9, 9),
    }
}

/// The four texture coordinates of a quad, in tenths of the atlas edge.
///
/// Only `rotate % 4` matters. Slot `j` of the result holds
/// `texture_corner(origin, rotate, j)`.
pub fn get_texture_coordinates(origin: Atlas, rotate: u8) -> (corners: [TexCoord; 4])
    ensures
        forall|j: int|
            0 <= j < 4 ==> (#[trigger] corners[j]).u as int == texture_corner(
                origin,
                rotate as int,
                j,
            ).0 && corners[j].v as int == texture_corner(origin, rotate as int, j).1,
{
    let (x, y) = origin_of(origin);
    let outline: [TexCoord; 4] = [
        TexCoord { u: x, v: y },
        TexCoord { u: x + 1, v: y },
        TexCoord { u: x + 1, v: y + 1 },
        TexCoord { u: x, v: y + 1 },
    ];
    let turn: usize = (rotate % 4) as usize;
    let first: TexCoord = outline[(4 - turn) % 4];
    let second: TexCoord = outline[(5 - turn) % 4];
    let third: TexCoord = outline[(6 - turn) % 4];
    let fourth: TexCoord = outline[(7 - turn) % 4];
    [first, second, fourth, third]
}

} // verus!
