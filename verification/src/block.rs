//! A single voxel and the texture each of its faces shows.

use vstd::prelude::*;
use crate::atlas::Atlas;

verus! {

/// One voxel: its material and an auxiliary state byte.
///
/// Material 0 is an ordinary occupying material (water). An empty cell is a
/// cell with no `Block` at all.
#[derive(Debug, Clone, Copy, PartialEq, Eq, Structural)]
pub struct Block {
    pub block_id: u8,
    pub block_state: u8,
}

/// A side of a block, named by the direction it faces.
#[derive(Debug, Clone, Copy, PartialEq, Eq, Structural)]
pub enum Face {
    Top,
    Bottom,
    North,
    South,
    West,
    East,
}

/// The side a normal points at. Anything that is not one of the five listed
/// unit vectors counts as `Top`.
pub open spec fn face_of(normal: Seq<i8>) -> Face {
    if normal[0] == -1 && normal[1] == 0 && normal[2] == 0 {
        Face::West
    } else if normal[0] == 1 && normal[1] == 0 && normal[2] == 0 {
        Face::East
    } else if normal[0] == 0 && normal[1] == 0 && normal[2] == -1 {
        Face::North
    } else if normal[0] == 0 && normal[1] == 0 && normal[2] == 1 {
        Face::South
    } else if normal[0] == 0 && normal[1] == -1 && normal[2] == 0 {
        Face::Bottom
    } else {
        Face::Top
    }
}

/// The atlas tile that material `block_id` shows on side `face`.
pub open spec fn texture_of(block_id: u8, face: Face) -> Atlas {
    match block_id {
        1 => match face {
            Face::Top => Atlas::GrassTop,
            Face::Bottom => Atlas::Dirt,
            _ => Atlas::GrassSide,
        },
        2 => Atlas::Dirt,
        3 => Atlas::Stone,
        4 => Atlas::Sand,
        5 => Atlas::StoneBrick,
        6 => Atlas::MossyBrick,
        7 => Atlas::IronBars,
        8 => Atlas::Plank,
        9 => Atlas::Glass,
        10 => match face {
            Face::Top => Atlas::LogTop,
            Face::Bottom => Atlas::LogTop,
            _ => Atlas::LogSide,
        },
        0 => Atlas::Water,
        _ => Atlas::Unknown,
    }
}

fn side_of(normal: [i8; 3]) -> (face: Face)
    ensures
        face == face_of(normal@),
{
    let x: i8 = normal[0];
    let y: i8 = normal[1];
    let z: i8 = normal[2];
    if x == -1 && y == 0 && z == 0 {
        Face::West
    } else if x == 1 && y == 0 && z == 0 {
        Face::East
    } else if x == 0 && y == 0 && z == -1 {
        Face::North
    } else if x == 0 && y == 0 && z == 1 {
        Face::South
    } else if x == 0 && y == -1 && z == 0 {
        Face::Bottom
    } else {
        Face::Top
    }
}

/// The atlas tile for the face of a block of material `block_id` whose
/// outward normal is `normal`.
pub fn get_texture(block_id: u8, normal: [i8; 3]) -> (texture: Atlas)
    ensures
        texture == texture_of(block_id, face_of(normal@)),
{
    let face = side_of(normal);
    match block_id {
        1 => match face {
            Face::Top => Atlas::GrassTop,
            Face::Bottom => Atlas::Dirt,
            _ => Atlas::GrassSide,
        },
        2 => Atlas::Dirt,
        3 => Atlas::Stone,
        4 => Atlas::Sand,
        5 => Atlas::StoneBrick,
        6 => Atlas::MossyBrick,
        7 => Atlas::IronBars,
        8 => Atlas::Plank,
        9 => Atlas::Glass,
        10 => match face {
            Face::Top => Atlas::LogTop,
            Face::Bottom => Atlas::LogTop,
            _ => Atlas::LogSide,
        },
        0 => Atlas::Water,
        _ => Atlas::Unknown,
    }
}

} // verus!
