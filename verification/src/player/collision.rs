//! The neighbourhoods of cells that the collision passes probe around the
//! player's cell. Every offset is horizontal: its `y` is zero.

use vstd::prelude::*;
use crate::terrain::coord::{Cell, Offset};

verus! {

/// A horizontal offset.
pub open spec fn flat(x: int, z: int) -> Cell {
    Cell { x, y: 0, z }
}

/// The eight cells around a cell, row by row along x, the cell itself left
/// out.
pub open spec fn surrounding() -> Seq<Cell> {
    seq![
        flat(-1, -1),
        flat(-1, 0),
        flat(-1, 1),
        flat(0, -1),
        flat(0, 1),
        flat(1, -1),
        flat(1, 0),
        flat(1, 1),
    ]
}

/// The four cells that share a side with a cell.
pub open spec fn adjacent() -> Seq<Cell> {
    seq![flat(-1, 0), flat(0, -1), flat(1, 0), flat(0, 1)]
}

/// The offsets produced by the diagonal walk: for `s` in -1, 1 the pair
/// `(s, s)` followed by `(2 - s, s)`.
pub open spec fn slanted() -> Seq<Cell> {
    seq![flat(-1, -1), flat(3, -1), flat(1, 1), flat(1, 1)]
}

/// The views of a list of offsets.
pub open spec fn cells_of(offsets: Seq<Offset>) -> Seq<Cell> {
    offsets.map_values(|offset: Offset| offset@)
}

/// The eight horizontal neighbours of a cell, in the order in which the
/// ground and head tests and the second push-out pass visit them.
pub fn three_by_three() -> (positions: Vec<Offset>)
    ensures
        cells_of(positions@) == surrounding(),
{
    let mut positions: Vec<Offset> = Vec::new();
    let mut x: i8 = -1;
    while x <= 1
        invariant
            -1 <= x <= 2,
            x == -1 ==> cells_of(positions@) == surrounding().take(0),
            x == 0 ==> cells_of(positions@) == surrounding().take(3),
            x == 1 ==> cells_of(positions@) == surrounding().take(5),
            x == 2 ==> cells_of(positions@) == surrounding().take(8),
        decreases 2 - x,
    {
        let mut z: i8 = -1;
        let ghost start: int = if x == -1 {
            0
        } else if x == 0 {
            3
        } else {
            5
        };
        while z <= 1
            invariant
                -1 <= x <= 1,
                -1 <= z <= 2,
                start == (if x == -1 {
                    0int
                } else if x == 0 {
                    3int
                } else {
                    5int
                }),
                cells_of(positions@) == surrounding().take(
                    start + (z + 1) - (if x == 0 && z > 0 {
                        1int
                    } else {
                        0int
                    }),
                ),
            decreases 2 - z,
        {
            if !(z == 0 && x == 0) {
                let ghost before = cells_of(positions@);
                positions.push(Offset { x, y: 0, z });
                assert(cells_of(positions@) =~= before.push(flat(x as int, z as int)));
                assert(cells_of(positions@) =~= surrounding().take(
                    start + (z + 2) - (if x == 0 && z + 1 > 0 {
                        1int
                    } else {
                        0int
                    }),
                ));
            }
            z = z + 1;
        }
        x = x + 1;
    }
    assert(surrounding().take(8) =~= surrounding());
    positions
}

/// The four side neighbours of a cell, in the order in which the first
/// push-out pass visits them.
pub fn orthagonal() -> (ret: Vec<Offset>)
    ensures
        cells_of(ret@) == adjacent(),
{
    let mut ret: Vec<Offset> = Vec::new();
    let mut xz: i8 = -1;
    while xz < 1
        invariant
            -1 <= xz <= 1,
            cells_of(ret@) == adjacent().take(2 * (xz + 1)),
        decreases 1 - xz,
    {
        let ghost before = cells_of(ret@);
        ret.push(Offset { x: xz * 2 + 1, y: 0, z: 0 });
        ret.push(Offset { x: 0, y: 0, z: xz * 2 + 1 });
        assert(cells_of(ret@) =~= before.push(flat(xz * 2 + 1, 0)).push(flat(0, xz * 2 + 1)));
        assert(cells_of(ret@) =~= adjacent().take(2 * (xz + 2)));
        xz = xz + 1;
    }
    assert(adjacent().take(4) =~= adjacent());
    ret
}

/// The offsets of the diagonal walk. The second offset of each step negates
/// the counter before doubling it, so the walk is not the four diagonal
/// neighbours: see `slanted`.
pub fn diagonal() -> (ret: Vec<Offset>)
    ensures
        cells_of(ret@) == slanted(),
{
    let mut ret: Vec<Offset> = Vec::new();
    let mut xz: i8 = -1;
    while xz < 1
        invariant
            -1 <= xz <= 1,
            cells_of(ret@) == slanted().take(2 * (xz + 1)),
        decreases 1 - xz,
    {
        let ghost before = cells_of(ret@);
        ret.push(Offset { x: xz * 2 + 1, y: 0, z: xz * 2 + 1 });
        ret.push(Offset { x: -xz * 2 + 1, y: 0, z: xz * 2 + 1 });
        assert(cells_of(ret@) =~= before.push(flat(xz * 2 + 1, xz * 2 + 1)).push(
            flat(-xz * 2 + 1, xz * 2 + 1),
        ));
        assert(cells_of(ret@) =~= slanted().take(2 * (xz + 2)));
        xz = xz + 1;
    }
    assert(slanted().take(4) =~= slanted());
    ret
}

} // verus!
