//! Terrain generation: a field of surface levels, one per column of the
//! world, is cut into material bands to fill a chunk.

use vstd::prelude::*;
use crate::block::Block;
use crate::terrain::chunk::Chunk;
use crate::terrain::coord::{cell_of_rank, in_chunk, local_rank, position_at, Cell, CHUNK_VOLUME};

verus! {

/// Number of columns along one edge of a field that reaches `radius` chunks
/// from the origin chunk in both directions.
pub open spec fn field_side(radius: int) -> int {
    (2 * radius + 1) * 16
}

/// Whether a field of the given radius has a level for column `(gx, gz)`.
pub open spec fn field_covers(radius: int, gx: int, gz: int) -> bool {
    &&& -16 * radius <= gx < 16 * radius + 16
    &&& -16 * radius <= gz < 16 * radius + 16
}

/// Place of column `(gx, gz)` in the row-major table of a field.
pub open spec fn field_index(radius: int, gx: int, gz: int) -> int {
    (gx + 16 * radius) * field_side(radius) + (gz + 16 * radius)
}

/// Surface levels of the world's columns, sampled on the square of chunks
/// within `radius` of the origin chunk.
///
/// The level of a column is the floor of its surface height; it depends on
/// the column's world coordinates only, so terrain cut from one field joins
/// without seams across chunk borders.
#[derive(Debug)]
pub struct HeightField {
    radius: i32,
    levels: Vec<i32>,
}

impl View for HeightField {
    type V = Map<(int, int), int>;

    /// The level of every covered column, keyed by world `(x, z)`.
    closed spec fn view(&self) -> Map<(int, int), int> {
        Map::new(
            |column: (int, int)| field_covers(self.radius as int, column.0, column.1),
            |column: (int, int)|
                self.levels[field_index(self.radius as int, column.0, column.1)] as int,
        )
    }
}

proof fn lemma_field_index_bound(radius: int, gx: int, gz: int)
    requires
        0 <= radius,
        field_covers(radius, gx, gz),
    ensures
        0 <= field_index(radius, gx, gz) < field_side(radius) * field_side(radius),
{
    let side = field_side(radius);
    let row = gx + 16 * radius;
    let column = gz + 16 * radius;
    assert(0 <= row * side && row * side + side <= side * side) by (nonlinear_arith)
        requires
            0 <= row < side,
    ;
}

/// Distinct columns stand at distinct places of the table.
proof fn lemma_field_index_injective(radius: int, ax: int, az: int, bx: int, bz: int)
    requires
        0 <= radius,
        field_covers(radius, ax, az),
        field_covers(radius, bx, bz),
        field_index(radius, ax, az) == field_index(radius, bx, bz),
    ensures
        ax == bx,
        az == bz,
{
    let side = field_side(radius);
    let a_row = ax + 16 * radius;
    let b_row = bx + 16 * radius;
    let a_column = az + 16 * radius;
    let b_column = bz + 16 * radius;
    if a_row < b_row {
        assert(a_row * side + side <= b_row * side) by (nonlinear_arith)
            requires
                a_row + 1 <= b_row,
                0 <= side,
        ;
    } else if b_row < a_row {
        assert(b_row * side + side <= a_row * side) by (nonlinear_arith)
            requires
                b_row + 1 <= a_row,
                0 <= side,
        ;
    }
}

impl HeightField {
    #[verifier::type_invariant]
    spec fn well_formed(&self) -> bool {
        &&& 0 <= self.radius
        &&& self.levels.len() == field_side(self.radius as int) * field_side(self.radius as int)
    }

    /// How many chunks the field reaches from the origin chunk.
    pub closed spec fn spec_radius(&self) -> int {
        self.radius as int
    }

    /// The covered columns are exactly those of the field's square.
    pub proof fn lemma_domain(&self)
        ensures
            forall|gx: int, gz: int| #[trigger]
                self@.contains_key((gx, gz)) <==> field_covers(self.spec_radius(), gx, gz),
    {
    }

    /// Builds a field from a row-major table of levels: the level of column
    /// `(gx, gz)` stands at `field_index(radius, gx, gz)`.
    ///
    /// Returns `None` unless `radius` is non-negative and the table has
    /// exactly `field_side(radius)` squared entries.
    pub fn new(radius: i32, levels: Vec<i32>) -> (field: Option<HeightField>)
        ensures
            field is Some <==> 0 <= radius && levels.len() == field_side(radius as int)
                * field_side(radius as int),
            field matches Some(f) ==> f.spec_radius() == radius && forall|gx: int, gz: int|
                #![trigger f@.contains_key((gx, gz))]
                #![trigger f@[(gx, gz)]]
                f@.contains_key((gx, gz)) == field_covers(radius as int, gx, gz) && (field_covers(
                    radius as int,
                    gx,
                    gz,
                ) ==> f@[(gx, gz)] == levels[field_index(radius as int, gx, gz)]),
    {
        if radius < 0 {
            return None;
        }
        let side: u128 = (2 * (radius as u128) + 1) * 16;
        assert(side * side <= 0x10_0000_0000 * 0x10_0000_0000) by (nonlinear_arith)
            requires
                0 <= side <= 0x10_0000_0000,
        ;
        if levels.len() as u128 != side * side {
            return None;
        }
        Some(HeightField { radius, levels })
    }

    /// A field of the given radius in which every column has the level
    /// `level`.
    ///
    /// Returns `None` when `radius` is negative or the table of the field
    /// would have more entries than a `usize` can count.
    pub fn flat(radius: i32, level: i32) -> (field: Option<HeightField>)
        ensures
            field is Some <==> 0 <= radius && field_side(radius as int) * field_side(radius as int)
                <= usize::MAX,
            field matches Some(f) ==> f.spec_radius() == radius && forall|gx: int, gz: int|
                #![trigger f@.contains_key((gx, gz))]
                #![trigger f@[(gx, gz)]]
                f@.contains_key((gx, gz)) == field_covers(radius as int, gx, gz) && (field_covers(
                    radius as int,
                    gx,
                    gz,
                ) ==> f@[(gx, gz)] == level),
    {
        if radius < 0 {
            return None;
        }
        let side: u128 = (2 * (radius as u128) + 1) * 16;
        assert(side * side <= 0x10_0000_0000 * 0x10_0000_0000) by (nonlinear_arith)
            requires
                0 <= side <= 0x10_0000_0000,
        ;
        if side * side > usize::MAX as u128 {
            return None;
        }
        let count: usize = (side * side) as usize;
        let mut levels: Vec<i32> = Vec::new();
        while levels.len() < count
            invariant
                levels.len() <= count,
                forall|i: int| 0 <= i < levels.len() ==> levels[i] == level,
            decreases count - levels.len(),
        {
            levels.push(level);
        }
        let field = HeightField { radius, levels };
        proof {
            assert forall|gx: int, gz: int| field_covers(radius as int, gx, gz) implies field@[(
                gx,
                gz,
            )] == level by {
                lemma_field_index_bound(radius as int, gx, gz);
            }
        }
        Some(field)
    }

    /// Sets the level of column `(gx, gz)` and tells whether the field has
    /// that column. A column outside the field's square is left alone.
    pub fn set_level(&mut self, gx: i64, gz: i64, level: i32) -> (covered: bool)
        ensures
            covered == field_covers(old(self).spec_radius(), gx as int, gz as int),
            final(self).spec_radius() == old(self).spec_radius(),
            covered ==> final(self)@ == old(self)@.insert((gx as int, gz as int), level as int),
            !covered ==> final(self)@ == old(self)@,
    {
        proof {
            use_type_invariant(&*self);
        }
        let reach: i64 = 16 * (self.radius as i64);
        if gx < -reach || gx >= reach + 16 || gz < -reach || gz >= reach + 16 {
            return false;
        }
        let side: u128 = (2 * (self.radius as u128) + 1) * 16;
        let row: u128 = (gx + reach) as u128;
        let column: u128 = (gz + reach) as u128;
        proof {
            lemma_field_index_bound(self.radius as int, gx as int, gz as int);
            assert(0 <= row * side && row * side + side <= side * side) by (nonlinear_arith)
                requires
                    0 <= row < side,
            ;
        }
        let index: u128 = row * side + column;
        self.levels[index as usize] = level;
        proof {
            let radius = self.radius as int;
            assert forall|x: int, z: int|
                field_covers(radius, x, z) && (x != gx || z != gz) implies field_index(radius, x, z)
                != field_index(radius, gx as int, gz as int) by {
                if field_index(radius, x, z) == field_index(radius, gx as int, gz as int) {
                    lemma_field_index_injective(radius, x, z, gx as int, gz as int);
                }
            }
            assert forall|x: int, z: int| field_covers(radius, x, z) implies 0 <= field_index(
                radius,
                x,
                z,
            ) < self.levels.len() by {
                lemma_field_index_bound(radius, x, z);
            }
            assert(self@ =~= old(self)@.insert((gx as int, gz as int), level as int));
        }
        true
    }

    /// How many chunks the field reaches from the origin chunk.
    pub fn radius(&self) -> (radius: i32)
        ensures
            radius == self.spec_radius(),
            0 <= radius,
    {
        proof {
            use_type_invariant(self);
        }
        self.radius
    }

    /// The level of column `(gx, gz)`, or `None` where the field has none.
    pub fn level_at(&self, gx: i64, gz: i64) -> (level: Option<i32>)
        ensures
            level is Some <==> field_covers(self.spec_radius(), gx as int, gz as int),
            level is Some <==> self@.contains_key((gx as int, gz as int)),
            level matches Some(l) ==> l as int == self@[(gx as int, gz as int)],
    {
        proof {
            use_type_invariant(self);
        }
        let reach: i64 = 16 * (self.radius as i64);
        if gx < -reach || gx >= reach + 16 || gz < -reach || gz >= reach + 16 {
            return None;
        }
        let side: u128 = (2 * (self.radius as u128) + 1) * 16;
        let row: u128 = (gx + reach) as u128;
        let column: u128 = (gz + reach) as u128;
        proof {
            lemma_field_index_bound(self.radius as int, gx as int, gz as int);
            assert(0 <= row * side && row * side + side <= side * side) by (nonlinear_arith)
                requires
                    0 <= row < side,
            ;
        }
        let index: u128 = row * side + column;
        Some(self.levels[index as usize])
    }
}

/// Material of the cell at height `gy` in a column whose surface level is
/// `level`, or `None` for air.
///
/// With `depth = level - gy`: below the surface line (`depth < 0`) the cell
/// is water (0) under sea level (`gy < 0`) and air above it; the top layer
/// (`depth < 1`) is sand (4) at low heights (`gy < 2`) and material 1
/// elsewhere; the next layer is material 2; everything deeper is material 3.
pub open spec fn terrain_material(level: int, gy: int) -> Option<u8> {
    let depth = level - gy;
    if depth < 0 && gy < 0 {
        Some(0u8)
    } else if depth < 0 {
        None
    } else if depth < 1 && gy < 2 {
        Some(4u8)
    } else if depth < 1 {
        Some(1u8)
    } else if depth < 2 {
        Some(2u8)
    } else {
        Some(3u8)
    }
}

/// Block generated at world cell `g` from the column levels, if any. A
/// column that has no level stays empty.
pub open spec fn terrain_block(columns: Map<(int, int), int>, g: Cell) -> Option<Block> {
    if columns.contains_key((g.x, g.z)) {
        match terrain_material(columns[(g.x, g.z)], g.y) {
            Some(id) => Some(Block { block_id: id, block_state: 0 }),
            None => None,
        }
    } else {
        None
    }
}

/// Contents of chunk `chunk` generated from the column levels.
pub open spec fn generated_chunk(columns: Map<(int, int), int>, chunk: Cell) -> Map<Cell, Block> {
    Map::new(
        |p: Cell| in_chunk(p) && terrain_block(columns, chunk.times(16).plus(p)) is Some,
        |p: Cell| terrain_block(columns, chunk.times(16).plus(p))->0,
    )
}

/// Material of the cell at height `global_y` in a column of surface level
/// `level`, or `None` for air.
pub fn material_at(level: i32, global_y: i64) -> (material: Option<u8>)
    ensures
        material == terrain_material(level as int, global_y as int),
{
    let depth: i128 = level as i128 - global_y as i128;
    if depth < 0 && global_y < 0 {
        Some(0)
    } else if depth < 0 {
        None
    } else if depth < 1 && global_y < 2 {
        Some(4)
    } else if depth < 1 {
        Some(1)
    } else if depth < 2 {
        Some(2)
    } else {
        Some(3)
    }
}

/// What generation has produced once the cells of rank below `upto` are done.
spec fn generated_prefix(columns: Map<(int, int), int>, chunk: Cell, upto: int) -> Map<
    Cell,
    Block,
> {
    Map::new(
        |p: Cell|
            in_chunk(p) && local_rank(p) < upto && terrain_block(
                columns,
                chunk.times(16).plus(p),
            ) is Some,
        |p: Cell| terrain_block(columns, chunk.times(16).plus(p))->0,
    )
}

proof fn lemma_generated_step(
    columns: Map<(int, int), int>,
    chunk: Cell,
    rank: int,
    before: Map<Cell, Block>,
    after: Map<Cell, Block>,
)
    requires
        0 <= rank < 4096,
        before == generated_prefix(columns, chunk, rank),
        after == (match terrain_block(columns, chunk.times(16).plus(cell_of_rank(rank))) {
            Some(block) => before.insert(cell_of_rank(rank), block),
            None => before,
        }),
    ensures
        after == generated_prefix(columns, chunk, rank + 1),
{
    let here = cell_of_rank(rank);
    assert(in_chunk(here) && local_rank(here) == rank);
    assert forall|p: Cell| in_chunk(p) && local_rank(p) == rank implies p == here by {}
    assert(after =~= generated_prefix(columns, chunk, rank + 1));
}

/// Generates the chunk at `(chunk_x, chunk_y, chunk_z)` from the surface
/// levels of `field`. Columns are looked up by their world coordinates, and
/// the result depends on nothing but the arguments. Columns that the field
/// does not cover stay empty.
pub fn gen_chunk(chunk_x: i32, chunk_y: i32, chunk_z: i32, field: &HeightField) -> (chunk: Chunk)
    ensures
        chunk@ == generated_chunk(
            field@,
            Cell { x: chunk_x as int, y: chunk_y as int, z: chunk_z as int },
        ),
{
    let mut voxels = Chunk::new();
    let ghost origin = Cell { x: chunk_x as int, y: chunk_y as int, z: chunk_z as int };
    assert(voxels@ =~= generated_prefix(field@, origin, 0));
    let mut rank: u16 = 0;
    while rank < CHUNK_VOLUME
        invariant
            rank <= CHUNK_VOLUME,
            origin == (Cell { x: chunk_x as int, y: chunk_y as int, z: chunk_z as int }),
            voxels@ == generated_prefix(field@, origin, rank as int),
        decreases CHUNK_VOLUME - rank,
    {
        let position = position_at(rank);
        let gx: i64 = chunk_x as i64 * 16 + position.x as i64;
        let gy: i64 = chunk_y as i64 * 16 + position.y as i64;
        let gz: i64 = chunk_z as i64 * 16 + position.z as i64;
        proof {
            assert(origin.times(16).plus(position@) == (Cell {
                x: gx as int,
                y: gy as int,
                z: gz as int,
            }));
        }
        let ghost before = voxels@;
        match field.level_at(gx, gz) {
            Some(level) => match material_at(level, gy) {
                Some(id) => {
                    voxels.insert(position, Block { block_id: id, block_state: 0 });
                },
                None => {},
            },
            None => {},
        }
        proof {
            lemma_generated_step(field@, origin, rank as int, before, voxels@);
        }
        rank = rank + 1;
    }
    assert(voxels@ =~= generated_chunk(field@, origin));
    voxels
}

} // verus!
