//! The world: its chunks, their meshes, and the queue of chunks whose mesh
//! is out of date.

use vstd::prelude::*;
use crate::block::Block;
use crate::terrain::chunk::Chunk;
use crate::terrain::coord::{
    chunk_of,
    in_chunk,
    local_of,
    split_global,
    BlockPos,
    Cell,
    ChunkPos,
    LocalPos,
};
use crate::terrain::generator::{gen_chunk, generated_chunk, HeightField};
use crate::terrain::grid::{block_at, grid_of, Grid};
use crate::terrain::mesh_model::{mesh_of, MeshView};
use crate::terrain::mesher::{get_mesh, Mesh};
use crate::terrain::store::ChunkMap;

verus! {

/// The world as plain data.
pub struct WorldView {
    /// The blocks of every stored chunk.
    pub grid: Grid,
    /// The mesh last built for each chunk.
    pub meshes: Map<Cell, MeshView>,
    /// Coordinates of the chunks whose mesh is out of date, in the order in
    /// which they were marked. A coordinate may occur more than once.
    pub dirty: Seq<Cell>,
}

/// The chunk at the origin of the chunk grid.
pub open spec fn origin_chunk() -> Cell {
    Cell { x: 0, y: 0, z: 0 }
}

/// World cell `g` holds a block: its chunk is stored and its position in
/// that chunk is occupied.
pub open spec fn block_present(grid: Grid, g: Cell) -> bool {
    block_at(grid, g) is Some
}

/// On one axis, the step towards the neighbouring chunk that a position on
/// the chunk's boundary touches: 1 on the upper boundary, -1 on the lower
/// one, 0 in between.
pub open spec fn edge_step(v: int) -> int {
    if v == 15 {
        1
    } else if v == 0 {
        -1
    } else {
        0
    }
}

/// `chunk` moved by `step`, as a list of one, or the empty list when
/// `wanted` is false.
pub open spec fn neighbor_if(wanted: bool, chunk: Cell, step: Cell) -> Seq<Cell> {
    if wanted {
        seq![chunk.plus(step)]
    } else {
        Seq::empty()
    }
}

/// The chunks marked by an edit at position `local` of chunk `chunk`: the
/// chunk itself, then each neighbour that shares a face, an edge or a corner
/// with it at that position. Face neighbours come first (x, y, z), then edge
/// neighbours (xy, xz, yz), then the corner neighbour.
pub open spec fn dirty_set(chunk: Cell, local: Cell) -> Seq<Cell> {
    let dx = edge_step(local.x);
    let dy = edge_step(local.y);
    let dz = edge_step(local.z);
    seq![chunk] + neighbor_if(dx != 0, chunk, Cell { x: dx, y: 0, z: 0 }) + neighbor_if(
        dy != 0,
        chunk,
        Cell { x: 0, y: dy, z: 0 },
    ) + neighbor_if(dz != 0, chunk, Cell { x: 0, y: 0, z: dz }) + neighbor_if(
        dx != 0 && dy != 0,
        chunk,
        Cell { x: dx, y: dy, z: 0 },
    ) + neighbor_if(dx != 0 && dz != 0, chunk, Cell { x: dx, y: 0, z: dz }) + neighbor_if(
        dz != 0 && dy != 0,
        chunk,
        Cell { x: 0, y: dy, z: dz },
    ) + neighbor_if(dx != 0 && dy != 0 && dz != 0, chunk, Cell { x: dx, y: dy, z: dz })
}

/// The grid with `block` put into world cell `g`, whose chunk is stored.
pub open spec fn with_block(grid: Grid, g: Cell, block: Block) -> Grid {
    grid.insert(chunk_of(g), grid[chunk_of(g)].insert(local_of(g), block))
}

/// The grid with world cell `g`, whose chunk is stored, emptied.
pub open spec fn without_block(grid: Grid, g: Cell) -> Grid {
    grid.insert(chunk_of(g), grid[chunk_of(g)].remove(local_of(g)))
}

/// The world after `add_block(g, id)`.
///
/// Nothing changes when the cell already holds a block or when its chunk is
/// not stored. Otherwise the cell receives a block of material `id` in state
/// 0, and the chunks its mesh touches are marked.
pub open spec fn after_add(world: WorldView, g: Cell, id: u8) -> WorldView {
    if world.grid.contains_key(chunk_of(g)) && !block_present(world.grid, g) {
        WorldView {
            grid: with_block(world.grid, g, Block { block_id: id, block_state: 0 }),
            meshes: world.meshes,
            dirty: world.dirty + dirty_set(chunk_of(g), local_of(g)),
        }
    } else {
        world
    }
}

/// The world after `remove_block(g)`.
///
/// Nothing changes when the cell holds no block. Otherwise the cell is
/// emptied and the chunks its mesh touches are marked.
pub open spec fn after_remove(world: WorldView, g: Cell) -> WorldView {
    if block_present(world.grid, g) {
        WorldView {
            grid: without_block(world.grid, g),
            meshes: world.meshes,
            dirty: world.dirty + dirty_set(chunk_of(g), local_of(g)),
        }
    } else {
        world
    }
}

/// The chunks generated for a world of size `world_size`: every chunk within
/// `world_size` of the origin chunk along x and z, in the three layers -1, 0
/// and 1 along y.
pub open spec fn in_region(world_size: int, c: Cell) -> bool {
    &&& -world_size <= c.x <= world_size
    &&& -1 <= c.y <= 1
    &&& -world_size <= c.z <= world_size
}

/// `c` is a chunk of the region that comes before `at` when the region is
/// walked x-major, then y, then z.
pub open spec fn region_before(world_size: int, at: Cell, c: Cell) -> bool {
    in_region(world_size, c) && (c.x < at.x || (c.x == at.x && (c.y < at.y || (c.y == at.y && c.z
        < at.z))))
}

/// The grid once the chunks before `at` are generated. The origin chunk is
/// stored from the start, empty until its turn comes.
pub open spec fn grid_before(columns: Map<(int, int), int>, world_size: int, at: Cell) -> Grid {
    Map::new(
        |c: Cell| region_before(world_size, at, c) || c == origin_chunk(),
        |c: Cell|
            if region_before(world_size, at, c) {
                generated_chunk(columns, c)
            } else {
                Map::empty()
            },
    )
}

/// The grid of a freshly generated world: the generated chunks of the
/// region, and the origin chunk, which is stored even when the region is
/// empty.
pub open spec fn generated_grid(columns: Map<(int, int), int>, world_size: int) -> Grid {
    Map::new(
        |c: Cell| in_region(world_size, c) || c == origin_chunk(),
        |c: Cell|
            if in_region(world_size, c) {
                generated_chunk(columns, c)
            } else {
                Map::empty()
            },
    )
}

/// The meshes once the chunks before `at` are meshed.
pub open spec fn meshes_before(grid: Grid, world_size: int, at: Cell) -> Map<Cell, MeshView> {
    Map::new(|c: Cell| region_before(world_size, at, c), |c: Cell| mesh_of(grid, c))
}

/// The meshes of a freshly generated world: one for each chunk of the
/// region, built from the finished grid.
pub open spec fn generated_meshes(grid: Grid, world_size: int) -> Map<Cell, MeshView> {
    Map::new(|c: Cell| in_region(world_size, c), |c: Cell| mesh_of(grid, c))
}

/// The meshes after every chunk listed in `dirty` was rebuilt from `grid`.
pub open spec fn remeshed(meshes: Map<Cell, MeshView>, grid: Grid, dirty: Seq<Cell>) -> Map<
    Cell,
    MeshView,
> {
    Map::new(
        |c: Cell| meshes.contains_key(c) || dirty.contains(c),
        |c: Cell|
            if dirty.contains(c) {
                mesh_of(grid, c)
            } else {
                meshes[c]
            },
    )
}

/// The world after its stale meshes were rebuilt.
pub open spec fn after_remesh(world: WorldView) -> WorldView {
    WorldView {
        grid: world.grid,
        meshes: remeshed(world.meshes, world.grid, world.dirty),
        dirty: Seq::empty(),
    }
}

/// The place that follows `at` in the walk of the region's innermost loop.
pub open spec fn next_z(at: Cell) -> Cell {
    Cell { x: at.x, y: at.y, z: at.z + 1 }
}

proof fn lemma_grid_step(columns: Map<(int, int), int>, world_size: int, at: Cell)
    requires
        in_region(world_size, at),
    ensures
        grid_before(columns, world_size, at).insert(at, generated_chunk(columns, at))
            == grid_before(columns, world_size, next_z(at)),
{
    let stepped = grid_before(columns, world_size, at).insert(at, generated_chunk(columns, at));
    let wanted = grid_before(columns, world_size, next_z(at));
    assert forall|c: Cell| region_before(world_size, next_z(at), c) <==> region_before(
        world_size,
        at,
        c,
    ) || c == at by {}
    assert(stepped =~= wanted);
}

proof fn lemma_meshes_step(grid: Grid, world_size: int, at: Cell)
    requires
        in_region(world_size, at),
    ensures
        meshes_before(grid, world_size, at).insert(at, mesh_of(grid, at)) == meshes_before(
            grid,
            world_size,
            next_z(at),
        ),
{
    let stepped = meshes_before(grid, world_size, at).insert(at, mesh_of(grid, at));
    let wanted = meshes_before(grid, world_size, next_z(at));
    assert forall|c: Cell| region_before(world_size, next_z(at), c) <==> region_before(
        world_size,
        at,
        c,
    ) || c == at by {}
    assert(stepped =~= wanted);
}

proof fn lemma_remesh_step(meshes: Map<Cell, MeshView>, grid: Grid, done: Seq<Cell>, place: Cell)
    ensures
        remeshed(meshes, grid, done).insert(place, mesh_of(grid, place)) == remeshed(
            meshes,
            grid,
            done.push(place),
        ),
{
    let next = done.push(place);
    assert forall|c: Cell| next.contains(c) <==> done.contains(c) || c == place by {
        if next.contains(c) {
            let j = choose|j: int| 0 <= j < next.len() && next[j] == c;
            if j < done.len() {
                assert(done[j] == c);
            }
        }
        if done.contains(c) {
            let j = choose|j: int| 0 <= j < done.len() && done[j] == c;
            assert(next[j] == c);
        }
        assert(next[done.len() as int] == place);
    }
    assert(remeshed(meshes, grid, done).insert(place, mesh_of(grid, place)) =~= remeshed(
        meshes,
        grid,
        next,
    ));
}

/// The voxel world.
#[derive(Debug)]
pub struct World {
    pub chunks: ChunkMap<Chunk>,
    pub meshes: ChunkMap<Mesh>,
    pub dirty: Vec<ChunkPos>,
}

impl View for World {
    type V = WorldView;

    open spec fn view(&self) -> WorldView {
        WorldView {
            grid: grid_of(self.chunks@),
            meshes: self.meshes@.map_values(|mesh: Mesh| mesh@),
            dirty: self.dirty@.map_values(|chunk: ChunkPos| chunk@),
        }
    }
}

impl World {
    /// Generates the world of size `world_size` from the surface levels of
    /// `field`, then builds the mesh of every generated chunk. No chunk is
    /// marked as out of date. Columns that the field does not cover stay
    /// empty.
    pub fn new(world_size: i32, field: &HeightField) -> (world: World)
        ensures
            world@.grid == generated_grid(field@, world_size as int),
            world@.meshes == generated_meshes(world@.grid, world_size as int),
            world@.dirty == Seq::<Cell>::empty(),
    {
        let mut chunks: ChunkMap<Chunk> = ChunkMap::new();
        chunks.insert(ChunkPos { x: 0, y: 0, z: 0 }, Chunk::new());
        let size: i64 = world_size as i64;
        let ghost w = world_size as int;

        let mut x: i64 = -size;
        assert(grid_of(chunks@) =~= grid_before(field@, w, Cell { x: -w, y: -1, z: -w }));
        while x <= size
            invariant
                size == world_size,
                w == world_size,
                -size <= x,
                x <= size + 1 || x == -size,
                grid_of(chunks@) == grid_before(field@, w, Cell { x: x as int, y: -1, z: -w }),
            decreases size + 1 - x,
        {
            let mut y: i64 = -1;
            while y <= 1
                invariant
                    size == world_size,
                    w == world_size,
                    -size <= x <= size,
                    -1 <= y <= 2,
                    grid_of(chunks@) == grid_before(
                        field@,
                        w,
                        Cell { x: x as int, y: y as int, z: -w },
                    ),
                decreases 2 - y,
            {
                let mut z: i64 = -size;
                while z <= size
                    invariant
                        size == world_size,
                        w == world_size,
                        -size <= x <= size,
                        -1 <= y <= 1,
                        -size <= z <= size + 1,
                        grid_of(chunks@) == grid_before(
                            field@,
                            w,
                            Cell { x: x as int, y: y as int, z: z as int },
                        ),
                    decreases size + 1 - z,
                {
                    let ghost at = Cell { x: x as int, y: y as int, z: z as int };
                    let ghost stored = chunks@;
                    let chunk = gen_chunk(x as i32, y as i32, z as i32, field);
                    let ghost fresh = chunk@;
                    chunks.insert(ChunkPos { x: x as i32, y: y as i32, z: z as i32 }, chunk);
                    proof {
                        assert(grid_of(chunks@) =~= grid_of(stored).insert(at, fresh));
                        lemma_grid_step(field@, w, at);
                    }
                    z = z + 1;
                }
                y = y + 1;
                assert(grid_of(chunks@) =~= grid_before(
                    field@,
                    w,
                    Cell { x: x as int, y: y as int, z: -w },
                ));
            }
            x = x + 1;
            assert(grid_of(chunks@) =~= grid_before(field@, w, Cell { x: x as int, y: -1, z: -w }));
        }
        assert(grid_of(chunks@) =~= generated_grid(field@, w));

        let mut meshes: ChunkMap<Mesh> = ChunkMap::new();
        let ghost grid = grid_of(chunks@);

        let mut x: i64 = -size;
        assert(meshes@.map_values(|mesh: Mesh| mesh@) =~= meshes_before(
            grid,
            w,
            Cell { x: -w, y: -1, z: -w },
        ));
        while x <= size
            invariant
                size == world_size,
                w == world_size,
                grid == grid_of(chunks@),
                -size <= x,
                x <= size + 1 || x == -size,
                meshes@.map_values(|mesh: Mesh| mesh@) == meshes_before(
                    grid,
                    w,
                    Cell { x: x as int, y: -1, z: -w },
                ),
            decreases size + 1 - x,
        {
            let mut y: i64 = -1;
            while y <= 1
                invariant
                    size == world_size,
                    w == world_size,
                    grid == grid_of(chunks@),
                    -size <= x <= size,
                    -1 <= y <= 2,
                    meshes@.map_values(|mesh: Mesh| mesh@) == meshes_before(
                        grid,
                        w,
                        Cell { x: x as int, y: y as int, z: -w },
                    ),
                decreases 2 - y,
            {
                let mut z: i64 = -size;
                while z <= size
                    invariant
                        size == world_size,
                        w == world_size,
                        grid == grid_of(chunks@),
                        -size <= x <= size,
                        -1 <= y <= 1,
                        -size <= z <= size + 1,
                        meshes@.map_values(|mesh: Mesh| mesh@) == meshes_before(
                            grid,
                            w,
                            Cell { x: x as int, y: y as int, z: z as int },
                        ),
                    decreases size + 1 - z,
                {
                    let ghost at = Cell { x: x as int, y: y as int, z: z as int };
                    let ghost stored = meshes@;
                    let place = ChunkPos { x: x as i32, y: y as i32, z: z as i32 };
                    let mesh = get_mesh(&chunks, place);
                    let ghost fresh = mesh@;
                    meshes.insert(place, mesh);
                    proof {
                        assert(meshes@.map_values(|mesh: Mesh| mesh@) =~= stored.map_values(
                            |mesh: Mesh| mesh@,
                        ).insert(at, fresh));
                        lemma_meshes_step(grid, w, at);
                    }
                    z = z + 1;
                }
                y = y + 1;
                assert(meshes@.map_values(|mesh: Mesh| mesh@) =~= meshes_before(
                    grid,
                    w,
                    Cell { x: x as int, y: y as int, z: -w },
                ));
            }
            x = x + 1;
            assert(meshes@.map_values(|mesh: Mesh| mesh@) =~= meshes_before(
                grid,
                w,
                Cell { x: x as int, y: -1, z: -w },
            ));
        }
        assert(meshes@.map_values(|mesh: Mesh| mesh@) =~= generated_meshes(grid, w));

        let world = World { chunks, meshes, dirty: Vec::new() };
        assert(world@.dirty =~= Seq::<Cell>::empty());
        world
    }

    /// Rebuilds the mesh of every chunk that is marked as out of date, each
    /// from the present state of the chunks, and empties the queue.
    pub fn remesh_dirty(&mut self)
        ensures
            final(self)@ == after_remesh(old(self)@),
    {
        let ghost grid = self@.grid;
        let ghost before = self@.meshes;
        let ghost dirty = self@.dirty;
        let count = self.dirty.len();
        let mut i: usize = 0;
        assert(before =~= remeshed(before, grid, dirty.take(0)));
        while i < count
            invariant
                i <= count,
                count == self.dirty.len(),
                self.chunks == old(self).chunks,
                self.dirty == old(self).dirty,
                grid == old(self)@.grid,
                before == old(self)@.meshes,
                dirty == old(self)@.dirty,
                self@.meshes == remeshed(before, grid, dirty.take(i as int)),
            decreases count - i,
        {
            let ghost stored = self.meshes@;
            let place = self.dirty[i];
            let mesh = get_mesh(&self.chunks, place);
            let ghost fresh = mesh@;
            self.meshes.insert(place, mesh);
            proof {
                assert(self@.meshes =~= stored.map_values(|mesh: Mesh| mesh@).insert(
                    place@,
                    fresh,
                ));
                assert(dirty.take(i + 1) =~= dirty.take(i as int).push(place@));
                lemma_remesh_step(before, grid, dirty.take(i as int), place@);
            }
            i = i + 1;
        }
        assert(dirty.take(count as int) =~= dirty);
        self.dirty = Vec::new();
        assert(self@.dirty =~= Seq::<Cell>::empty());
    }

    /// The chunk at `(x, y, z)`, or the origin chunk when no chunk is stored
    /// there. The stand-in is unrelated terrain: use `chunks.get` to tell a
    /// missing chunk from a stored one.
    pub fn get_chunk(&self, x: i32, y: i32, z: i32) -> (chunk: &Chunk)
        requires
            self@.grid.contains_key(origin_chunk()),
        ensures
            *chunk == (if self.chunks@.contains_key(Cell { x: x as int, y: y as int, z: z as int }) {
                self.chunks@[Cell { x: x as int, y: y as int, z: z as int }]
            } else {
                self.chunks@[origin_chunk()]
            }),
    {
        let wanted = ChunkPos { x, y, z };
        if self.chunks.contains_key(&wanted) {
            self.chunks.get(&wanted).unwrap()
        } else {
            let origin = ChunkPos { x: 0, y: 0, z: 0 };
            self.chunks.get(&origin).unwrap()
        }
    }

    /// Whether the world cell `position` holds a block. A cell of a chunk
    /// that is not stored holds none.
    pub fn block_exists(&self, position: BlockPos) -> (exists: bool)
        ensures
            exists == block_present(self@.grid, position@),
    {
        let (chunk_pos, relative_pos) = self.chunk_block_from_global(position);
        match self.chunks.get(&chunk_pos) {
            None => false,
            Some(chunk) => chunk.contains_key(&relative_pos),
        }
    }

    /// Marks the chunk of an edited block, and the neighbouring chunks the
    /// block touches, as out of date.
    fn update_dirty(&mut self, chunk_pos: ChunkPos, block_pos: LocalPos)
        requires
            i32::MIN < chunk_pos.x < i32::MAX,
            i32::MIN < chunk_pos.y < i32::MAX,
            i32::MIN < chunk_pos.z < i32::MAX,
        ensures
            final(self).chunks == old(self).chunks,
            final(self).meshes == old(self).meshes,
            final(self)@.dirty == old(self)@.dirty + dirty_set(chunk_pos@, block_pos@),
    {
        self.dirty.push(chunk_pos);

        let mut x_dirt: i32 = 0;
        let mut y_dirt: i32 = 0;
        let mut z_dirt: i32 = 0;

        if block_pos.x == 15 {
            x_dirt = 1;
        } else if block_pos.x == 0 {
            x_dirt = -1;
        }
        if block_pos.y == 15 {
            y_dirt = 1;
        } else if block_pos.y == 0 {
            y_dirt = -1;
        }
        if block_pos.z == 15 {
            z_dirt = 1;
        } else if block_pos.z == 0 {
            z_dirt = -1;
        }

        if x_dirt != 0 {
            self.dirty.push(ChunkPos { x: chunk_pos.x + x_dirt, y: chunk_pos.y, z: chunk_pos.z });
        }
        if y_dirt != 0 {
            self.dirty.push(ChunkPos { x: chunk_pos.x, y: chunk_pos.y + y_dirt, z: chunk_pos.z });
        }
        if z_dirt != 0 {
            self.dirty.push(ChunkPos { x: chunk_pos.x, y: chunk_pos.y, z: chunk_pos.z + z_dirt });
        }

        if x_dirt != 0 && y_dirt != 0 {
            self.dirty.push(
                ChunkPos { x: chunk_pos.x + x_dirt, y: chunk_pos.y + y_dirt, z: chunk_pos.z },
            );
        }
        if x_dirt != 0 && z_dirt != 0 {
            self.dirty.push(
                ChunkPos { x: chunk_pos.x + x_dirt, y: chunk_pos.y, z: chunk_pos.z + z_dirt },
            );
        }
        if z_dirt != 0 && y_dirt != 0 {
            self.dirty.push(
                ChunkPos { x: chunk_pos.x, y: chunk_pos.y + y_dirt, z: chunk_pos.z + z_dirt },
            );
        }

        if x_dirt != 0 && y_dirt != 0 && z_dirt != 0 {
            self.dirty.push(
                ChunkPos {
                    x: chunk_pos.x + x_dirt,
                    y: chunk_pos.y + y_dirt,
                    z: chunk_pos.z + z_dirt,
                },
            );
        }
        assert(self@.dirty =~= old(self)@.dirty + dirty_set(chunk_pos@, block_pos@));
    }

    /// Puts a block of material `id` into the world cell `position`.
    ///
    /// Does nothing when the cell already holds a block, or when its chunk
    /// is not stored: chunks are never created by an edit.
    pub fn add_block(&mut self, position: BlockPos, id: u8)
        ensures
            final(self)@ == after_add(old(self)@, position@, id),
    {
        let (chunk_pos, block_pos) = self.chunk_block_from_global(position);

        if !self.block_exists(position) {
            match self.chunks.remove(&chunk_pos) {
                Some(chunk) => {
                    let mut chunk = chunk;
                    chunk.insert(block_pos, Block { block_id: id, block_state: 0 });
                    self.chunks.insert(chunk_pos, chunk);
                    assert(self@.grid =~= with_block(
                        old(self)@.grid,
                        position@,
                        Block { block_id: id, block_state: 0 },
                    ));
                    self.update_dirty(chunk_pos, block_pos);
                },
                None => {
                    assert(self.chunks@ =~= old(self).chunks@);
                },
            }
        }
    }

    /// Empties the world cell `position`. Does nothing when the cell holds
    /// no block.
    pub fn remove_block(&mut self, position: BlockPos)
        ensures
            final(self)@ == after_remove(old(self)@, position@),
    {
        let (chunk_pos, block_pos) = self.chunk_block_from_global(position);

        if self.block_exists(position) {
            match self.chunks.remove(&chunk_pos) {
                Some(chunk) => {
                    let mut chunk = chunk;
                    chunk.remove(&block_pos);
                    self.chunks.insert(chunk_pos, chunk);
                    assert(self@.grid =~= without_block(old(self)@.grid, position@));
                    self.update_dirty(chunk_pos, block_pos);
                },
                None => {},
            }
        }
    }

    /// Splits a world cell into the coordinate of its chunk and its position
    /// inside that chunk: the floor of the division by the chunk's edge and
    /// the non-negative remainder, on every axis.
    pub fn chunk_block_from_global(&self, position: BlockPos) -> (parts: (ChunkPos, LocalPos))
        ensures
            parts.0@ == chunk_of(position@),
            parts.1@ == local_of(position@),
            in_chunk(parts.1@),
    {
        split_global(position)
    }
}

} // verus!
