use vstd::prelude::*;

use crate::geom::{IVec2, ivec2};
use crate::tile::{Tile, TileChunk, CHUNK_SIDE, CHUNK_SIZE, CHUNK_SIDE_I32};
use crate::command::{WorldCommand, WorldCommands, cell_of, cell_after};
use crate::mesh::{GameMesh, quad_corner};

verus! {

/// Width of the world, in chunks.
pub const WORLD_WIDTH: usize = 64;
/// Height of the world, in chunks.
pub const WORLD_HEIGHT: usize = 64;
/// Number of chunks in the world.
pub const WORLD_SIZE: usize = 4096;
/// Side length of a tile, in world units.
pub const TILE_SIDE: usize = 16;

pub const WORLD_WIDTH_I32: i32 = 64;
pub const WORLD_HEIGHT_I32: i32 = 64;
pub const TILE_SIDE_I32: i32 = 16;
/// Width of the world, in tiles.
pub const WORLD_TILE_WIDTH_I32: i32 = 1024;
/// Height of the world, in tiles.
pub const WORLD_TILE_HEIGHT_I32: i32 = 1024;

/// The tile position lies inside the world.
pub open spec fn in_world(x: int, y: int) -> bool {
    0 <= x < 1024 && 0 <= y < 1024
}

/// The chunk position lies inside the world.
pub open spec fn chunk_in_world(x: int, y: int) -> bool {
    0 <= x < 64 && 0 <= y < 64
}

/// Index, in the chunk array, of the chunk at a chunk position.
pub open spec fn chunk_index(cx: int, cy: int) -> int {
    cy * 64 + cx
}

/// Index, in the chunk array, of the chunk that holds a tile position.
pub open spec fn chunk_of(x: int, y: int) -> int {
    chunk_index(x / 16, y / 16)
}

/// Index, within its chunk, of a tile position.
pub open spec fn local_of(x: int, y: int) -> int {
    (y % 16) * 16 + x % 16
}

/// Every tile of the world has a chunk and a place in it, and no two tiles share both.
pub proof fn lemma_cell_index(x: int, y: int)
    requires
        in_world(x, y),
    ensures
        0 <= chunk_of(x, y) < WORLD_SIZE,
        0 <= local_of(x, y) < CHUNK_SIZE,
        x == (chunk_of(x, y) % 64) * 16 + local_of(x, y) % 16,
        y == (chunk_of(x, y) / 64) * 16 + local_of(x, y) / 16,
{
    let cx = x / 16;
    let cy = y / 16;
    assert(0 <= cx < 64 && 0 <= cy < 64);
    assert(chunk_of(x, y) % 64 == cx && chunk_of(x, y) / 64 == cy) by {
        vstd::arithmetic::div_mod::lemma_fundamental_div_mod_converse(chunk_of(x, y), 64, cy, cx);
    }
    assert(local_of(x, y) % 16 == x % 16 && local_of(x, y) / 16 == y % 16) by {
        vstd::arithmetic::div_mod::lemma_fundamental_div_mod_converse(local_of(x, y), 16, y % 16, x % 16);
    }
}

/// Two tiles that share a chunk and a place in it are the same tile.
pub proof fn lemma_cell_injective(x1: int, y1: int, x2: int, y2: int)
    requires
        in_world(x1, y1),
        in_world(x2, y2),
        chunk_of(x1, y1) == chunk_of(x2, y2),
        local_of(x1, y1) == local_of(x2, y2),
    ensures
        x1 == x2 && y1 == y2,
{
    lemma_cell_index(x1, y1);
    lemma_cell_index(x2, y2);
}

/// Floor division by 16: the result rounds toward negative infinity.
pub fn floor_div16(a: i32) -> (r: i32)
    ensures
        r == a as int / 16,
{
    let q: i32 = a / 16;
    if a % 16 < 0 {
        q - 1
    } else {
        q
    }
}

// index_at

/// Index, within its chunk, of a tile position.
pub fn tile_index_at(tile_pos: IVec2) -> (r: usize)
    ensures
        r == local_of(tile_pos.x as int, tile_pos.y as int),
        r < CHUNK_SIZE,
{
    let mx: i32 = tile_pos.x % CHUNK_SIDE_I32;
    let my: i32 = tile_pos.y % CHUNK_SIDE_I32;
    let ux: usize = if mx < 0 { (mx + CHUNK_SIDE_I32) as usize } else { mx as usize };
    let uy: usize = if my < 0 { (my + CHUNK_SIDE_I32) as usize } else { my as usize };
    assert(ux == tile_pos.x as int % 16 && uy == tile_pos.y as int % 16);
    assert(uy * 16 + ux < 256) by (nonlinear_arith)
        requires
            ux < 16,
            uy < 16,
    ;
    uy * CHUNK_SIDE + ux
}

/// Index, within a chunk, of a position given relative to the chunk.
pub fn local_tile_index_at(local_tile_pos: IVec2) -> (r: usize)
    requires
        0 <= local_tile_pos.x < 16,
        0 <= local_tile_pos.y < 16,
    ensures
        r == local_tile_pos.y * 16 + local_tile_pos.x,
        r < CHUNK_SIZE,
{
    local_tile_pos.y as usize * CHUNK_SIDE + local_tile_pos.x as usize
}

/// Index, in the chunk array, of the chunk at a chunk position.
pub fn chunk_index_at(chunk_pos: IVec2) -> (r: usize)
    requires
        chunk_in_world(chunk_pos.x as int, chunk_pos.y as int),
    ensures
        r == chunk_index(chunk_pos.x as int, chunk_pos.y as int),
        r < WORLD_SIZE,
{
    chunk_pos.y as usize * WORLD_WIDTH + chunk_pos.x as usize
}

// chunk_pos ->

/// World position of a chunk's first corner.
pub fn chunk_pos_to_world_pos(chunk_pos: IVec2) -> (r: IVec2)
    requires
        -8_388_608 <= chunk_pos.x < 8_388_608,
        -8_388_608 <= chunk_pos.y < 8_388_608,
    ensures
        r.x == chunk_pos.x * 256,
        r.y == chunk_pos.y * 256,
{
    ivec2(chunk_pos.x * CHUNK_SIDE_I32 * TILE_SIDE_I32, chunk_pos.y * CHUNK_SIDE_I32 * TILE_SIDE_I32)
}

/// Tile position of a chunk's first tile.
pub fn chunk_pos_to_tile_pos(chunk_pos: IVec2) -> (r: IVec2)
    requires
        -134_217_728 <= chunk_pos.x < 134_217_728,
        -134_217_728 <= chunk_pos.y < 134_217_728,
    ensures
        r.x == chunk_pos.x * 16,
        r.y == chunk_pos.y * 16,
{
    ivec2(chunk_pos.x * CHUNK_SIDE_I32, chunk_pos.y * CHUNK_SIDE_I32)
}

// tile_pos ->

/// Chunk position of the chunk that holds a tile, by floor division.
pub fn tile_pos_to_chunk_pos(tile_pos: IVec2) -> (r: IVec2)
    ensures
        r.x == tile_pos.x as int / 16,
        r.y == tile_pos.y as int / 16,
{
    ivec2(floor_div16(tile_pos.x), floor_div16(tile_pos.y))
}

/// World position of a tile's first corner.
pub fn tile_pos_to_world_pos(tile_pos: IVec2) -> (r: IVec2)
    requires
        -134_217_728 <= tile_pos.x < 134_217_728,
        -134_217_728 <= tile_pos.y < 134_217_728,
    ensures
        r.x == tile_pos.x * 16,
        r.y == tile_pos.y * 16,
{
    ivec2(tile_pos.x * TILE_SIDE_I32, tile_pos.y * TILE_SIDE_I32)
}

// world_pos ->

/// Chunk position that holds a world position, by floor division.
pub fn world_pos_to_chunk_pos(world_pos: IVec2) -> (r: IVec2)
    ensures
        r.x == (world_pos.x as int / 16) / 16,
        r.y == (world_pos.y as int / 16) / 16,
{
    ivec2(floor_div16(floor_div16(world_pos.x)), floor_div16(floor_div16(world_pos.y)))
}

/// Tile position that holds a world position, by floor division.
pub fn world_pos_to_tile_pos(world_pos: IVec2) -> (r: IVec2)
    ensures
        r.x == world_pos.x as int / 16,
        r.y == world_pos.y as int / 16,
{
    ivec2(floor_div16(world_pos.x), floor_div16(world_pos.y))
}

/// A tile position turned into a world position and back is the same tile position.
pub proof fn lemma_tile_world_round_trip(t: IVec2)
    requires
        -134_217_728 <= t.x < 134_217_728,
        -134_217_728 <= t.y < 134_217_728,
    ensures
        (t.x * 16) / 16 == t.x,
        (t.y * 16) / 16 == t.y,
{
    vstd::arithmetic::div_mod::lemma_div_multiples_vanish(t.x as int, 16);
    vstd::arithmetic::div_mod::lemma_div_multiples_vanish(t.y as int, 16);
}

/// Every tile position inside the world has an index in its chunk below the chunk's
/// size, and a chunk whose index is below the world's number of chunks.
pub proof fn lemma_index_totality(t: IVec2)
    requires
        in_world(t.x as int, t.y as int),
    ensures
        local_of(t.x as int, t.y as int) < CHUNK_SIZE,
        chunk_in_world(t.x as int / 16, t.y as int / 16),
        chunk_index(t.x as int / 16, t.y as int / 16) < WORLD_SIZE,
{
    lemma_cell_index(t.x as int, t.y as int);
}

/// The world: chunk storage, one mesh per chunk, and what the meshes lag behind.
pub struct World {
    pub chunks: Vec<TileChunk>,
    pub meshes: Vec<GameMesh>,
    /// One flag per chunk: its tiles changed since its mesh was last rebuilt.
    pub dirty_chunks: Vec<bool>,
    pub recalculate_all_meshes: bool,
    /// Corners of every tile quad of a chunk, relative to the chunk, in world units.
    pub vertex_positions: Vec<IVec2>,
}

impl World {
    pub open spec fn wf(self) -> bool {
        &&& self.chunks@.len() == WORLD_SIZE
        &&& self.meshes@.len() == WORLD_SIZE
        &&& self.dirty_chunks@.len() == WORLD_SIZE
        &&& self.vertex_positions@.len() == 4 * CHUNK_SIZE
        &&& forall|i: int| 0 <= i < WORLD_SIZE ==> (#[trigger] self.chunks@[i]).tiles@.len() == CHUNK_SIZE
        &&& forall|i: int| 0 <= i < WORLD_SIZE ==> (#[trigger] self.meshes@[i]).uvs@.len() == 4 * CHUNK_SIZE
    }

    /// The tile at a position.
    pub open spec fn cell(self, x: int, y: int) -> Tile {
        cell_of(self.chunks@, x, y)
    }

    /// Writes one tile, given by its chunk index and its index within the chunk.
    fn write_at(&mut self, ci: usize, li: usize, tile: Tile, Ghost(x): Ghost<int>, Ghost(y): Ghost<int>)
        requires
            old(self).wf(),
            in_world(x, y),
            ci == chunk_of(x, y),
            li == local_of(x, y),
        ensures
            final(self).wf(),
            final(self).meshes == old(self).meshes,
            final(self).vertex_positions == old(self).vertex_positions,
            final(self).recalculate_all_meshes == old(self).recalculate_all_meshes,
            forall|a: int, b: int| in_world(a, b) ==> #[trigger] final(self).cell(a, b) == if a == x && b == y {
                tile
            } else {
                old(self).cell(a, b)
            },
            forall|c: int| 0 <= c < WORLD_SIZE ==> #[trigger] final(self).dirty_chunks@[c] == (old(self).dirty_chunks@[c] || c == ci),
            forall|c: int| 0 <= c < WORLD_SIZE && c != ci ==> #[trigger] final(self).chunks@[c] == old(self).chunks@[c],
    {
        proof {
            lemma_cell_index(x, y);
        }
        self.chunks[ci].tiles[li] = tile;
        self.dirty_chunks[ci] = true;
        proof {
            assert forall|a: int, b: int| in_world(a, b) implies #[trigger] self.cell(a, b) == if a == x && b == y {
                tile
            } else {
                old(self).cell(a, b)
            } by {
                lemma_cell_index(a, b);
                if chunk_of(a, b) == ci && local_of(a, b) == li {
                    lemma_cell_injective(a, b, x, y);
                }
            }
        }
    }

    /// Writes the tile at a position inside the world.
    fn write_cell(&mut self, x: i32, y: i32, tile: Tile)
        requires
            old(self).wf(),
            in_world(x as int, y as int),
        ensures
            final(self).wf(),
            final(self).meshes == old(self).meshes,
            final(self).vertex_positions == old(self).vertex_positions,
            final(self).recalculate_all_meshes == old(self).recalculate_all_meshes,
            forall|a: int, b: int| in_world(a, b) ==> #[trigger] final(self).cell(a, b) == if a == x && b == y {
                tile
            } else {
                old(self).cell(a, b)
            },
            forall|c: int| 0 <= c < WORLD_SIZE ==> #[trigger] final(self).dirty_chunks@[c] == (old(self).dirty_chunks@[c] || c == chunk_of(x as int, y as int)),
            forall|c: int| 0 <= c < WORLD_SIZE && c != chunk_of(x as int, y as int) ==> #[trigger] final(self).chunks@[c] == old(self).chunks@[c],
    {
        let ci = chunk_index_at(tile_pos_to_chunk_pos(ivec2(x, y)));
        let li = tile_index_at(ivec2(x, y));
        self.write_at(ci, li, tile, Ghost(x as int), Ghost(y as int));
    }

    /// `self` is `prev` after one command: the tiles that it writes hold its kind,
    /// every chunk it writes is marked dirty, and a chunk not marked dirty kept its tiles.
    pub open spec fn applied_one(self, prev: World, c: WorldCommand) -> bool {
        &&& self.wf()
        &&& self.meshes == prev.meshes
        &&& self.vertex_positions == prev.vertex_positions
        &&& self.recalculate_all_meshes == (prev.recalculate_all_meshes || c is RecalculateAllMeshes)
        &&& forall|a: int, b: int| in_world(a, b) ==> #[trigger] self.cell(a, b) == if c.writes(a, b) {
            c.tile_written()
        } else {
            prev.cell(a, b)
        }
        &&& forall|i: int| 0 <= i < WORLD_SIZE && prev.dirty_chunks@[i] ==> #[trigger] self.dirty_chunks@[i]
        &&& forall|a: int, b: int| #[trigger] c.writes(a, b) ==> self.dirty_chunks@[chunk_of(a, b)]
        &&& forall|i: int| 0 <= i < WORLD_SIZE && !self.dirty_chunks@[i] ==> #[trigger] self.chunks@[i] == prev.chunks@[i]
        &&& forall|i: int| 0 <= i < WORLD_SIZE && #[trigger] self.dirty_chunks@[i] && !prev.dirty_chunks@[i] ==> c.touches(i)
    }

    /// Applies one command.
    fn apply_command(&mut self, c: &WorldCommand)
        requires
            old(self).wf(),
        ensures
            final(self).applied_one(*old(self), *c),
    {
        match c {
            WorldCommand::RecalculateAllMeshes => {
                self.recalculate_all_meshes = true;
            },
            WorldCommand::SetTile { x, y, tile } => {
                if tile_in_world(ivec2(*x, *y)) {
                    self.write_cell(*x, *y, *tile);
                    assert(c.writes(*x as int, *y as int));
                }
            },
            WorldCommand::SetTiles { tile_poses, tile } => {
                let n = tile_poses.len();
                let mut k: usize = 0;
                while k < n
                    invariant
                        0 <= k <= n,
                        n == tile_poses@.len(),
                        self.wf(),
                        self.meshes == old(self).meshes,
                        self.vertex_positions == old(self).vertex_positions,
                        self.recalculate_all_meshes == old(self).recalculate_all_meshes,
                        forall|a: int, b: int| in_world(a, b) ==> #[trigger] self.cell(a, b) == if exists|j: int|
                            0 <= j < k && #[trigger] tile_poses@[j].x == a && tile_poses@[j].y == b {
                            *tile
                        } else {
                            old(self).cell(a, b)
                        },
                        forall|i: int| 0 <= i < WORLD_SIZE && old(self).dirty_chunks@[i] ==> #[trigger] self.dirty_chunks@[i],
                        forall|j: int| 0 <= j < k && in_world(tile_poses@[j].x as int, tile_poses@[j].y as int)
                            ==> self.dirty_chunks@[chunk_of(#[trigger] tile_poses@[j].x as int, tile_poses@[j].y as int)],
                        forall|i: int| 0 <= i < WORLD_SIZE && #[trigger] self.dirty_chunks@[i] && !old(self).dirty_chunks@[i]
                            ==> exists|j: int| 0 <= j < k && in_world(tile_poses@[j].x as int, tile_poses@[j].y as int)
                            && chunk_of(#[trigger] tile_poses@[j].x as int, tile_poses@[j].y as int) == i,
                        forall|i: int| 0 <= i < WORLD_SIZE && !self.dirty_chunks@[i] ==> #[trigger] self.chunks@[i] == old(self).chunks@[i],
                    decreases n - k,
                {
                    let p = tile_poses[k];
                    if tile_in_world(p) {
                        self.write_cell(p.x, p.y, *tile);
                    }
                    k += 1;
                }
                proof {
                    assert forall|i: int| 0 <= i < WORLD_SIZE && #[trigger] self.dirty_chunks@[i] && !old(self).dirty_chunks@[i]
                        implies c.touches(i) by {
                        let j = choose|j: int| 0 <= j < n && in_world(tile_poses@[j].x as int, tile_poses@[j].y as int)
                            && chunk_of(#[trigger] tile_poses@[j].x as int, tile_poses@[j].y as int) == i;
                        assert(c.writes(tile_poses@[j].x as int, tile_poses@[j].y as int));
                    }
                }
            },
            WorldCommand::SetTilesInChunk { chunk_pos, local_tile_poses, tile } => {
                if chunk_pos_in_world(*chunk_pos) {
                    let ci = chunk_index_at(*chunk_pos);
                    let n = local_tile_poses.len();
                    let mut k: usize = 0;
                    while k < n
                        invariant
                            0 <= k <= n,
                            n == local_tile_poses@.len(),
                            chunk_in_world(chunk_pos.x as int, chunk_pos.y as int),
                            ci == chunk_index(chunk_pos.x as int, chunk_pos.y as int),
                            self.wf(),
                            self.meshes == old(self).meshes,
                            self.vertex_positions == old(self).vertex_positions,
                            self.recalculate_all_meshes == old(self).recalculate_all_meshes,
                            forall|a: int, b: int| in_world(a, b) ==> #[trigger] self.cell(a, b) == if exists|j: int|
                                0 <= j < k && 0 <= #[trigger] local_tile_poses@[j].x < 16 && 0 <= local_tile_poses@[j].y < 16
                                    && chunk_pos.x * 16 + local_tile_poses@[j].x == a
                                    && chunk_pos.y * 16 + local_tile_poses@[j].y == b {
                                *tile
                            } else {
                                old(self).cell(a, b)
                            },
                            forall|i: int| 0 <= i < WORLD_SIZE && old(self).dirty_chunks@[i] ==> #[trigger] self.dirty_chunks@[i],
                            k > 0 ==> self.dirty_chunks@[ci as int] || forall|j: int| 0 <= j < k ==> !(0 <= #[trigger] local_tile_poses@[j].x < 16 && 0 <= local_tile_poses@[j].y < 16),
                            forall|i: int| 0 <= i < WORLD_SIZE && #[trigger] self.dirty_chunks@[i] && !old(self).dirty_chunks@[i]
                                ==> i == ci && exists|j: int| 0 <= j < k && 0 <= #[trigger] local_tile_poses@[j].x < 16
                                && 0 <= local_tile_poses@[j].y < 16,
                            forall|i: int| 0 <= i < WORLD_SIZE && !self.dirty_chunks@[i] ==> #[trigger] self.chunks@[i] == old(self).chunks@[i],
                        decreases n - k,
                    {
                        let l = local_tile_poses[k];
                        if 0 <= l.x && l.x < CHUNK_SIDE_I32 && 0 <= l.y && l.y < CHUNK_SIDE_I32 {
                            let li = local_tile_index_at(l);
                            proof {
                                lemma_chunk_local(chunk_pos.x as int, chunk_pos.y as int, l.x as int, l.y as int);
                            }
                            self.write_at(
                                ci,
                                li,
                                *tile,
                                Ghost(chunk_pos.x * 16 + l.x),
                                Ghost(chunk_pos.y * 16 + l.y),
                            );
                        }
                        k += 1;
                    }
                    proof {
                        assert forall|i: int| 0 <= i < WORLD_SIZE && #[trigger] self.dirty_chunks@[i] && !old(self).dirty_chunks@[i]
                            implies c.touches(i) by {
                            let j = choose|j: int| 0 <= j < n && 0 <= #[trigger] local_tile_poses@[j].x < 16
                                && 0 <= local_tile_poses@[j].y < 16;
                            let l = local_tile_poses@[j];
                            lemma_chunk_local(chunk_pos.x as int, chunk_pos.y as int, l.x as int, l.y as int);
                            assert(c.writes(chunk_pos.x * 16 + l.x, chunk_pos.y * 16 + l.y));
                        }
                        assert forall|a: int, b: int| #[trigger] c.writes(a, b) implies self.dirty_chunks@[chunk_of(a, b)] by {
                            let j = choose|j: int|
                                0 <= j < local_tile_poses@.len() && chunk_in_world(chunk_pos.x as int, chunk_pos.y as int)
                                    && 0 <= #[trigger] local_tile_poses@[j].x < 16 && 0 <= local_tile_poses@[j].y < 16
                                    && chunk_pos.x * 16 + local_tile_poses@[j].x == a
                                    && chunk_pos.y * 16 + local_tile_poses@[j].y == b;
                            lemma_chunk_local(chunk_pos.x as int, chunk_pos.y as int, local_tile_poses@[j].x as int, local_tile_poses@[j].y as int);
                        }
                    }
                }
            },
            WorldCommand::SetTileArea { x, y, width, height, tile } => {
                let x_end: i64 = *x as i64 + *width as i64;
                let y_end: i64 = *y as i64 + *height as i64;
                let x0: i32 = if *x < 0 { 0 } else if *x > WORLD_TILE_WIDTH_I32 { WORLD_TILE_WIDTH_I32 } else { *x };
                let y0: i32 = if *y < 0 { 0 } else if *y > WORLD_TILE_HEIGHT_I32 { WORLD_TILE_HEIGHT_I32 } else { *y };
                let x1: i32 = if x_end < x0 as i64 { x0 } else if x_end > WORLD_TILE_WIDTH_I32 as i64 { WORLD_TILE_WIDTH_I32 } else { x_end as i32 };
                let y1: i32 = if y_end < y0 as i64 { y0 } else if y_end > WORLD_TILE_HEIGHT_I32 as i64 { WORLD_TILE_HEIGHT_I32 } else { y_end as i32 };
                let mut cy: i32 = y0;
                while cy < y1
                    invariant
                        0 <= x0 <= x1 <= 1024,
                        0 <= y0 <= cy <= y1 <= 1024,
                        self.wf(),
                        self.meshes == old(self).meshes,
                        self.vertex_positions == old(self).vertex_positions,
                        self.recalculate_all_meshes == old(self).recalculate_all_meshes,
                        forall|a: int, b: int| in_world(a, b) ==> #[trigger] self.cell(a, b) == if x0 <= a < x1 && y0 <= b < cy {
                            *tile
                        } else {
                            old(self).cell(a, b)
                        },
                        forall|i: int| 0 <= i < WORLD_SIZE && old(self).dirty_chunks@[i] ==> #[trigger] self.dirty_chunks@[i],
                        forall|a: int, b: int| x0 <= a < x1 && y0 <= b < cy ==> self.dirty_chunks@[#[trigger] chunk_of(a, b)],
                        forall|i: int| 0 <= i < WORLD_SIZE && #[trigger] self.dirty_chunks@[i] && !old(self).dirty_chunks@[i]
                            ==> exists|a: int, b: int| x0 <= a < x1 && y0 <= b < cy && #[trigger] chunk_of(a, b) == i,
                        forall|i: int| 0 <= i < WORLD_SIZE && !self.dirty_chunks@[i] ==> #[trigger] self.chunks@[i] == old(self).chunks@[i],
                    decreases y1 - cy,
                {
                    let mut cx: i32 = x0;
                    while cx < x1
                        invariant
                            0 <= x0 <= cx <= x1 <= 1024,
                            0 <= y0 <= cy < y1 <= 1024,
                            self.wf(),
                            self.meshes == old(self).meshes,
                            self.vertex_positions == old(self).vertex_positions,
                            self.recalculate_all_meshes == old(self).recalculate_all_meshes,
                            forall|a: int, b: int| in_world(a, b) ==> #[trigger] self.cell(a, b) == if (x0 <= a < x1 && y0 <= b < cy) || (x0 <= a < cx && b == cy) {
                                *tile
                            } else {
                                old(self).cell(a, b)
                            },
                            forall|i: int| 0 <= i < WORLD_SIZE && old(self).dirty_chunks@[i] ==> #[trigger] self.dirty_chunks@[i],
                            forall|a: int, b: int| (x0 <= a < x1 && y0 <= b < cy) || (x0 <= a < cx && b == cy) ==> self.dirty_chunks@[#[trigger] chunk_of(a, b)],
                            forall|i: int| 0 <= i < WORLD_SIZE && #[trigger] self.dirty_chunks@[i] && !old(self).dirty_chunks@[i]
                                ==> exists|a: int, b: int| ((x0 <= a < x1 && y0 <= b < cy) || (x0 <= a < cx && b == cy))
                                && #[trigger] chunk_of(a, b) == i,
                            forall|i: int| 0 <= i < WORLD_SIZE && !self.dirty_chunks@[i] ==> #[trigger] self.chunks@[i] == old(self).chunks@[i],
                        decreases x1 - cx,
                    {
                        self.write_cell(cx, cy, *tile);
                        cx += 1;
                    }
                    cy += 1;
                }
                proof {
                    assert forall|i: int| 0 <= i < WORLD_SIZE && #[trigger] self.dirty_chunks@[i] && !old(self).dirty_chunks@[i]
                        implies c.touches(i) by {
                        let (a, b) = choose|a: int, b: int| x0 <= a < x1 && y0 <= b < y1 && #[trigger] chunk_of(a, b) == i;
                        assert(c.writes(a, b));
                    }
                }
            },
        }
    }

    /// Applies a batch of commands in the order they were queued.
    pub fn apply_commands(&mut self, world_commands: WorldCommands)
        requires
            old(self).wf(),
        ensures
            final(self).wf(),
            final(self).meshes == old(self).meshes,
            final(self).vertex_positions == old(self).vertex_positions,
            forall|a: int, b: int| in_world(a, b) ==> #[trigger] final(self).cell(a, b) == cell_after(
                old(self).chunks@,
                world_commands.commands@,
                a,
                b,
            ),
            final(self).recalculate_all_meshes == (old(self).recalculate_all_meshes || exists|i: int|
                0 <= i < world_commands.commands@.len() && #[trigger] world_commands.commands@[i] is RecalculateAllMeshes),
            forall|i: int| 0 <= i < WORLD_SIZE && old(self).dirty_chunks@[i] ==> #[trigger] final(self).dirty_chunks@[i],
            forall|i: int, a: int, b: int| 0 <= i < world_commands.commands@.len() && #[trigger] world_commands.commands@[i].writes(a, b)
                ==> final(self).dirty_chunks@[chunk_of(a, b)],
            forall|i: int| 0 <= i < WORLD_SIZE && !final(self).dirty_chunks@[i] ==> #[trigger] final(self).chunks@[i] == old(self).chunks@[i],
            forall|i: int| 0 <= i < WORLD_SIZE && #[trigger] final(self).dirty_chunks@[i] && !old(self).dirty_chunks@[i]
                ==> exists|k: int| 0 <= k < world_commands.commands@.len() && (#[trigger] world_commands.commands@[k]).touches(i),
    {
        let cmds = world_commands.commands;
        let n = cmds.len();
        let mut k: usize = 0;
        while k < n
            invariant
                0 <= k <= n,
                n == cmds@.len(),
                cmds@ == world_commands.commands@,
                self.wf(),
                self.meshes == old(self).meshes,
                self.vertex_positions == old(self).vertex_positions,
                forall|a: int, b: int| in_world(a, b) ==> #[trigger] self.cell(a, b) == cell_after(
                    old(self).chunks@,
                    cmds@.take(k as int),
                    a,
                    b,
                ),
                self.recalculate_all_meshes == (old(self).recalculate_all_meshes || exists|i: int|
                    0 <= i < k && #[trigger] cmds@[i] is RecalculateAllMeshes),
                forall|i: int| 0 <= i < WORLD_SIZE && old(self).dirty_chunks@[i] ==> #[trigger] self.dirty_chunks@[i],
                forall|i: int, a: int, b: int| 0 <= i < k && #[trigger] cmds@[i].writes(a, b) ==> self.dirty_chunks@[chunk_of(a, b)],
                forall|i: int| 0 <= i < WORLD_SIZE && !self.dirty_chunks@[i] ==> #[trigger] self.chunks@[i] == old(self).chunks@[i],
                forall|i: int| 0 <= i < WORLD_SIZE && #[trigger] self.dirty_chunks@[i] && !old(self).dirty_chunks@[i]
                    ==> exists|j: int| 0 <= j < k && (#[trigger] cmds@[j]).touches(i),
            decreases n - k,
        {
            let ghost before = *self;
            self.apply_command(&cmds[k]);
            proof {
                let pre = cmds@.take(k as int);
                let post = cmds@.take(k + 1);
                assert(post.drop_last() =~= pre);
                assert(post.last() == cmds@[k as int]);
                assert forall|a: int, b: int| in_world(a, b) implies #[trigger] self.cell(a, b) == cell_after(
                    old(self).chunks@,
                    post,
                    a,
                    b,
                ) by {
                    assert(before.cell(a, b) == cell_after(old(self).chunks@, pre, a, b));
                }
                assert forall|i: int| 0 <= i < WORLD_SIZE && #[trigger] self.dirty_chunks@[i] && !old(self).dirty_chunks@[i]
                    implies exists|j: int| 0 <= j < k + 1 && (#[trigger] cmds@[j]).touches(i) by {
                    if before.dirty_chunks@[i] {
                        let j = choose|j: int| 0 <= j < k && (#[trigger] cmds@[j]).touches(i);
                        assert(cmds@[j].touches(i));
                    } else {
                        assert(cmds@[k as int].touches(i));
                    }
                }
                assert forall|i: int, a: int, b: int| 0 <= i < k + 1 && #[trigger] cmds@[i].writes(a, b) implies self.dirty_chunks@[chunk_of(a, b)] by {
                    if i < k {
                        lemma_cell_index(a, b);
                        assert(before.dirty_chunks@[chunk_of(a, b)]);
                    }
                }
            }
            k += 1;
        }
        proof {
            assert(cmds@.take(n as int) =~= cmds@);
        }
    }

    /// A world of background stone whose meshes all have a render target and are
    /// all due for a rebuild.
    pub fn blank() -> (r: World)
        ensures
            r.wf(),
            forall|a: int, b: int| in_world(a, b) ==> #[trigger] r.cell(a, b) == Tile::BackgroundStone,
            forall|i: int| 0 <= i < WORLD_SIZE ==> !(#[trigger] r.dirty_chunks@[i]),
            forall|i: int| 0 <= i < WORLD_SIZE ==> (#[trigger] r.meshes@[i]).has_texture,
            r.recalculate_all_meshes,
            forall|k: int, j: int| 0 <= k < CHUNK_SIZE && 0 <= j < 4 ==> #[trigger] r.vertex_positions@[4 * k + j]
                == quad_corner((k % 16) * 16, (k / 16) * 16, j),
    {
        let mut chunks: Vec<TileChunk> = Vec::new();
        let mut meshes: Vec<GameMesh> = Vec::new();
        let mut dirty_chunks: Vec<bool> = Vec::new();
        let mut i: usize = 0;
        while i < WORLD_SIZE
            invariant
                0 <= i <= WORLD_SIZE,
                chunks@.len() == i,
                meshes@.len() == i,
                dirty_chunks@.len() == i,
                forall|c: int| 0 <= c < i ==> (#[trigger] chunks@[c]).tiles@.len() == CHUNK_SIZE
                    && forall|l: int| 0 <= l < CHUNK_SIZE ==> #[trigger] chunks@[c].tiles@[l] == Tile::BackgroundStone,
                forall|c: int| 0 <= c < i ==> (#[trigger] meshes@[c]).uvs@.len() == 4 * CHUNK_SIZE && meshes@[c].has_texture,
                forall|c: int| 0 <= c < i ==> !(#[trigger] dirty_chunks@[c]),
            decreases WORLD_SIZE - i,
        {
            chunks.push(TileChunk::filled(Tile::BackgroundStone));
            let mut uvs: Vec<IVec2> = Vec::new();
            let mut k: usize = 0;
            while k < 4 * CHUNK_SIZE
                invariant
                    0 <= k <= 4 * CHUNK_SIZE,
                    uvs@.len() == k,
                decreases 4 * CHUNK_SIZE - k,
            {
                uvs.push(ivec2(0, 0));
                k += 1;
            }
            meshes.push(GameMesh { uvs, has_texture: true });
            dirty_chunks.push(false);
            i += 1;
        }
        let mut vertex_positions: Vec<IVec2> = Vec::new();
        let mut k: usize = 0;
        while k < CHUNK_SIZE
            invariant
                0 <= k <= CHUNK_SIZE,
                vertex_positions@.len() == 4 * k,
                forall|t: int, j: int| 0 <= t < k && 0 <= j < 4 ==> #[trigger] vertex_positions@[4 * t + j]
                    == quad_corner((t % 16) * 16, (t / 16) * 16, j),
            decreases CHUNK_SIZE - k,
        {
            let x: i32 = (k % CHUNK_SIDE) as i32 * TILE_SIDE_I32;
            let y: i32 = (k / CHUNK_SIDE) as i32 * TILE_SIDE_I32;
            vertex_positions.push(ivec2(x, y));
            vertex_positions.push(ivec2(x + TILE_SIDE_I32, y));
            vertex_positions.push(ivec2(x + TILE_SIDE_I32, y + TILE_SIDE_I32));
            vertex_positions.push(ivec2(x, y + TILE_SIDE_I32));
            proof {
                assert forall|t: int, j: int| 0 <= t < k + 1 && 0 <= j < 4 implies #[trigger] vertex_positions@[4 * t + j]
                    == quad_corner((t % 16) * 16, (t / 16) * 16, j) by {
                    if t == k {
                        assert(4 * t + j == 4 * k + j);
                    }
                }
            }
            k += 1;
        }
        let r = World { chunks, meshes, dirty_chunks, recalculate_all_meshes: true, vertex_positions };
        proof {
            assert forall|a: int, b: int| in_world(a, b) implies #[trigger] r.cell(a, b) == Tile::BackgroundStone by {
                lemma_cell_index(a, b);
            }
        }
        r
    }

    /// A batch to gather commands for this world into.
    pub fn commands(&self) -> (r: WorldCommands)
        ensures
            r.commands@.len() == 0,
    {
        WorldCommands::new()
    }

    /// Read access to the tiles.
    pub fn tiles(&self) -> (r: WorldTiles<'_>)
        ensures
            r.chunks@ == self.chunks@,
    {
        WorldTiles { chunks: &self.chunks }
    }

    /// The chunk at a chunk position.
    pub fn chunk_at(&self, chunk_pos: IVec2) -> (r: &TileChunk)
        requires
            self.wf(),
            chunk_in_world(chunk_pos.x as int, chunk_pos.y as int),
        ensures
            *r == self.chunks@[chunk_index(chunk_pos.x as int, chunk_pos.y as int)],
    {
        &self.chunks[chunk_index_at(chunk_pos)]
    }

    /// The mesh of the chunk at a chunk position.
    pub fn mesh_at(&self, chunk_pos: IVec2) -> (r: &GameMesh)
        requires
            self.wf(),
            chunk_in_world(chunk_pos.x as int, chunk_pos.y as int),
        ensures
            *r == self.meshes@[chunk_index(chunk_pos.x as int, chunk_pos.y as int)],
    {
        &self.meshes[chunk_index_at(chunk_pos)]
    }

    /// Chunk positions whose mesh is due for a rebuild, in index order.
    pub fn dirty_chunk_positions(&self) -> (r: Vec<IVec2>)
        requires
            self.wf(),
        ensures
            forall|j: int| 0 <= j < r@.len() ==> chunk_in_world((#[trigger] r@[j]).x as int, r@[j].y as int)
                && self.dirty_chunks@[chunk_index(r@[j].x as int, r@[j].y as int)],
            forall|cx: int, cy: int| chunk_in_world(cx, cy) && #[trigger] self.dirty_chunks@[chunk_index(cx, cy)]
                ==> exists|j: int| 0 <= j < r@.len() && r@[j].x == cx && #[trigger] r@[j].y == cy,
    {
        let mut r: Vec<IVec2> = Vec::new();
        let mut cy: i32 = 0;
        while cy < WORLD_HEIGHT_I32
            invariant
                0 <= cy <= 64,
                self.wf(),
                forall|j: int| 0 <= j < r@.len() ==> chunk_in_world((#[trigger] r@[j]).x as int, r@[j].y as int)
                    && self.dirty_chunks@[chunk_index(r@[j].x as int, r@[j].y as int)],
                forall|cx: int, y: int| chunk_in_world(cx, y) && y < cy && #[trigger] self.dirty_chunks@[chunk_index(cx, y)]
                    ==> exists|j: int| 0 <= j < r@.len() && r@[j].x == cx && #[trigger] r@[j].y == y,
            decreases 64 - cy,
        {
            let mut cx: i32 = 0;
            while cx < WORLD_WIDTH_I32
                invariant
                    0 <= cx <= 64,
                    0 <= cy < 64,
                    self.wf(),
                    forall|j: int| 0 <= j < r@.len() ==> chunk_in_world((#[trigger] r@[j]).x as int, r@[j].y as int)
                        && self.dirty_chunks@[chunk_index(r@[j].x as int, r@[j].y as int)],
                    forall|x: int, y: int| chunk_in_world(x, y) && (y < cy || (y == cy && x < cx))
                        && #[trigger] self.dirty_chunks@[chunk_index(x, y)]
                        ==> exists|j: int| 0 <= j < r@.len() && r@[j].x == x && #[trigger] r@[j].y == y,
                decreases 64 - cx,
            {
                let p = ivec2(cx, cy);
                if self.dirty_chunks[chunk_index_at(p)] {
                    let ghost r0 = r@;
                    r.push(p);
                    proof {
                        assert(r@[r@.len() - 1] == p);
                        assert forall|x: int, y: int| chunk_in_world(x, y) && (y < cy || (y == cy && x < cx + 1))
                            && #[trigger] self.dirty_chunks@[chunk_index(x, y)]
                            implies exists|j: int| 0 <= j < r@.len() && r@[j].x == x && #[trigger] r@[j].y == y by {
                            if y == cy && x == cx {
                                assert(r@[r@.len() - 1].y == y);
                            } else {
                                let j = choose|j: int| 0 <= j < r0.len() && r0[j].x == x && #[trigger] r0[j].y == y;
                                assert(r@[j] == r0[j]);
                            }
                        }
                    }
                }
                cx += 1;
            }
            cy += 1;
        }
        r
    }

}

/// The tile position lies inside the world.
pub fn tile_in_world(p: IVec2) -> (r: bool)
    ensures
        r == in_world(p.x as int, p.y as int),
{
    0 <= p.x && p.x < WORLD_TILE_WIDTH_I32 && 0 <= p.y && p.y < WORLD_TILE_HEIGHT_I32
}

/// The chunk position lies inside the world.
pub fn chunk_pos_in_world(p: IVec2) -> (r: bool)
    ensures
        r == chunk_in_world(p.x as int, p.y as int),
{
    0 <= p.x && p.x < WORLD_WIDTH_I32 && 0 <= p.y && p.y < WORLD_HEIGHT_I32
}

/// A position given relative to a chunk lies in that chunk, at its local index.
proof fn lemma_chunk_local(cx: int, cy: int, lx: int, ly: int)
    requires
        chunk_in_world(cx, cy),
        0 <= lx < 16,
        0 <= ly < 16,
    ensures
        in_world(cx * 16 + lx, cy * 16 + ly),
        chunk_of(cx * 16 + lx, cy * 16 + ly) == chunk_index(cx, cy),
        local_of(cx * 16 + lx, cy * 16 + ly) == ly * 16 + lx,
{
    vstd::arithmetic::div_mod::lemma_fundamental_div_mod_converse(cx * 16 + lx, 16, cx, lx);
    vstd::arithmetic::div_mod::lemma_fundamental_div_mod_converse(cy * 16 + ly, 16, cy, ly);
}

/// Read access to the world's tiles.
#[derive(Clone, Copy)]
pub struct WorldTiles<'w> {
    pub chunks: &'w Vec<TileChunk>,
}

/// One tile of the world, with the tiles around it in reach.
#[derive(Clone, Copy)]
pub struct WorldTile<'w> {
    pub world_tiles: WorldTiles<'w>,
    pub pos: IVec2,
    pub kind: Tile,
}

impl<'w> WorldTiles<'w> {
    pub open spec fn wf(self) -> bool {
        &&& self.chunks@.len() == WORLD_SIZE
        &&& forall|i: int| 0 <= i < WORLD_SIZE ==> (#[trigger] self.chunks@[i]).tiles@.len() == CHUNK_SIZE
    }

    /// The tile that holds a world position.
    pub fn at_world_pos(&self, world_pos: IVec2) -> (r: WorldTile<'w>)
        requires
            self.wf(),
            in_world(world_pos.x as int / 16, world_pos.y as int / 16),
        ensures
            r.pos.x == world_pos.x as int / 16,
            r.pos.y == world_pos.y as int / 16,
            r.kind == cell_of(self.chunks@, r.pos.x as int, r.pos.y as int),
            r.world_tiles.chunks@ == self.chunks@,
    {
        let tile_pos = world_pos_to_tile_pos(world_pos);
        self.at_tile_pos(tile_pos)
    }

    /// The tile at a tile position.
    pub fn at_tile_pos(&self, tile_pos: IVec2) -> (r: WorldTile<'w>)
        requires
            self.wf(),
            in_world(tile_pos.x as int, tile_pos.y as int),
        ensures
            r.pos == tile_pos,
            r.kind == cell_of(self.chunks@, tile_pos.x as int, tile_pos.y as int),
            r.world_tiles.chunks@ == self.chunks@,
    {
        proof {
            lemma_cell_index(tile_pos.x as int, tile_pos.y as int);
        }
        let chunk_pos = tile_pos_to_chunk_pos(tile_pos);
        let chunk = &self.chunks[chunk_index_at(chunk_pos)];
        WorldTile { world_tiles: WorldTiles { chunks: self.chunks }, pos: tile_pos, kind: chunk.tiles[tile_index_at(tile_pos)] }
    }
}

impl<'w> WorldTile<'w> {
    /// Index of the tile within its chunk.
    pub fn tile_index(&self) -> (r: usize)
        ensures
            r == local_of(self.pos.x as int, self.pos.y as int),
    {
        tile_index_at(self.pos)
    }

    /// World position of the tile's first corner.
    pub fn world_pos(&self) -> (r: IVec2)
        requires
            -134_217_728 <= self.pos.x < 134_217_728,
            -134_217_728 <= self.pos.y < 134_217_728,
        ensures
            r.x == self.pos.x * 16,
            r.y == self.pos.y * 16,
    {
        tile_pos_to_world_pos(self.pos)
    }

    /// Chunk position of the chunk that holds the tile.
    pub fn chunk_pos(&self) -> (r: IVec2)
        ensures
            r.x == self.pos.x as int / 16,
            r.y == self.pos.y as int / 16,
    {
        tile_pos_to_chunk_pos(self.pos)
    }

    /// The tile at another tile position of the same world.
    pub fn another_tile(&self, tile_pos: IVec2) -> (r: WorldTile<'w>)
        requires
            self.world_tiles.wf(),
            in_world(tile_pos.x as int, tile_pos.y as int),
        ensures
            r.pos == tile_pos,
            r.kind == cell_of(self.world_tiles.chunks@, tile_pos.x as int, tile_pos.y as int),
            r.world_tiles.chunks@ == self.world_tiles.chunks@,
    {
        self.world_tiles.at_tile_pos(tile_pos)
    }

    /// The tile `amount` away.
    pub fn offset_by(&self, amount: IVec2) -> (r: WorldTile<'w>)
        requires
            self.world_tiles.wf(),
            in_world(self.pos.x + amount.x, self.pos.y + amount.y),
        ensures
            r.pos.x == self.pos.x + amount.x,
            r.pos.y == self.pos.y + amount.y,
            r.kind == cell_of(self.world_tiles.chunks@, r.pos.x as int, r.pos.y as int),
            r.world_tiles.chunks@ == self.world_tiles.chunks@,
    {
        self.another_tile(self.pos.add(amount))
    }

    /// The tile `amount` rows up.
    pub fn up(&self, amount: i32) -> (r: WorldTile<'w>)
        requires
            self.world_tiles.wf(),
            in_world(self.pos.x as int, self.pos.y + amount),
        ensures
            r.pos.x == self.pos.x,
            r.pos.y == self.pos.y + amount,
            r.kind == cell_of(self.world_tiles.chunks@, r.pos.x as int, r.pos.y as int),
            r.world_tiles.chunks@ == self.world_tiles.chunks@,
    {
        self.another_tile(ivec2(self.pos.x, self.pos.y + amount))
    }

    /// The tile `amount` rows down.
    pub fn down(&self, amount: i32) -> (r: WorldTile<'w>)
        requires
            self.world_tiles.wf(),
            in_world(self.pos.x as int, self.pos.y - amount),
        ensures
            r.pos.x == self.pos.x,
            r.pos.y == self.pos.y - amount,
            r.kind == cell_of(self.world_tiles.chunks@, r.pos.x as int, r.pos.y as int),
            r.world_tiles.chunks@ == self.world_tiles.chunks@,
    {
        self.another_tile(ivec2(self.pos.x, self.pos.y - amount))
    }

    /// The tile `amount` columns left.
    pub fn left(&self, amount: i32) -> (r: WorldTile<'w>)
        requires
            self.world_tiles.wf(),
            in_world(self.pos.x - amount, self.pos.y as int),
        ensures
            r.pos.x == self.pos.x - amount,
            r.pos.y == self.pos.y,
            r.kind == cell_of(self.world_tiles.chunks@, r.pos.x as int, r.pos.y as int),
            r.world_tiles.chunks@ == self.world_tiles.chunks@,
    {
        self.another_tile(ivec2(self.pos.x - amount, self.pos.y))
    }

    /// The tile `amount` columns right.
    pub fn right(&self, amount: i32) -> (r: WorldTile<'w>)
        requires
            self.world_tiles.wf(),
            in_world(self.pos.x + amount, self.pos.y as int),
        ensures
            r.pos.x == self.pos.x + amount,
            r.pos.y == self.pos.y,
            r.kind == cell_of(self.world_tiles.chunks@, r.pos.x as int, r.pos.y as int),
            r.world_tiles.chunks@ == self.world_tiles.chunks@,
    {
        self.another_tile(ivec2(self.pos.x + amount, self.pos.y))
    }
}

} // verus!
