use vstd::prelude::*;

use crate::geom::IVec2;
use crate::tile::{Tile, TileChunk};
use crate::world::{in_world, chunk_in_world, chunk_index, chunk_of, local_of};

verus! {

/// One queued change to the world's tiles.
pub enum WorldCommand {
    RecalculateAllMeshes,
    SetTile { x: i32, y: i32, tile: Tile },
    SetTiles { tile_poses: Vec<IVec2>, tile: Tile },
    SetTilesInChunk { chunk_pos: IVec2, local_tile_poses: Vec<IVec2>, tile: Tile },
    SetTileArea { x: i32, y: i32, width: i32, height: i32, tile: Tile },
}

impl WorldCommand {
    /// The tile kind that the command writes.
    pub open spec fn tile_written(self) -> Tile {
        match self {
            WorldCommand::RecalculateAllMeshes => Tile::Empty,
            WorldCommand::SetTile { tile, .. } => tile,
            WorldCommand::SetTiles { tile, .. } => tile,
            WorldCommand::SetTilesInChunk { tile, .. } => tile,
            WorldCommand::SetTileArea { tile, .. } => tile,
        }
    }

    /// The command writes the tile at a position. Positions outside the world are
    /// never written: a command is clipped to the world.
    pub open spec fn writes(self, x: int, y: int) -> bool {
        in_world(x, y) && match self {
            WorldCommand::RecalculateAllMeshes => false,
            WorldCommand::SetTile { x: tx, y: ty, .. } => tx == x && ty == y,
            WorldCommand::SetTiles { tile_poses, .. } => exists|j: int|
                0 <= j < tile_poses@.len() && #[trigger] tile_poses@[j].x == x && tile_poses@[j].y == y,
            WorldCommand::SetTilesInChunk { chunk_pos, local_tile_poses, .. } => exists|j: int|
                0 <= j < local_tile_poses@.len() && chunk_in_world(chunk_pos.x as int, chunk_pos.y as int)
                    && 0 <= #[trigger] local_tile_poses@[j].x < 16 && 0 <= local_tile_poses@[j].y < 16
                    && chunk_pos.x * 16 + local_tile_poses@[j].x == x
                    && chunk_pos.y * 16 + local_tile_poses@[j].y == y,
            WorldCommand::SetTileArea { x: ax, y: ay, width, height, .. } =>
                ax <= x < ax + width && ay <= y < ay + height,
        }
    }

    /// The command writes some tile of the chunk with index `i`.
    pub open spec fn touches(self, i: int) -> bool {
        exists|a: int, b: int| #[trigger] self.writes(a, b) && chunk_of(a, b) == i
    }
}

/// The tile at a position of a chunk array.
pub open spec fn cell_of(chunks: Seq<TileChunk>, x: int, y: int) -> Tile {
    chunks[chunk_of(x, y)].tiles@[local_of(x, y)]
}

/// The tile at a position once a batch of commands has been applied in order: the
/// last command that writes the position decides it.
pub open spec fn cell_after(chunks: Seq<TileChunk>, cmds: Seq<WorldCommand>, x: int, y: int) -> Tile
    decreases cmds.len(),
{
    if cmds.len() == 0 {
        cell_of(chunks, x, y)
    } else if cmds.last().writes(x, y) {
        cmds.last().tile_written()
    } else {
        cell_after(chunks, cmds.drop_last(), x, y)
    }
}

/// A batch of commands, gathered during one step and applied at once.
pub struct WorldCommands {
    pub commands: Vec<WorldCommand>,
}

impl WorldCommands {
    /// An empty batch.
    pub fn new() -> (r: WorldCommands)
        ensures
            r.commands@.len() == 0,
    {
        WorldCommands { commands: Vec::new() }
    }

    /// Queues several commands, in order.
    pub fn push_commands(&mut self, commands: Vec<WorldCommand>)
        ensures
            final(self).commands@ == old(self).commands@ + commands@,
    {
        let mut commands = commands;
        self.commands.append(&mut commands);
    }

    /// Queues a request to rebuild every chunk's mesh.
    pub fn recalculate_all_meshes(&mut self)
        ensures
            final(self).commands@ == old(self).commands@.push(WorldCommand::RecalculateAllMeshes),
    {
        self.commands.push(WorldCommand::RecalculateAllMeshes);
    }

    /// Queues a write of one tile.
    pub fn set_tile(&mut self, tile_pos: IVec2, tile: Tile)
        ensures
            final(self).commands@ == old(self).commands@.push(
                (WorldCommand::SetTile { x: tile_pos.x, y: tile_pos.y, tile }),
            ),
    {
        self.commands.push(WorldCommand::SetTile { x: tile_pos.x, y: tile_pos.y, tile });
    }

    /// Queues a write of one tile kind at each of a list of positions.
    pub fn set_tiles(&mut self, tile_poses: Vec<IVec2>, tile: Tile)
        ensures
            final(self).commands@ == old(self).commands@.push(
                (WorldCommand::SetTiles { tile_poses, tile }),
            ),
    {
        self.commands.push(WorldCommand::SetTiles { tile_poses, tile });
    }

    /// Queues a write of one tile kind at positions given relative to one chunk.
    pub fn set_tiles_in_chunk(&mut self, chunk_pos: IVec2, local_tile_poses: Vec<IVec2>, tile: Tile)
        ensures
            final(self).commands@ == old(self).commands@.push(
                (WorldCommand::SetTilesInChunk { chunk_pos, local_tile_poses, tile }),
            ),
    {
        self.commands.push(WorldCommand::SetTilesInChunk { chunk_pos, local_tile_poses, tile });
    }

    /// Queues a fill of the rectangle that starts at `begin_pos` and spans `size`.
    pub fn set_tile_area(&mut self, begin_pos: IVec2, size: IVec2, tile: Tile)
        ensures
            final(self).commands@ == old(self).commands@.push(
                (WorldCommand::SetTileArea {
                    x: begin_pos.x,
                    y: begin_pos.y,
                    width: size.x,
                    height: size.y,
                    tile,
                }),
            ),
    {
        self.commands.push(
            WorldCommand::SetTileArea { x: begin_pos.x, y: begin_pos.y, width: size.x, height: size.y, tile },
        );
    }
}

/// Commands that do not write a position leave its tile as it was.
pub proof fn lemma_cell_after_unwritten(chunks: Seq<TileChunk>, cmds: Seq<WorldCommand>, rest: Seq<WorldCommand>, x: int, y: int)
    requires
        forall|i: int| 0 <= i < rest.len() ==> !(#[trigger] rest[i]).writes(x, y),
    ensures
        cell_after(chunks, cmds + rest, x, y) == cell_after(chunks, cmds, x, y),
    decreases rest.len(),
{
    if rest.len() > 0 {
        assert((cmds + rest).drop_last() =~= cmds + rest.drop_last());
        assert((cmds + rest).last() == rest.last());
        lemma_cell_after_unwritten(chunks, cmds, rest.drop_last(), x, y);
    } else {
        assert(cmds + rest =~= cmds);
    }
}

/// The last command of a batch that writes a position decides its tile.
pub proof fn lemma_cell_after_last_writer(
    chunks: Seq<TileChunk>,
    cmds: Seq<WorldCommand>,
    c: WorldCommand,
    rest: Seq<WorldCommand>,
    x: int,
    y: int,
)
    requires
        c.writes(x, y),
        forall|i: int| 0 <= i < rest.len() ==> !(#[trigger] rest[i]).writes(x, y),
    ensures
        cell_after(chunks, cmds.push(c) + rest, x, y) == c.tile_written(),
{
    lemma_cell_after_unwritten(chunks, cmds.push(c), rest, x, y);
    assert(cmds.push(c).drop_last() =~= cmds);
}

/// Filling the same rectangle twice leaves the same tiles as filling it once, whatever
/// came before, and a rebuild of every mesh queued after it changes no tile.
pub proof fn lemma_set_tile_area_idempotent(
    chunks: Seq<TileChunk>,
    cmds: Seq<WorldCommand>,
    begin_pos: IVec2,
    size: IVec2,
    tile: Tile,
    x: int,
    y: int,
)
    ensures
        ({
            let c = WorldCommand::SetTileArea { x: begin_pos.x, y: begin_pos.y, width: size.x, height: size.y, tile };
            &&& cell_after(chunks, cmds.push(c).push(c), x, y) == cell_after(chunks, cmds.push(c), x, y)
            &&& cell_after(chunks, cmds.push(c).push(c).push(WorldCommand::RecalculateAllMeshes), x, y)
                == cell_after(chunks, cmds.push(c).push(WorldCommand::RecalculateAllMeshes), x, y)
        }),
{
    let c = WorldCommand::SetTileArea { x: begin_pos.x, y: begin_pos.y, width: size.x, height: size.y, tile };
    assert(cmds.push(c).push(c).drop_last() =~= cmds.push(c));
    assert(cmds.push(c).drop_last() =~= cmds);
    assert(cmds.push(c).push(c).push(WorldCommand::RecalculateAllMeshes).drop_last() =~= cmds.push(c).push(c));
    assert(cmds.push(c).push(WorldCommand::RecalculateAllMeshes).drop_last() =~= cmds.push(c));
}

/// When some commands of a batch's tail write a position and all of those write the
/// same kind, the position ends with that kind.
pub proof fn lemma_cell_after_tail_writes(
    chunks: Seq<TileChunk>,
    cmds: Seq<WorldCommand>,
    rest: Seq<WorldCommand>,
    x: int,
    y: int,
    t: Tile,
)
    requires
        exists|i: int| 0 <= i < rest.len() && (#[trigger] rest[i]).writes(x, y),
        forall|i: int| 0 <= i < rest.len() && (#[trigger] rest[i]).writes(x, y) ==> rest[i].tile_written() == t,
    ensures
        cell_after(chunks, cmds + rest, x, y) == t,
    decreases rest.len(),
{
    assert((cmds + rest).drop_last() =~= cmds + rest.drop_last());
    assert((cmds + rest).last() == rest.last());
    if !rest.last().writes(x, y) {
        let i = choose|i: int| 0 <= i < rest.len() && (#[trigger] rest[i]).writes(x, y);
        assert(rest.drop_last()[i] == rest[i]);
        assert forall|j: int| 0 <= j < rest.drop_last().len() && (#[trigger] rest.drop_last()[j]).writes(x, y)
            implies rest.drop_last()[j].tile_written() == t by {
            assert(rest.drop_last()[j] == rest[j]);
        }
        lemma_cell_after_tail_writes(chunks, cmds, rest.drop_last(), x, y, t);
    }
}

/// A position that every command of a batch writing it fills with a tile that cannot
/// be walked through, and that some command writes or that could not be walked through
/// before, cannot be walked through afterwards.
pub proof fn lemma_cell_after_solid(chunks: Seq<TileChunk>, cmds: Seq<WorldCommand>, x: int, y: int)
    requires
        forall|i: int| 0 <= i < cmds.len() && (#[trigger] cmds[i]).writes(x, y) ==> !cmds[i].tile_written().walkable(),
        !cell_of(chunks, x, y).walkable() || exists|i: int| 0 <= i < cmds.len() && (#[trigger] cmds[i]).writes(x, y),
    ensures
        !cell_after(chunks, cmds, x, y).walkable(),
    decreases cmds.len(),
{
    if cmds.len() > 0 && !cmds.last().writes(x, y) {
        let rest = cmds.drop_last();
        assert forall|i: int| 0 <= i < rest.len() && (#[trigger] rest[i]).writes(x, y) implies !rest[i].tile_written().walkable() by {
            assert(rest[i] == cmds[i]);
        }
        if !cell_of(chunks, x, y).walkable() {
        } else {
            let i = choose|i: int| 0 <= i < cmds.len() && (#[trigger] cmds[i]).writes(x, y);
            assert(rest[i] == cmds[i]);
        }
        lemma_cell_after_solid(chunks, rest, x, y);
    } else if cmds.len() > 0 {
        assert(cmds[cmds.len() - 1] == cmds.last());
    }
}

/// Filling a rectangle of at least one tile writes tiles of exactly the chunks that
/// `World::query_chunks_between_two_tiles` lists for the rectangle's first and last
/// tiles.
pub proof fn lemma_area_touches_queried_chunks(begin_pos: IVec2, size: IVec2, tile: Tile, cx: int, cy: int)
    requires
        chunk_in_world(cx, cy),
    ensures
        (WorldCommand::SetTileArea { x: begin_pos.x, y: begin_pos.y, width: size.x, height: size.y, tile }).touches(
            chunk_index(cx, cy),
        ) <==> ({
            &&& size.x >= 1 && size.y >= 1
            &&& begin_pos.x as int / 16 <= cx <= (begin_pos.x + size.x - 1) / 16
            &&& begin_pos.y as int / 16 <= cy <= (begin_pos.y + size.y - 1) / 16
        }),
{
    let c = WorldCommand::SetTileArea { x: begin_pos.x, y: begin_pos.y, width: size.x, height: size.y, tile };
    let ex = begin_pos.x + size.x;
    let ey = begin_pos.y + size.y;
    lemma_floor16(begin_pos.x as int);
    lemma_floor16(begin_pos.y as int);
    lemma_floor16(ex - 1);
    lemma_floor16(ey - 1);
    if c.touches(chunk_index(cx, cy)) {
        let (a, b) = choose|a: int, b: int| #[trigger] c.writes(a, b) && chunk_of(a, b) == chunk_index(cx, cy);
        lemma_chunk_of_inverse(a, b);
        vstd::arithmetic::div_mod::lemma_fundamental_div_mod_converse(chunk_of(a, b), 64, cy, cx);
        lemma_floor16(a);
        lemma_floor16(b);
    }
    if size.x >= 1 && size.y >= 1 && begin_pos.x as int / 16 <= cx <= (ex - 1) / 16 && begin_pos.y as int / 16 <= cy
        <= (ey - 1) / 16 {
        let a = if begin_pos.x > cx * 16 { begin_pos.x as int } else { cx * 16 };
        let b = if begin_pos.y > cy * 16 { begin_pos.y as int } else { cy * 16 };
        vstd::arithmetic::div_mod::lemma_fundamental_div_mod_converse(a, 16, cx, a - cx * 16);
        vstd::arithmetic::div_mod::lemma_fundamental_div_mod_converse(b, 16, cy, b - cy * 16);
        assert(c.writes(a, b));
        assert(chunk_of(a, b) == chunk_index(cx, cy));
    }
}

/// Floor division by 16 brackets its argument.
proof fn lemma_floor16(a: int)
    ensures
        16 * (a / 16) <= a < 16 * (a / 16) + 16,
{
    vstd::arithmetic::div_mod::lemma_fundamental_div_mod(a, 16);
    vstd::arithmetic::div_mod::lemma_mod_bound(a, 16);
}

/// The chunk index of a tile inside the world names its chunk position.
proof fn lemma_chunk_of_inverse(a: int, b: int)
    requires
        in_world(a, b),
    ensures
        chunk_of(a, b) % 64 == a / 16,
        chunk_of(a, b) / 64 == b / 16,
{
    vstd::arithmetic::div_mod::lemma_fundamental_div_mod_converse(chunk_of(a, b), 64, b / 16, a / 16);
}

} // verus!
