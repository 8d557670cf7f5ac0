use vstd::prelude::*;

use crate::geom::{IVec2, ivec2};
use crate::tile::{Tile, TileChunk, CHUNK_SIDE_I32, CHUNK_SIZE};
use crate::mesh::quad_corner;
use crate::command::{
    WorldCommand, WorldCommands, cell_of, cell_after, lemma_cell_after_last_writer, lemma_cell_after_unwritten,
    lemma_cell_after_tail_writes, lemma_cell_after_solid,
};
use crate::world::{
    World, WorldTiles, in_world, WORLD_WIDTH_I32, WORLD_HEIGHT_I32, WORLD_TILE_WIDTH_I32, WORLD_TILE_HEIGHT_I32,
};

verus! {

/// Height, in chunks, of the band of stone at the top of the world that is mined.
pub const BARRIER_HEIGHT: i32 = 13;
/// Lowest tile row of the mined band.
pub const BARRIER_Y_I32: i32 = 816;
/// Tile position where the player starts.
pub const WORLD_SPAWN_X_I32: i32 = 513;
pub const WORLD_SPAWN_Y_I32: i32 = 993;
/// Corners of the room carved around the spawn point (the end is exclusive).
pub const ROOM_START_X_I32: i32 = 481;
pub const ROOM_START_Y_I32: i32 = 993;
pub const ROOM_END_X_I32: i32 = 545;
pub const ROOM_END_Y_I32: i32 = 1001;

/// The tile position lies in the room carved around the spawn point.
pub open spec fn in_spawn_room(x: int, y: int) -> bool {
    481 <= x < 545 && 993 <= y < 1001
}

/// The tile position lies on the outermost ring of the world.
pub open spec fn on_world_edge(x: int, y: int) -> bool {
    in_world(x, y) && (x == 0 || y == 0 || x == 1023 || y == 1023)
}

/// The tile position lies in the spawn room or in the walls around it.
pub open spec fn in_spawn_enclosure(x: int, y: int) -> bool {
    480 <= x <= 545 && 992 <= y <= 1001
}

/// The tile position lies in the walls around the spawn room.
pub open spec fn on_spawn_walls(x: int, y: int) -> bool {
    in_spawn_enclosure(x, y) && !in_spawn_room(x, y)
}

/// The decoration of a wall tile around the spawn room: inverse boundary kinds at
/// the corners, the boundary kind of each side along it, and a diggable gap of eight
/// tiles in the middle of the floor.
pub open spec fn spawn_wall_tile(x: int, y: int) -> Tile {
    if x == 480 && y == 992 {
        Tile::StoneBoundaryBottomLeftInverse
    } else if x == 480 && y == 1001 {
        Tile::StoneBoundaryTopLeftInverse
    } else if x == 545 && y == 992 {
        Tile::StoneBoundaryBottomRightInverse
    } else if x == 545 && y == 1001 {
        Tile::StoneBoundaryTopRightInverse
    } else if y == 992 {
        if 509 <= x < 517 { Tile::StoneDig } else { Tile::StoneBoundaryBottom }
    } else if y == 1001 {
        Tile::StoneBoundaryTop
    } else if x == 480 {
        Tile::StoneBoundaryLeft
    } else {
        Tile::StoneBoundaryRight
    }
}

/// The command writes no tile of the spawn room or of its walls.
pub open spec fn avoids_room(c: WorldCommand) -> bool {
    forall|x: int, y: int| in_spawn_enclosure(x, y) ==> !c.writes(x, y)
}

/// Row `yd` is barrier from the second column to the second-to-last, over 32 rows of
/// hard stone.
pub open spec fn deep_barrier_at(w: World, yd: int) -> bool {
    forall|x: int| 1 <= x < 1023 ==> #[trigger] w.cell(x, yd) == Tile::Barrier
        && forall|y: int| yd - 32 <= y < yd ==> #[trigger] w.cell(x, y) == Tile::HardStone
}

/// The command at index `k` is the last of the batch that writes the position.
proof fn lemma_last_writer_at(chunks: Seq<TileChunk>, cmds: Seq<WorldCommand>, k: int, x: int, y: int)
    requires
        0 <= k < cmds.len(),
        cmds[k].writes(x, y),
        forall|i: int| k < i < cmds.len() ==> !(#[trigger] cmds[i]).writes(x, y),
    ensures
        cell_after(chunks, cmds, x, y) == cmds[k].tile_written(),
{
    let rest = cmds.subrange(k + 1, cmds.len() as int);
    assert(cmds =~= cmds.take(k).push(cmds[k]) + rest);
    assert forall|i: int| 0 <= i < rest.len() implies !(#[trigger] rest[i]).writes(x, y) by {
        assert(rest[i] == cmds[k + 1 + i]);
    }
    lemma_cell_after_last_writer(chunks, cmds.take(k), cmds[k], rest, x, y);
}

/// Every tile that the command writes cannot be walked through.
pub open spec fn writes_solid(c: WorldCommand) -> bool {
    c is RecalculateAllMeshes || !c.tile_written().walkable()
}

/// `new` is `old` with commands added at the end, none of which writes the spawn room
/// and each of which writes only tiles that cannot be walked through.
pub open spec fn grows_solid_avoiding_room(new: Seq<WorldCommand>, old: Seq<WorldCommand>) -> bool {
    &&& new.len() >= old.len()
    &&& forall|i: int| 0 <= i < old.len() ==> #[trigger] new[i] == old[i]
    &&& forall|i: int| old.len() <= i < new.len() ==> avoids_room(#[trigger] new[i]) && writes_solid(new[i])
}

proof fn lemma_grows_trans(a: Seq<WorldCommand>, b: Seq<WorldCommand>, c: Seq<WorldCommand>)
    requires
        grows_solid_avoiding_room(a, b),
        grows_solid_avoiding_room(b, c),
    ensures
        grows_solid_avoiding_room(a, c),
{
    assert forall|i: int| c.len() <= i < a.len() implies avoids_room(#[trigger] a[i]) && writes_solid(a[i]) by {
        if i < b.len() {
            assert(a[i] == b[i]);
        }
    }
}

/// Relies on macroquad::rand::gen_range (quad-rand's global generator) on `i32`: it
/// maps a 32-bit draw `u` to `low + (high - low) * u / 2^32`, computed exactly in `f64`
/// for bounds this small, and truncates toward zero; with `0 < high` that lies in
/// `[low, high)`, and it is `low` when the bounds are equal.
#[verifier::external_body]
fn gen_range(low: i32, high: i32) -> (r: i32)
    requires
        -65536 <= low <= high <= 65536,
        0 < high,
    ensures
        low <= r <= high,
        low < high ==> r < high,
{
    macroquad::rand::gen_range(low, high)
}

/// One depth band of ore: from chunk row `chunk_depth` (counted from the top of the
/// world) down, each chunk gets between `min` and `max` cells of `tile`; a negative
/// `min` weighs the draw toward none.
#[derive(Clone, Copy)]
struct OreBand {
    chunk_depth: i32,
    tile: Tile,
    min: i32,
    max: i32,
}

/// The ore bands, by increasing depth.
fn ore_bands() -> (r: Vec<OreBand>)
    ensures
        forall|i: int| 0 <= i < r@.len() ==> 2 <= (#[trigger] r@[i]).chunk_depth < 13 && -7 <= r@[i].min <= r@[i].max <= 20 && 1 <= r@[i].max
            && (r@[i].tile is StoneCopperOre || r@[i].tile is StoneIronOre || r@[i].tile is StoneGoldOre
            || r@[i].tile is StoneEmerald),
{
    let mut r: Vec<OreBand> = Vec::new();
    r.push(OreBand { chunk_depth: 2, tile: Tile::StoneCopperOre, min: 10, max: 16 });
    r.push(OreBand { chunk_depth: 2, tile: Tile::StoneIronOre, min: 2, max: 6 });
    r.push(OreBand { chunk_depth: 3, tile: Tile::StoneCopperOre, min: 6, max: 10 });
    r.push(OreBand { chunk_depth: 3, tile: Tile::StoneIronOre, min: 12, max: 16 });
    r.push(OreBand { chunk_depth: 4, tile: Tile::StoneCopperOre, min: 4, max: 8 });
    r.push(OreBand { chunk_depth: 4, tile: Tile::StoneIronOre, min: 12, max: 20 });
    r.push(OreBand { chunk_depth: 4, tile: Tile::StoneGoldOre, min: 1, max: 2 });
    r.push(OreBand { chunk_depth: 5, tile: Tile::StoneGoldOre, min: 4, max: 8 });
    r.push(OreBand { chunk_depth: 5, tile: Tile::StoneCopperOre, min: 8, max: 12 });
    r.push(OreBand { chunk_depth: 5, tile: Tile::StoneIronOre, min: 14, max: 14 });
    r.push(OreBand { chunk_depth: 6, tile: Tile::StoneGoldOre, min: 6, max: 10 });
    r.push(OreBand { chunk_depth: 7, tile: Tile::StoneGoldOre, min: 8, max: 12 });
    r.push(OreBand { chunk_depth: 8, tile: Tile::StoneCopperOre, min: 5, max: 8 });
    r.push(OreBand { chunk_depth: 8, tile: Tile::StoneIronOre, min: 18, max: 18 });
    r.push(OreBand { chunk_depth: 8, tile: Tile::StoneGoldOre, min: 10, max: 14 });
    r.push(OreBand { chunk_depth: 8, tile: Tile::StoneEmerald, min: -7, max: 1 });
    r.push(OreBand { chunk_depth: 9, tile: Tile::StoneEmerald, min: -4, max: 1 });
    r.push(OreBand { chunk_depth: 10, tile: Tile::StoneEmerald, min: 0, max: 1 });
    r.push(OreBand { chunk_depth: 11, tile: Tile::StoneEmerald, min: 0, max: 2 });
    r.push(OreBand { chunk_depth: 12, tile: Tile::StoneEmerald, min: 1, max: 3 });
    r
}

/// Slot of an ore kind in the table of active bands; slots follow the kinds' order.
fn ore_slot(t: Tile) -> (r: usize)
    requires
        t is StoneCopperOre || t is StoneIronOre || t is StoneGoldOre || t is StoneEmerald,
    ensures
        r < 4,
{
    match t {
        Tile::StoneCopperOre => 0,
        Tile::StoneIronOre => 1,
        Tile::StoneGoldOre => 2,
        _ => 3,
    }
}

/// The ore kind kept in a slot.
fn slot_tile(slot: usize) -> (r: Tile)
    ensures
        !r.walkable(),
{
    if slot == 0 {
        Tile::StoneCopperOre
    } else if slot == 1 {
        Tile::StoneIronOre
    } else if slot == 2 {
        Tile::StoneGoldOre
    } else {
        Tile::StoneEmerald
    }
}

/// Scatters ore through the mined band, chunk row by chunk row from the top down:
/// each band, once its depth is reached, sets (or replaces) the count range of its
/// kind, and every chunk of the row gets a random count of each active kind at
/// random cells.
fn scatter_ores(commands: &mut WorldCommands)
    ensures
        grows_solid_avoiding_room(final(commands).commands@, old(commands).commands@),
{
    let bands = ore_bands();
    let mut active: Vec<Option<(i32, i32)>> = vec![None, None, None, None];
    let mut ores_i: usize = 0;
    let mut chunk_y: i32 = 0;
    while chunk_y < BARRIER_HEIGHT
        invariant
            0 <= chunk_y <= 13,
            active@.len() == 4,
            forall|s: int| 0 <= s < 4 ==> (#[trigger] active@[s] matches Some((lo, hi)) ==> chunk_y >= 2 && -7 <= lo <= hi <= 20 && 1 <= hi),
            forall|i: int| 0 <= i < bands@.len() ==> 2 <= (#[trigger] bands@[i]).chunk_depth < 13 && -7 <= bands@[i].min <= bands@[i].max <= 20 && 1 <= bands@[i].max
                && (bands@[i].tile is StoneCopperOre || bands@[i].tile is StoneIronOre || bands@[i].tile is StoneGoldOre
                || bands@[i].tile is StoneEmerald),
            grows_solid_avoiding_room(commands.commands@, old(commands).commands@),
        decreases 13 - chunk_y,
    {
        while ores_i < bands.len()
            invariant
                0 <= chunk_y < 13,
                active@.len() == 4,
                forall|s: int| 0 <= s < 4 ==> (#[trigger] active@[s] matches Some((lo, hi)) ==> chunk_y >= 2 && -7 <= lo <= hi <= 20 && 1 <= hi),
                forall|i: int| 0 <= i < bands@.len() ==> 2 <= (#[trigger] bands@[i]).chunk_depth < 13 && -7 <= bands@[i].min <= bands@[i].max <= 20 && 1 <= bands@[i].max
                    && (bands@[i].tile is StoneCopperOre || bands@[i].tile is StoneIronOre || bands@[i].tile is StoneGoldOre
                    || bands@[i].tile is StoneEmerald),
            decreases bands@.len() - ores_i,
        {
            let band = bands[ores_i];
            if band.chunk_depth > chunk_y {
                break;
            }
            ores_i += 1;
            let slot = ore_slot(band.tile);
            active.set(slot, Some((band.min, band.max)));
        }
        let mut chunk_x: i32 = 0;
        while chunk_x < WORLD_WIDTH_I32
            invariant
                0 <= chunk_y < 13,
                0 <= chunk_x <= 64,
                active@.len() == 4,
                forall|s: int| 0 <= s < 4 ==> (#[trigger] active@[s] matches Some((lo, hi)) ==> chunk_y >= 2 && -7 <= lo <= hi <= 20 && 1 <= hi),
                grows_solid_avoiding_room(commands.commands@, old(commands).commands@),
            decreases 64 - chunk_x,
        {
            let chunk_pos = ivec2(chunk_x, WORLD_HEIGHT_I32 - chunk_y - 1);
            let mut slot: usize = 0;
            while slot < 4
                invariant
                    0 <= chunk_y < 13,
                    0 <= chunk_x < 64,
                    chunk_pos.x == chunk_x && chunk_pos.y == 63 - chunk_y,
                    active@.len() == 4,
                    forall|s: int| 0 <= s < 4 ==> (#[trigger] active@[s] matches Some((lo, hi)) ==> chunk_y >= 2 && -7 <= lo <= hi <= 20 && 1 <= hi),
                    grows_solid_avoiding_room(commands.commands@, old(commands).commands@),
                decreases 4 - slot,
            {
                if let Some((min, max)) = active[slot] {
                    let drawn = gen_range(min, max + 1);
                    let gen_count: i32 = if drawn > 0 { drawn } else { 0 };
                    let mut local_tile_poses: Vec<IVec2> = Vec::new();
                    let mut k: i32 = 0;
                    while k < gen_count
                        invariant
                            0 <= k <= gen_count,
                            forall|j: int| 0 <= j < local_tile_poses@.len() ==> 0 <= (#[trigger] local_tile_poses@[j]).x < 16
                                && 0 <= local_tile_poses@[j].y < 16,
                        decreases gen_count - k,
                    {
                        let x = gen_range(0, CHUNK_SIDE_I32);
                        let y = gen_range(0, CHUNK_SIDE_I32);
                        local_tile_poses.push(ivec2(x, y));
                        k += 1;
                    }
                    let ghost before = commands.commands@;
                    commands.set_tiles_in_chunk(chunk_pos, local_tile_poses, slot_tile(slot));
                    proof {
                        lemma_grows_trans(commands.commands@, before, old(commands).commands@);
                    }
                }
                slot += 1;
            }
            chunk_x += 1;
        }
        chunk_y += 1;
    }
}

/// One layer of hard-stone veins: centred on chunk row `chunk_depth` (counted from the
/// top of the world), in runs of `stride_min` to `stride_max` columns, about `width`
/// tiles thick.
#[derive(Clone, Copy)]
struct VeinLayer {
    chunk_depth: i32,
    stride_min: i32,
    stride_max: i32,
    width: i32,
}

/// The vein layers.
fn vein_layers() -> (r: Vec<VeinLayer>)
    ensures
        forall|i: int| 0 <= i < r@.len() ==> 5 <= (#[trigger] r@[i]).chunk_depth <= 12 && 12 <= r@[i].stride_min
            <= r@[i].stride_max <= 24 && 3 <= r@[i].width <= 6,
{
    let mut r: Vec<VeinLayer> = Vec::new();
    r.push(VeinLayer { chunk_depth: 5, stride_min: 12, stride_max: 24, width: 3 });
    r.push(VeinLayer { chunk_depth: 6, stride_min: 16, stride_max: 24, width: 4 });
    r.push(VeinLayer { chunk_depth: 7, stride_min: 24, stride_max: 24, width: 4 });
    r.push(VeinLayer { chunk_depth: 10, stride_min: 24, stride_max: 24, width: 6 });
    r.push(VeinLayer { chunk_depth: 12, stride_min: 24, stride_max: 24, width: 6 });
    r
}

/// A guide line across the world for a vein layer: one tile row per tile column,
/// from a random walk that steps down with chance one in five, up with chance one in
/// five, and bounces back off the edges of its chunk row.
fn guide_line(chunk_depth: i32) -> (r: Vec<IVec2>)
    requires
        5 <= chunk_depth <= 12,
    ensures
        r@.len() == 1024,
        forall|j: int| 0 <= j < 1024 ==> (#[trigger] r@[j]).x == j && (64 - chunk_depth) * 16 < r@[j].y
            < (65 - chunk_depth) * 16 - 1,
{
    let mut tile_y: i32 = (WORLD_HEIGHT_I32 - chunk_depth) * CHUNK_SIDE_I32 + 8;
    let begin_y: i32 = (WORLD_HEIGHT_I32 - chunk_depth) * CHUNK_SIDE_I32;
    let end_y: i32 = (WORLD_HEIGHT_I32 - chunk_depth + 1) * CHUNK_SIDE_I32 - 1;
    let mut guide_points: Vec<IVec2> = Vec::new();
    let mut tile_x: i32 = 0;
    while tile_x < WORLD_TILE_WIDTH_I32
        invariant
            0 <= tile_x <= 1024,
            5 <= chunk_depth <= 12,
            begin_y == (64 - chunk_depth) * 16,
            end_y == (65 - chunk_depth) * 16 - 1,
            begin_y < tile_y < end_y,
            guide_points@.len() == tile_x,
            forall|j: int| 0 <= j < tile_x ==> (#[trigger] guide_points@[j]).x == j && begin_y < guide_points@[j].y < end_y,
        decreases 1024 - tile_x,
    {
        let direction_rand = gen_range(0, 5);
        tile_y = guide_step(tile_y, direction_rand, begin_y, end_y);
        guide_points.push(ivec2(tile_x, tile_y));
        tile_x += 1;
    }
    guide_points
}

/// Grows winding hard-stone veins: along each layer's guide line, runs of random
/// length, each shifted by a small random offset and followed by a random gap, are
/// stamped a random thickness around the layer's width.
fn grow_veins(commands: &mut WorldCommands)
    ensures
        grows_solid_avoiding_room(final(commands).commands@, old(commands).commands@),
{
    let layers = vein_layers();
    let mut li: usize = 0;
    while li < layers.len()
        invariant
            0 <= li <= layers@.len(),
            forall|i: int| 0 <= i < layers@.len() ==> 5 <= (#[trigger] layers@[i]).chunk_depth <= 12 && 12
                <= layers@[i].stride_min <= layers@[i].stride_max <= 24 && 3 <= layers@[i].width <= 6,
            grows_solid_avoiding_room(commands.commands@, old(commands).commands@),
        decreases layers@.len() - li,
    {
        let layer = layers[li];
        let guide_points = guide_line(layer.chunk_depth);
        let mut i: i32 = 0;
        while i < WORLD_TILE_WIDTH_I32
            invariant
                0 <= i <= 1053,
                5 <= layer.chunk_depth <= 12,
                12 <= layer.stride_min <= layer.stride_max <= 24,
                3 <= layer.width <= 6,
                guide_points@.len() == 1024,
                forall|j: int| 0 <= j < 1024 ==> (#[trigger] guide_points@[j]).x == j && (64 - layer.chunk_depth) * 16
                    < guide_points@[j].y < (65 - layer.chunk_depth) * 16 - 1,
                grows_solid_avoiding_room(commands.commands@, old(commands).commands@),
            decreases 1053 - i,
        {
            let stride = gen_range(layer.stride_min, layer.stride_max);
            let space = gen_range(1, 6);
            let random_x = gen_range(-8, 9);
            let random_y = gen_range(-4, 5);
            let stride_end: i32 = if i + stride < WORLD_TILE_WIDTH_I32 { i + stride } else { WORLD_TILE_WIDTH_I32 };
            let mut stride_i: i32 = i;
            while stride_i < stride_end
                invariant
                    0 <= i <= stride_i <= stride_end <= 1024,
                    5 <= layer.chunk_depth <= 12,
                    3 <= layer.width <= 6,
                    -8 <= random_x <= 8,
                    -4 <= random_y <= 4,
                    guide_points@.len() == 1024,
                    forall|j: int| 0 <= j < 1024 ==> (#[trigger] guide_points@[j]).x == j && (64 - layer.chunk_depth) * 16
                        < guide_points@[j].y < (65 - layer.chunk_depth) * 16 - 1,
                    grows_solid_avoiding_room(commands.commands@, old(commands).commands@),
                decreases stride_end - stride_i,
            {
                let guide_point = guide_points[stride_i as usize];
                let width = gen_range(layer.width - 1, layer.width + 1);
                let mut width_i: i32 = 0;
                while width_i < width
                    invariant
                        0 <= width_i <= width <= 7,
                        -8 <= random_x <= 8,
                        -4 <= random_y <= 4,
                        0 <= guide_point.x < 1024,
                        0 < guide_point.y < 960,
                        grows_solid_avoiding_room(commands.commands@, old(commands).commands@),
                    decreases width - width_i,
                {
                    let ghost before = commands.commands@;
                    commands.set_tile(
                        ivec2(random_x + guide_point.x, random_y + guide_point.y + width_i),
                        Tile::HardStone,
                    );
                    proof {
                        lemma_grows_trans(commands.commands@, before, old(commands).commands@);
                    }
                    width_i += 1;
                }
                stride_i += 1;
            }
            i += stride + space;
        }
        li += 1;
    }
}

/// One step of a guide line's walk: a roll of 0 (out of 5) steps down, a roll of 4 or
/// more steps up, any other holds; a step that would reach the first or last row of
/// the band from `begin_y` to `end_y` goes the other way instead.
pub open spec fn spec_guide_step(tile_y: int, direction_roll: int, begin_y: int, end_y: int) -> int {
    let direction = if direction_roll < 1 { -1int } else if direction_roll >= 4 { 1int } else { 0int };
    let stepped = tile_y + direction;
    if stepped <= begin_y || stepped >= end_y { stepped - 2 * direction } else { stepped }
}

/// One step of a guide line's walk from row `tile_y`, given the roll that picks its
/// direction.
pub fn guide_step(tile_y: i32, direction_roll: i32, begin_y: i32, end_y: i32) -> (r: i32)
    requires
        begin_y < tile_y < end_y,
        end_y - begin_y >= 4,
        -1_000_000 <= begin_y,
        end_y <= 1_000_000,
    ensures
        r == spec_guide_step(tile_y as int, direction_roll as int, begin_y as int, end_y as int),
        begin_y < r < end_y,
{
    let direction: i32 = if direction_roll < 1 {
        -1
    } else if direction_roll >= 4 {
        1
    } else {
        0
    };
    let mut y = tile_y + direction;
    if y <= begin_y || y >= end_y {
        y += -direction * 2;
    }
    y
}

/// Width of strip `i` of a platform `height` strips high whose narrowest strip is
/// `smallest` wide: the strips widen by two up to the middle and narrow by two after.
pub open spec fn platform_width(height: int, smallest: int, i: int) -> int {
    let mid = height / 2;
    if i < mid { smallest + 2 * i } else { smallest + 2 * mid - 2 * (i - mid) }
}

/// Horizontal shift of strip `i` of a platform `height` strips high, which keeps the
/// strips centred.
pub open spec fn platform_x_offset(height: int, i: int) -> int {
    let mid = height / 2;
    if i < mid { -i } else { -mid + (i - mid) }
}

/// Widths and horizontal shifts of the strips of one stepping-stone platform.
pub fn platform_profile(height: i32, smallest_width: i32) -> (r: (Vec<i32>, Vec<i32>))
    requires
        0 <= height <= 64,
        -1000 <= smallest_width <= 1000,
    ensures
        r.0@.len() == height,
        r.1@.len() == height,
        forall|i: int| 0 <= i < height ==> #[trigger] r.0@[i] == platform_width(height as int, smallest_width as int, i),
        forall|i: int| 0 <= i < height ==> #[trigger] r.1@[i] == platform_x_offset(height as int, i),
{
    let mut x_offsets: Vec<i32> = Vec::new();
    let mut widths: Vec<i32> = Vec::new();
    let mut next_width: i32 = smallest_width;
    let mut next_x_offset: i32 = 0;
    let to_mid: i32 = height / 2;
    let to_end: i32 = height - to_mid;
    let mut k: i32 = 0;
    while k < to_mid
        invariant
            0 <= k <= to_mid,
            to_mid == height / 2,
            0 <= height <= 64,
            -1000 <= smallest_width <= 1000,
            widths@.len() == k,
            x_offsets@.len() == k,
            next_width == smallest_width + 2 * k,
            next_x_offset == -k,
            forall|j: int| 0 <= j < k ==> #[trigger] widths@[j] == platform_width(height as int, smallest_width as int, j),
            forall|j: int| 0 <= j < k ==> #[trigger] x_offsets@[j] == platform_x_offset(height as int, j),
        decreases to_mid - k,
    {
        widths.push(next_width);
        x_offsets.push(next_x_offset);
        next_width += 2;
        next_x_offset -= 1;
        k += 1;
    }
    let mut k: i32 = 0;
    while k < to_end
        invariant
            0 <= k <= to_end,
            to_mid == height / 2,
            to_end == height - to_mid,
            0 <= height <= 64,
            -1000 <= smallest_width <= 1000,
            widths@.len() == to_mid + k,
            x_offsets@.len() == to_mid + k,
            next_width == smallest_width + 2 * to_mid - 2 * k,
            next_x_offset == -to_mid + k,
            forall|j: int| 0 <= j < to_mid + k ==> #[trigger] widths@[j] == platform_width(height as int, smallest_width as int, j),
            forall|j: int| 0 <= j < to_mid + k ==> #[trigger] x_offsets@[j] == platform_x_offset(height as int, j),
        decreases to_end - k,
    {
        widths.push(next_width);
        x_offsets.push(next_x_offset);
        next_width -= 2;
        next_x_offset += 1;
        k += 1;
    }
    (widths, x_offsets)
}

/// Places clusters of short stone platforms just above the mined band's floor, at
/// irregular intervals: each cluster is a stack of one-tile-high strips that widen
/// toward the middle.
fn place_stepping_stones(commands: &mut WorldCommands)
    ensures
        grows_solid_avoiding_room(final(commands).commands@, old(commands).commands@),
{
    let mut stepping_stone_i: i32 = 0;
    while stepping_stone_i < WORLD_TILE_WIDTH_I32
        invariant
            0 <= stepping_stone_i <= 1024,
            grows_solid_avoiding_room(commands.commands@, old(commands).commands@),
        decreases 1024 - stepping_stone_i,
    {
        let x = gen_range(4, 10);
        stepping_stone_i = if stepping_stone_i + x < WORLD_TILE_WIDTH_I32 { stepping_stone_i + x } else { WORLD_TILE_WIDTH_I32 };
        let height = gen_range(2, 5);
        let smallest_width = gen_range(2, 4);
        let (widths, x_offsets) = platform_profile(height, smallest_width);
        proof {
            assert forall|j: int| 0 <= j < height implies -4 <= #[trigger] x_offsets@[j] <= 4 && -16 <= widths@[j] <= 16 by {
                assert(x_offsets@[j] == platform_x_offset(height as int, j));
            }
        }
        let barrier_point: i32 = BARRIER_Y_I32 - 16;
        let local_y_offset = gen_range(-4, 4);
        let mut i: i32 = 0;
        while i < height
            invariant
                0 <= i <= height <= 4,
                widths@.len() == height,
                x_offsets@.len() == height,
                forall|j: int| 0 <= j < height ==> -4 <= #[trigger] x_offsets@[j] <= 4 && -16 <= widths@[j] <= 16,
                -4 <= local_y_offset <= 3,
                0 <= stepping_stone_i <= 1024,
                barrier_point == 800,
                grows_solid_avoiding_room(commands.commands@, old(commands).commands@),
            decreases height - i,
        {
            let local_x_offset = gen_range(-2, 2);
            let width = widths[i as usize];
            let x = local_x_offset + x_offsets[i as usize] + stepping_stone_i;
            let y = local_y_offset + barrier_point + i;
            let ghost before = commands.commands@;
            commands.set_tile_area(ivec2(x, y), ivec2(width, 1), Tile::Stone);
            proof {
                lemma_grows_trans(commands.commands@, before, old(commands).commands@);
            }
            i += 1;
        }
    }
}

/// Places small rounded boulders in columns at irregular intervals below the mined
/// band, each column descending by random steps; returns the deepest (lowest) row
/// that any column reached.
fn scatter_boulders(commands: &mut WorldCommands) -> (r: i32)
    ensures
        grows_solid_avoiding_room(final(commands).commands@, old(commands).commands@),
        64 <= r <= 544,
{
    let mut scatter_i: i32 = 0;
    let mut smallest_scatter_y: i32 = WORLD_HEIGHT_I32 * CHUNK_SIDE_I32;
    while scatter_i < WORLD_TILE_WIDTH_I32
        invariant
            0 <= scatter_i <= 1031,
            scatter_i > 0 ==> 64 <= smallest_scatter_y <= 544,
            scatter_i == 0 ==> smallest_scatter_y == 1024,
            grows_solid_avoiding_room(commands.commands@, old(commands).commands@),
        decreases 1031 - scatter_i,
    {
        scatter_i += gen_range(2, 8);
        let mut y: i32 = BARRIER_Y_I32 - 16;
        let mut n: i32 = 0;
        while n < 32
            invariant
                0 <= n <= 32,
                800 - 23 * n <= y <= 800 - 8 * n,
                2 <= scatter_i <= 1031,
                grows_solid_avoiding_room(commands.commands@, old(commands).commands@),
            decreases 32 - n,
        {
            y -= gen_range(8, 24);
            let offset_x = gen_range(-4, 4);
            let offset_y = gen_range(-4, 4);
            let center_top = ivec2(offset_x + scatter_i, offset_y + y);
            let half_width = gen_range(1, 4);
            let drawn_height = gen_range(2, 5);
            let height: i32 = if drawn_height < half_width { drawn_height } else { half_width };
            let mut start = ivec2(center_top.x + half_width, center_top.y);
            let mut size = ivec2(half_width * 2, height);
            let mut h: i32 = 0;
            while h < height
                invariant
                    0 <= h <= height <= 3,
                    1 <= half_width <= 3,
                    -4 <= offset_x <= 3,
                    -4 <= offset_y <= 3,
                    64 <= y <= 792,
                    2 <= scatter_i <= 1031,
                    start.y == offset_y + y - h,
                    start.x == offset_x + scatter_i + half_width - h,
                    size.x == half_width * 2 - h,
                    size.y == height,
                    grows_solid_avoiding_room(commands.commands@, old(commands).commands@),
                decreases height - h,
            {
                let ghost before = commands.commands@;
                commands.set_tile_area(start, size, Tile::Stone);
                proof {
                    lemma_grows_trans(commands.commands@, before, old(commands).commands@);
                }
                start.y = start.y - 1;
                start.x = start.x - 1;
                size.x = size.x - 1;
                h += 1;
            }
            n += 1;
        }
        assert(64 <= y <= 544);
        smallest_scatter_y = if smallest_scatter_y < y { smallest_scatter_y } else { y };
    }
    smallest_scatter_y
}

/// The gem that a plain stone cell turns into on a roll of `chance` out of 300, if any.
pub open spec fn spec_gem_for_roll(chance: int) -> Option<Tile> {
    if chance <= 1 {
        Some(Tile::StoneSapphire)
    } else if chance <= 4 {
        Some(Tile::StoneRuby)
    } else if chance <= 10 {
        Some(Tile::StoneEmerald)
    } else if chance <= 40 {
        Some(Tile::StoneGoldOre)
    } else {
        None
    }
}

/// The gem that a plain stone cell turns into on a roll of `chance` out of 300: the
/// rarest kinds are tried first and the first whose threshold the roll is under wins.
/// Sapphire takes 2 of the 300 rolls, ruby 3, emerald 6 and gold 30.
pub fn gem_for_roll(chance: i32) -> (r: Option<Tile>)
    ensures
        r == spec_gem_for_roll(chance as int),
{
    if chance <= 1 {
        Some(Tile::StoneSapphire)
    } else if chance <= 4 {
        Some(Tile::StoneRuby)
    } else if chance <= 10 {
        Some(Tile::StoneEmerald)
    } else if chance <= 40 {
        Some(Tile::StoneGoldOre)
    } else {
        None
    }
}

/// The command upgrades one cell of `chunks` that holds plain stone, in the rows from
/// `from_y` up to the mined band, to a gem.
pub open spec fn is_gem_upgrade(c: WorldCommand, chunks: Seq<TileChunk>, from_y: int) -> bool {
    match c {
        WorldCommand::SetTile { x, y, tile } => 0 <= x < 1024 && from_y <= y < 816
            && cell_of(chunks, x as int, y as int) == Tile::Stone
            && (tile is StoneSapphire || tile is StoneRuby || tile is StoneEmerald || tile is StoneGoldOre),
        _ => false,
    }
}

/// The single-tile command `c` writes a cell before (`x`, `y`) in row order.
pub open spec fn set_before(c: WorldCommand, x: int, y: int) -> bool {
    match c {
        WorldCommand::SetTile { x: cx, y: cy, .. } => cy < y || (cy == y && cx < x),
        _ => false,
    }
}

/// The cell that the single-tile command `b` writes comes after the one `a` writes, in
/// row order.
pub open spec fn set_in_order(a: WorldCommand, b: WorldCommand) -> bool {
    match b {
        WorldCommand::SetTile { x, y, .. } => set_before(a, x as int, y as int),
        _ => false,
    }
}

/// Some command of `cmds`, from index `start` on, writes the position.
pub open spec fn written_from(cmds: Seq<WorldCommand>, start: int, x: int, y: int) -> bool {
    exists|i: int| start <= i < cmds.len() && (#[trigger] cmds[i]).writes(x, y)
}

/// Position of the roll of cell (`x`, `y`) among the rolls of a resampling that starts
/// at row `from_y`: one roll per cell, row by row.
pub open spec fn roll_index(from_y: int, x: int, y: int) -> int {
    (y - from_y) * 1024 + x
}

/// The cell holds plain stone and its roll gives a gem.
pub open spec fn gem_due(chunks: Seq<TileChunk>, rolls: Seq<i32>, from_y: int, x: int, y: int) -> bool {
    cell_of(chunks, x, y) == Tile::Stone && spec_gem_for_roll(rolls[roll_index(from_y, x, y)] as int) is Some
}

/// The roll of a single-tile command's cell gives the gem that it writes.
pub open spec fn writes_rolled_gem(c: WorldCommand, rolls: Seq<i32>, from_y: int) -> bool {
    match c {
        WorldCommand::SetTile { x, y, tile } => spec_gem_for_roll(rolls[roll_index(from_y, x as int, y as int)] as int)
            == Some(tile),
        _ => false,
    }
}

/// Queues the resampling of every cell of `tiles` from row `from_y` up to the mined
/// band, given one roll out of 300 per cell, row by row: a cell that holds plain stone
/// and whose roll gives a gem gets exactly one command, which writes that gem; no other
/// cell gets one. The commands come in row order.
pub fn resample_gems_with_rolls(tiles: &WorldTiles, from_y: i32, rolls: &Vec<i32>, commands: &mut WorldCommands)
    requires
        tiles.wf(),
        64 <= from_y <= 816,
        rolls@.len() == (816 - from_y) * 1024,
    ensures
        grows_solid_avoiding_room(final(commands).commands@, old(commands).commands@),
        forall|i: int| old(commands).commands@.len() <= i < final(commands).commands@.len()
            ==> is_gem_upgrade(#[trigger] final(commands).commands@[i], tiles.chunks@, from_y as int)
            && writes_rolled_gem(final(commands).commands@[i], rolls@, from_y as int),
        forall|i: int, j: int| old(commands).commands@.len() <= i < j < final(commands).commands@.len()
            ==> set_in_order(#[trigger] final(commands).commands@[i], #[trigger] final(commands).commands@[j]),
        forall|x: int, y: int| 0 <= x < 1024 && from_y <= y < 816 ==> (#[trigger] written_from(
            final(commands).commands@,
            old(commands).commands@.len() as int,
            x,
            y,
        ) <==> gem_due(tiles.chunks@, rolls@, from_y as int, x, y)),
{
    let ghost start = commands.commands@.len() as int;
    let mut y: i32 = from_y;
    while y < BARRIER_Y_I32
        invariant
            64 <= from_y <= y <= 816,
            tiles.wf(),
            rolls@.len() == (816 - from_y) * 1024,
            start == old(commands).commands@.len(),
            grows_solid_avoiding_room(commands.commands@, old(commands).commands@),
            forall|i: int| start <= i < commands.commands@.len()
                ==> is_gem_upgrade(#[trigger] commands.commands@[i], tiles.chunks@, from_y as int)
                && writes_rolled_gem(commands.commands@[i], rolls@, from_y as int),
            forall|i: int| start <= i < commands.commands@.len() ==> set_before(#[trigger] commands.commands@[i], 0, y as int),
            forall|i: int, j: int| start <= i < j < commands.commands@.len()
                ==> set_in_order(#[trigger] commands.commands@[i], #[trigger] commands.commands@[j]),
            forall|a: int, b: int| 0 <= a < 1024 && from_y <= b < y ==> (#[trigger] written_from(
                commands.commands@,
                start,
                a,
                b,
            ) <==> gem_due(tiles.chunks@, rolls@, from_y as int, a, b)),
        decreases 816 - y,
    {
        let mut x: i32 = 0;
        while x < WORLD_TILE_WIDTH_I32
            invariant
                0 <= x <= 1024,
                64 <= from_y <= y < 816,
                tiles.wf(),
                rolls@.len() == (816 - from_y) * 1024,
                start == old(commands).commands@.len(),
                grows_solid_avoiding_room(commands.commands@, old(commands).commands@),
                forall|i: int| start <= i < commands.commands@.len()
                    ==> is_gem_upgrade(#[trigger] commands.commands@[i], tiles.chunks@, from_y as int)
                    && writes_rolled_gem(commands.commands@[i], rolls@, from_y as int),
                forall|i: int| start <= i < commands.commands@.len() ==> set_before(#[trigger] commands.commands@[i], x as int, y as int),
                forall|i: int, j: int| start <= i < j < commands.commands@.len()
                    ==> set_in_order(#[trigger] commands.commands@[i], #[trigger] commands.commands@[j]),
                forall|a: int, b: int| 0 <= a < 1024 && from_y <= b < 816 && (b < y || (b == y && a < x)) ==> (
                #[trigger] written_from(commands.commands@, start, a, b) <==> gem_due(
                    tiles.chunks@,
                    rolls@,
                    from_y as int,
                    a,
                    b,
                )),
            decreases 1024 - x,
        {
            let ghost before = commands.commands@;
            proof {
                assert((y - from_y) * 1024 + x < (816 - from_y) * 1024) by (nonlinear_arith)
                    requires
                        from_y <= y < 816,
                        0 <= x < 1024;
                assert forall|i: int| start <= i < before.len() implies !(#[trigger] before[i]).writes(x as int, y as int) by {
                    assert(set_before(before[i], x as int, y as int));
                    assert(is_gem_upgrade(before[i], tiles.chunks@, from_y as int));
                }
            }
            let idx: usize = ((y - from_y) * 1024 + x) as usize;
            if tiles.at_tile_pos(ivec2(x, y)).kind == Tile::Stone {
                if let Some(gem) = gem_for_roll(rolls[idx]) {
                    commands.set_tile(ivec2(x, y), gem);
                    proof {
                        lemma_grows_trans(commands.commands@, before, old(commands).commands@);
                        let n = commands.commands@.len() - 1;
                        assert(commands.commands@[n].writes(x as int, y as int));
                        assert forall|i: int, j: int| start <= i < j < commands.commands@.len()
                            implies set_in_order(#[trigger] commands.commands@[i], #[trigger] commands.commands@[j]) by {
                            if j == n {
                                assert(set_before(before[i], x as int, y as int));
                            } else {
                                assert(set_in_order(before[i], before[j]));
                            }
                        }
                        assert forall|i: int| start <= i < commands.commands@.len()
                            implies is_gem_upgrade(#[trigger] commands.commands@[i], tiles.chunks@, from_y as int)
                            && writes_rolled_gem(commands.commands@[i], rolls@, from_y as int) by {
                            if i < n {
                                assert(is_gem_upgrade(before[i], tiles.chunks@, from_y as int));
                                assert(writes_rolled_gem(before[i], rolls@, from_y as int));
                            }
                        }
                        assert forall|i: int| start <= i < commands.commands@.len()
                            implies set_before(#[trigger] commands.commands@[i], x + 1, y as int) by {
                            if i < n {
                                assert(set_before(before[i], x as int, y as int));
                            }
                        }
                    }
                }
            }
            proof {
                let now = commands.commands@;
                assert forall|a: int, b: int| 0 <= a < 1024 && from_y <= b < 816 && (b < y || (b == y && a < x + 1))
                    implies (#[trigger] written_from(now, start, a, b) <==> gem_due(tiles.chunks@, rolls@, from_y as int, a, b)) by {
                    if written_from(now, start, a, b) {
                        let i = choose|i: int| start <= i < now.len() && (#[trigger] now[i]).writes(a, b);
                        if i < before.len() {
                            assert(before[i] == now[i]);
                            assert(written_from(before, start, a, b));
                        }
                    }
                    if a == x && b == y {
                        if gem_due(tiles.chunks@, rolls@, from_y as int, a, b) {
                            assert(now[now.len() - 1].writes(a, b));
                        }
                    } else if written_from(before, start, a, b) {
                        let i = choose|i: int| start <= i < before.len() && (#[trigger] before[i]).writes(a, b);
                        assert(now[i] == before[i]);
                    }
                }
            }
            x += 1;
        }
        y += 1;
    }
}

/// Queues the resampling of every plain stone cell of `tiles` from row `from_y` up to
/// the mined band: one uniform roll out of 300 is drawn per cell, row by row, and
/// handed to `resample_gems_with_rolls`. Every queued command upgrades a plain stone
/// cell, and the commands write their cells in row order, so no cell is upgraded twice.
pub fn resample_gems(tiles: &WorldTiles, from_y: i32, commands: &mut WorldCommands)
    requires
        tiles.wf(),
        64 <= from_y <= 816,
    ensures
        grows_solid_avoiding_room(final(commands).commands@, old(commands).commands@),
        forall|i: int| old(commands).commands@.len() <= i < final(commands).commands@.len()
            ==> is_gem_upgrade(#[trigger] final(commands).commands@[i], tiles.chunks@, from_y as int),
        forall|i: int, j: int| old(commands).commands@.len() <= i < j < final(commands).commands@.len()
            ==> set_in_order(#[trigger] final(commands).commands@[i], #[trigger] final(commands).commands@[j]),
{
    let mut rolls: Vec<i32> = Vec::new();
    let count: usize = ((BARRIER_Y_I32 - from_y) * WORLD_TILE_WIDTH_I32) as usize;
    while rolls.len() < count
        invariant
            rolls@.len() <= count,
            count == (816 - from_y) * 1024,
        decreases count - rolls@.len(),
    {
        rolls.push(gen_range(0, 300));
    }
    resample_gems_with_rolls(tiles, from_y, &rolls, commands);
}

/// The commands that fill the mined band and carve and decorate the spawn room, in
/// the order they are queued.
spec fn spawn_decorations() -> Seq<WorldCommand> {
    seq![
        WorldCommand::SetTileArea { x: 0, y: 816, width: 1024, height: 208, tile: Tile::Stone },
        WorldCommand::SetTileArea { x: 481, y: 993, width: 64, height: 8, tile: Tile::BackgroundStone },
        WorldCommand::SetTile { x: 480, y: 992, tile: Tile::StoneBoundaryBottomLeftInverse },
        WorldCommand::SetTile { x: 480, y: 1001, tile: Tile::StoneBoundaryTopLeftInverse },
        WorldCommand::SetTile { x: 545, y: 992, tile: Tile::StoneBoundaryBottomRightInverse },
        WorldCommand::SetTile { x: 545, y: 1001, tile: Tile::StoneBoundaryTopRightInverse },
        WorldCommand::SetTileArea { x: 481, y: 992, width: 64, height: 1, tile: Tile::StoneBoundaryBottom },
        WorldCommand::SetTileArea { x: 480, y: 993, width: 1, height: 8, tile: Tile::StoneBoundaryLeft },
        WorldCommand::SetTileArea { x: 481, y: 1001, width: 64, height: 1, tile: Tile::StoneBoundaryTop },
        WorldCommand::SetTileArea { x: 545, y: 993, width: 1, height: 8, tile: Tile::StoneBoundaryRight },
        WorldCommand::SetTileArea { x: 509, y: 992, width: 8, height: 1, tile: Tile::StoneDig },
    ]
}

/// What a batch that starts with the spawn decorations, followed by commands that
/// keep out of the spawn room and its walls and write only solid tiles, leaves in the
/// spawn room, in its walls and in the mined band.
proof fn lemma_first_batch(chunks: Seq<TileChunk>, cmds: Seq<WorldCommand>, x: int, y: int)
    requires
        cmds.len() >= 11,
        forall|i: int| 0 <= i < 11 ==> #[trigger] cmds[i] == spawn_decorations()[i],
        forall|i: int| 11 <= i < cmds.len() ==> avoids_room(#[trigger] cmds[i]) && writes_solid(cmds[i]),
    ensures
        in_spawn_room(x, y) ==> cell_after(chunks, cmds, x, y) == Tile::BackgroundStone,
        on_spawn_walls(x, y) ==> cell_after(chunks, cmds, x, y) == spawn_wall_tile(x, y),
        in_world(x, y) && 816 <= y && !in_spawn_room(x, y) ==> !cell_after(chunks, cmds, x, y).walkable(),
{
    let d = spawn_decorations();
    assert(cmds[0] == d[0] && cmds[1] == d[1] && cmds[2] == d[2] && cmds[3] == d[3] && cmds[4] == d[4]);
    assert(cmds[5] == d[5] && cmds[6] == d[6] && cmds[7] == d[7] && cmds[8] == d[8] && cmds[9] == d[9]);
    assert(cmds[10] == d[10]);
    if in_spawn_room(x, y) {
        assert forall|i: int| 1 < i < cmds.len() implies !(#[trigger] cmds[i]).writes(x, y) by {
            if i >= 11 {
                assert(avoids_room(cmds[i]));
                assert(in_spawn_enclosure(x, y));
            }
        }
        lemma_last_writer_at(chunks, cmds, 1, x, y);
    }
    if on_spawn_walls(x, y) {
        let k: int = if x == 480 && y == 992 {
            2
        } else if x == 480 && y == 1001 {
            3
        } else if x == 545 && y == 992 {
            4
        } else if x == 545 && y == 1001 {
            5
        } else if y == 992 {
            if 509 <= x < 517 { 10 } else { 6 }
        } else if y == 1001 {
            8
        } else if x == 480 {
            7
        } else {
            9
        };
        assert forall|i: int| k < i < cmds.len() implies !(#[trigger] cmds[i]).writes(x, y) by {
            if i >= 11 {
                assert(avoids_room(cmds[i]));
            }
        }
        lemma_last_writer_at(chunks, cmds, k, x, y);
    }
    if in_world(x, y) && 816 <= y && !in_spawn_room(x, y) {
        assert(cmds[0].writes(x, y));
        assert forall|i: int| 0 <= i < cmds.len() && (#[trigger] cmds[i]).writes(x, y)
            implies !cmds[i].tile_written().walkable() by {
            if i >= 11 {
                assert(writes_solid(cmds[i]));
            }
        }
        lemma_cell_after_solid(chunks, cmds, x, y);
    }
}

impl World {
    /// Generates a world: fills the mined band with stone, carves the spawn room with
    /// its decorated walls and a diggable gap in its floor, scatters ore by depth,
    /// grows hard-stone veins, places stepping stones and boulders, resamples gems,
    /// lays the barriers, and seals the outermost ring of the world. The band fill and
    /// the ring cover the world up to its last row and column.
    pub fn new() -> (r: World)
        ensures
            r.wf(),
            forall|x: int, y: int| in_spawn_room(x, y) ==> #[trigger] r.cell(x, y) == Tile::BackgroundStone
                && r.cell(x, y).air() && r.cell(x, y).walkable(),
            forall|x: int, y: int| on_spawn_walls(x, y) ==> #[trigger] r.cell(x, y) == spawn_wall_tile(x, y),
            forall|x: int, y: int| on_world_edge(x, y) ==> #[trigger] r.cell(x, y) == Tile::WorldBoundary
                && !r.cell(x, y).walkable(),
            forall|x: int| 1 <= x < 1023 ==> #[trigger] r.cell(x, 815) == Tile::Barrier && !r.cell(x, 815).walkable(),
            exists|yd: int| 96 <= yd <= 576 && #[trigger] deep_barrier_at(r, yd),
            forall|x: int, y: int| in_world(x, y) && 816 <= y && !in_spawn_room(x, y) ==> !(#[trigger] r.cell(x, y)).walkable(),
            r.recalculate_all_meshes,
            forall|k: int, j: int| 0 <= k < CHUNK_SIZE && 0 <= j < 4 ==> #[trigger] r.vertex_positions@[4 * k + j]
                == quad_corner((k % 16) * 16, (k / 16) * 16, j),
    {
        let mut world = World::blank();
        let ghost blank_chunks = world.chunks@;
        let room_x = ROOM_START_X_I32;
        let room_y = ROOM_START_Y_I32;
        let room_w = ROOM_END_X_I32 - ROOM_START_X_I32;
        let room_h = ROOM_END_Y_I32 - ROOM_START_Y_I32;

        let mut commands = world.commands();
        commands.set_tile_area(ivec2(0, BARRIER_Y_I32), ivec2(WORLD_TILE_WIDTH_I32, BARRIER_HEIGHT * CHUNK_SIDE_I32), Tile::Stone);
        commands.set_tile_area(ivec2(room_x, room_y), ivec2(room_w, room_h), Tile::BackgroundStone);
        commands.set_tile(ivec2(room_x - 1, room_y - 1), Tile::StoneBoundaryBottomLeftInverse);
        commands.set_tile(ivec2(room_x - 1, room_y + room_h), Tile::StoneBoundaryTopLeftInverse);
        commands.set_tile(ivec2(room_x + room_w, room_y - 1), Tile::StoneBoundaryBottomRightInverse);
        commands.set_tile(ivec2(room_x + room_w, room_y + room_h), Tile::StoneBoundaryTopRightInverse);
        commands.set_tile_area(ivec2(room_x, room_y - 1), ivec2(room_w, 1), Tile::StoneBoundaryBottom);
        commands.set_tile_area(ivec2(room_x - 1, room_y), ivec2(1, room_h), Tile::StoneBoundaryLeft);
        commands.set_tile_area(ivec2(room_x, room_y + room_h), ivec2(room_w, 1), Tile::StoneBoundaryTop);
        commands.set_tile_area(ivec2(room_x + room_w, room_y), ivec2(1, room_h), Tile::StoneBoundaryRight);
        commands.set_tile_area(ivec2(room_x + room_w / 2 - 4, room_y - 1), ivec2(8, 1), Tile::StoneDig);
        let ghost decorated = commands.commands@;
        proof {
            assert(decorated =~= spawn_decorations());
        }
        scatter_ores(&mut commands);
        let ghost ored = commands.commands@;
        grow_veins(&mut commands);
        proof { lemma_grows_trans(commands.commands@, ored, decorated); }
        let ghost veined = commands.commands@;
        place_stepping_stones(&mut commands);
        proof { lemma_grows_trans(commands.commands@, veined, decorated); }
        let ghost stepped = commands.commands@;
        let smallest_scatter_y = scatter_boulders(&mut commands);
        proof { lemma_grows_trans(commands.commands@, stepped, decorated); }
        let ghost first = commands.commands@;
        world.apply_commands(commands);
        proof {
            assert forall|i: int| 0 <= i < 11 implies #[trigger] first[i] == spawn_decorations()[i] by {
                assert(first[i] == decorated[i]);
            }
            assert forall|x: int, y: int| in_world(x, y) implies {
                &&& in_spawn_room(x, y) ==> #[trigger] world.cell(x, y) == Tile::BackgroundStone
                &&& on_spawn_walls(x, y) ==> world.cell(x, y) == spawn_wall_tile(x, y)
                &&& 816 <= y && !in_spawn_room(x, y) ==> !world.cell(x, y).walkable()
            } by {
                lemma_first_batch(blank_chunks, first, x, y);
            }
        }
        let ghost generated = world.chunks@;
        proof {
            assert forall|x: int, y: int| in_spawn_enclosure(x, y) implies #[trigger] cell_of(generated, x, y)
                == if in_spawn_room(x, y) { Tile::BackgroundStone } else { spawn_wall_tile(x, y) } by {
                if in_spawn_room(x, y) {
                    assert(world.cell(x, y) == Tile::BackgroundStone);
                } else {
                    assert(world.cell(x, y) == spawn_wall_tile(x, y));
                }
            }
            assert forall|x: int, y: int| in_world(x, y) && 816 <= y && !in_spawn_room(x, y)
                implies !(#[trigger] cell_of(generated, x, y)).walkable() by {
                assert(!world.cell(x, y).walkable());
            }
        }

        let mut commands = world.commands();
        let tiles = world.tiles();
        resample_gems(&tiles, smallest_scatter_y, &mut commands);
        let ghost before_barrier = commands.commands@;
        let yd = smallest_scatter_y + 32;
        commands.set_tile_area(ivec2(0, BARRIER_Y_I32 - 1), ivec2(WORLD_TILE_WIDTH_I32, 1), Tile::Barrier);
        commands.set_tile_area(ivec2(0, smallest_scatter_y), ivec2(WORLD_TILE_WIDTH_I32, 32), Tile::HardStone);
        commands.set_tile_area(ivec2(0, yd), ivec2(WORLD_TILE_WIDTH_I32, 1), Tile::Barrier);
        commands.set_tile_area(ivec2(0, 0), ivec2(WORLD_TILE_WIDTH_I32, 1), Tile::WorldBoundary);
        commands.set_tile_area(ivec2(0, WORLD_TILE_HEIGHT_I32 - 1), ivec2(WORLD_TILE_WIDTH_I32, 1), Tile::WorldBoundary);
        commands.set_tile_area(ivec2(0, 0), ivec2(1, WORLD_TILE_HEIGHT_I32), Tile::WorldBoundary);
        commands.set_tile_area(ivec2(WORLD_TILE_WIDTH_I32 - 1, 0), ivec2(1, WORLD_TILE_HEIGHT_I32), Tile::WorldBoundary);
        commands.recalculate_all_meshes();
        proof {
            assert(grows_solid_avoiding_room(commands.commands@, seq![]));
        }
        let ghost second = commands.commands@;
        world.apply_commands(commands);
        proof {
            let b = before_barrier.len() as int;
            let area = |x: i32, y: i32, w: i32, h: i32, t: Tile| WorldCommand::SetTileArea { x, y, width: w, height: h, tile: t };
            let tail = seq![
                area(0, 815, 1024, 1, Tile::Barrier),
                area(0, smallest_scatter_y, 1024, 32, Tile::HardStone),
                area(0, yd, 1024, 1, Tile::Barrier),
                area(0, 0, 1024, 1, Tile::WorldBoundary),
                area(0, 1023, 1024, 1, Tile::WorldBoundary),
                area(0, 0, 1, 1024, Tile::WorldBoundary),
                area(1023, 0, 1, 1024, Tile::WorldBoundary),
                WorldCommand::RecalculateAllMeshes,
            ];
            assert(second =~= before_barrier + tail);
            assert forall|i: int| 0 <= i < tail.len() implies #[trigger] second[b + i] == tail[i] by {}
            assert forall|x: int, y: int| in_spawn_enclosure(x, y) implies #[trigger] world.cell(x, y)
                == if in_spawn_room(x, y) { Tile::BackgroundStone } else { spawn_wall_tile(x, y) } by {
                let empty: Seq<WorldCommand> = seq![];
                assert(empty + second =~= second);
                assert forall|i: int| 0 <= i < second.len() implies !(#[trigger] second[i]).writes(x, y) by {
                    assert(avoids_room(second[i]));
                }
                lemma_cell_after_unwritten(generated, empty, second, x, y);
            }
            assert forall|x: int, y: int| in_spawn_room(x, y) implies #[trigger] world.cell(x, y) == Tile::BackgroundStone by {
                assert(in_spawn_enclosure(x, y));
            }
            assert forall|x: int, y: int| on_spawn_walls(x, y) implies #[trigger] world.cell(x, y) == spawn_wall_tile(x, y) by {
                assert(in_spawn_enclosure(x, y));
            }
            assert forall|x: int, y: int| in_world(x, y) && 816 <= y && !in_spawn_room(x, y)
                implies !(#[trigger] world.cell(x, y)).walkable() by {
                assert(!cell_of(generated, x, y).walkable());
                assert forall|i: int| 0 <= i < second.len() && (#[trigger] second[i]).writes(x, y)
                    implies !second[i].tile_written().walkable() by {
                    assert(writes_solid(second[i]));
                }
                lemma_cell_after_solid(generated, second, x, y);
            }
            assert forall|x: int| 1 <= x < 1023 implies #[trigger] world.cell(x, 815) == Tile::Barrier by {
                lemma_last_writer_at(generated, second, b, x, 815);
            }
            assert forall|x: int| 1 <= x < 1023 implies #[trigger] world.cell(x, yd as int) == Tile::Barrier
                && forall|y: int| yd - 32 <= y < yd ==> #[trigger] world.cell(x, y) == Tile::HardStone by {
                lemma_last_writer_at(generated, second, b + 2, x, yd as int);
                assert forall|y: int| yd - 32 <= y < yd implies #[trigger] world.cell(x, y) == Tile::HardStone by {
                    lemma_last_writer_at(generated, second, b + 1, x, y);
                }
            }
            assert(96 <= yd <= 576);
            assert(deep_barrier_at(world, yd as int));
            assert forall|x: int, y: int| on_world_edge(x, y) implies #[trigger] world.cell(x, y) == Tile::WorldBoundary by {
                let rest = second.subrange(b + 3, second.len() as int);
                assert(second =~= second.take(b + 3) + rest);
                assert forall|i: int| 0 <= i < rest.len() && (#[trigger] rest[i]).writes(x, y)
                    implies rest[i].tile_written() == Tile::WorldBoundary by {
                    assert(rest[i] == second[b + 3 + i]);
                }
                if y == 0 {
                    assert(rest[0].writes(x, y));
                } else if y == 1023 {
                    assert(rest[1].writes(x, y));
                } else if x == 0 {
                    assert(rest[2].writes(x, y));
                } else {
                    assert(rest[3].writes(x, y));
                }
                lemma_cell_after_tail_writes(generated, second.take(b + 3), rest, x, y, Tile::WorldBoundary);
            }
        }
        world
    }
}

} // verus!
