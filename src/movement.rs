use vstd::prelude::*;

use crate::geom::{IVec2, ivec2};
use crate::command::cell_of;
use crate::world::{World, WorldTiles, in_world};

verus! {

/// Where an entity ends up after a proposed move against the tile grid, and which of
/// its sides found a tile that cannot be walked through.
#[derive(Clone, Copy, Debug, PartialEq, Eq, Structural)]
pub struct TileMovement {
    pub pos: IVec2,
    pub touching_bottom: bool,
    pub touching_left: bool,
    pub touching_right: bool,
    pub touching_top: bool,
}

/// Some tile of the column at tile x `tx`, from tile row `ty0` to `ty1`, cannot be
/// walked through.
pub open spec fn column_blocked(chunks: Seq<crate::tile::TileChunk>, tx: int, ty0: int, ty1: int) -> bool {
    exists|ty: int| ty0 <= ty <= ty1 && !(#[trigger] cell_of(chunks, tx, ty)).walkable()
}

/// Some tile of the row at tile y `ty`, from tile column `tx0` to `tx1`, cannot be
/// walked through.
pub open spec fn row_blocked(chunks: Seq<crate::tile::TileChunk>, tx0: int, tx1: int, ty: int) -> bool {
    exists|tx: int| tx0 <= tx <= tx1 && !(#[trigger] cell_of(chunks, tx, ty)).walkable()
}

/// Every tile that the scan lines of a move from `pos` to `new_pos` pass through lies
/// inside the world: the edges of the entity, at the old and at the new position, lie
/// within the world's extent in world units.
pub open spec fn scan_in_world(pos: IVec2, new_pos: IVec2, tile_size: IVec2) -> bool {
    let hx = tile_size.x / 2;
    &&& 0 <= pos.x - hx + 1 <= pos.x + hx < 16384
    &&& 0 <= new_pos.x - hx + 1 <= new_pos.x + hx < 16384
    &&& 0 <= pos.y <= pos.y + tile_size.y < 16384
    &&& 0 <= new_pos.y <= new_pos.y + tile_size.y < 16384
}

/// A world coordinate within the world's extent lies in a tile inside the world.
proof fn lemma_tile_in_range(a: int)
    requires
        0 <= a < 16384,
    ensures
        0 <= a / 16 < 1024,
{
    vstd::arithmetic::div_mod::lemma_fundamental_div_mod(a, 16);
    vstd::arithmetic::div_mod::lemma_mod_bound(a, 16);
}

/// The first non-walkable tile of a scan line, if any.
fn first_blocked(tiles: &WorldTiles, line: &Vec<IVec2>) -> (r: bool)
    requires
        tiles.wf(),
        forall|j: int| 0 <= j < line@.len() ==> in_world((#[trigger] line@[j]).x as int, line@[j].y as int),
    ensures
        r == exists|j: int| 0 <= j < line@.len() && !(#[trigger] cell_of(tiles.chunks@, line@[j].x as int, line@[j].y as int)).walkable(),
{
    let mut j: usize = 0;
    while j < line.len()
        invariant
            0 <= j <= line@.len(),
            tiles.wf(),
            forall|i: int| 0 <= i < line@.len() ==> in_world((#[trigger] line@[i]).x as int, line@[i].y as int),
            forall|i: int| 0 <= i < j ==> (#[trigger] cell_of(tiles.chunks@, line@[i].x as int, line@[i].y as int)).walkable(),
        decreases line@.len() - j,
    {
        if !tiles.at_tile_pos(line[j]).kind.can_walk_through() {
            return true;
        }
        j += 1;
    }
    false
}

/// Resolves a move of an entity from `pos` to `new_pos` against the tile grid, one axis
/// at a time. The entity's position is the middle of its bottom edge, and `tile_size`
/// its size. The tiles that its bottom and top edges would pass through at the new
/// height, along its width at the old position, and those that its left and right
/// edges would pass through at the new position, along its height at the old
/// position, are looked up; if any of an edge's tiles cannot be walked through, the
/// move along that axis is undone and that side is reported as touching.
pub fn resolve_tile_movement(tiles: &WorldTiles, pos: IVec2, new_pos: IVec2, tile_size: IVec2) -> (r: TileMovement)
    requires
        tiles.wf(),
        0 <= tile_size.x <= 32,
        0 <= tile_size.y <= 32,
        scan_in_world(pos, new_pos, tile_size),
    ensures
        ({
            let hx = tile_size.x / 2;
            let cols = ((pos.x - hx + 1) / 16, (pos.x + hx) / 16);
            let rows = (pos.y as int / 16, (pos.y + tile_size.y) / 16);
            &&& r.touching_bottom == row_blocked(tiles.chunks@, cols.0, cols.1, new_pos.y as int / 16)
            &&& r.touching_top == row_blocked(tiles.chunks@, cols.0, cols.1, (new_pos.y + tile_size.y) / 16)
            &&& r.touching_left == column_blocked(tiles.chunks@, (new_pos.x - hx + 1) / 16, rows.0, rows.1)
            &&& r.touching_right == column_blocked(tiles.chunks@, (new_pos.x + hx) / 16, rows.0, rows.1)
            &&& r.pos.x == if r.touching_left || r.touching_right { pos.x } else { new_pos.x }
            &&& r.pos.y == if r.touching_bottom || r.touching_top { pos.y } else { new_pos.y }
        }),
{
    let hx: i32 = tile_size.x / 2;
    proof {
        lemma_tile_in_range(pos.x - hx + 1);
        lemma_tile_in_range(pos.x + hx);
        lemma_tile_in_range(new_pos.x - hx + 1);
        lemma_tile_in_range(new_pos.x + hx);
        lemma_tile_in_range(pos.y as int);
        lemma_tile_in_range(pos.y + tile_size.y);
        lemma_tile_in_range(new_pos.y as int);
        lemma_tile_in_range(new_pos.y + tile_size.y);
    }
    let right_intersection = World::query_intersected_tiles_y(new_pos.x + hx, [pos.y, pos.y + tile_size.y]);
    let left_intersection = World::query_intersected_tiles_y(new_pos.x - hx + 1, [pos.y, pos.y + tile_size.y]);
    let top_intersection = World::query_intersected_tiles_x([pos.x - hx + 1, pos.x + hx], new_pos.y + tile_size.y);
    let bottom_intersection = World::query_intersected_tiles_x([pos.x - hx + 1, pos.x + hx], new_pos.y);
    let touching_bottom = first_blocked(tiles, &bottom_intersection);
    let touching_left = first_blocked(tiles, &left_intersection);
    let touching_right = first_blocked(tiles, &right_intersection);
    let touching_top = first_blocked(tiles, &top_intersection);
    proof {
        let cols = ((pos.x - hx + 1) / 16, (pos.x + hx) / 16);
        let rows = (pos.y as int / 16, (pos.y + tile_size.y) / 16);
        assert(touching_bottom == row_blocked(tiles.chunks@, cols.0, cols.1, new_pos.y as int / 16)) by {
            if row_blocked(tiles.chunks@, cols.0, cols.1, new_pos.y as int / 16) {
                let tx = choose|tx: int| cols.0 <= tx <= cols.1
                    && !(#[trigger] cell_of(tiles.chunks@, tx, new_pos.y as int / 16)).walkable();
                assert(bottom_intersection@[tx - cols.0].x == tx);
            }
        }
        assert(touching_top == row_blocked(tiles.chunks@, cols.0, cols.1, (new_pos.y + tile_size.y) / 16)) by {
            if row_blocked(tiles.chunks@, cols.0, cols.1, (new_pos.y + tile_size.y) / 16) {
                let tx = choose|tx: int| cols.0 <= tx <= cols.1
                    && !(#[trigger] cell_of(tiles.chunks@, tx, (new_pos.y + tile_size.y) / 16)).walkable();
                assert(top_intersection@[tx - cols.0].x == tx);
            }
        }
        assert(touching_left == column_blocked(tiles.chunks@, (new_pos.x - hx + 1) / 16, rows.0, rows.1)) by {
            if column_blocked(tiles.chunks@, (new_pos.x - hx + 1) / 16, rows.0, rows.1) {
                let ty = choose|ty: int| rows.0 <= ty <= rows.1
                    && !(#[trigger] cell_of(tiles.chunks@, (new_pos.x - hx + 1) / 16, ty)).walkable();
                assert(left_intersection@[ty - rows.0].y == ty);
            }
        }
        assert(touching_right == column_blocked(tiles.chunks@, (new_pos.x + hx) / 16, rows.0, rows.1)) by {
            if column_blocked(tiles.chunks@, (new_pos.x + hx) / 16, rows.0, rows.1) {
                let ty = choose|ty: int| rows.0 <= ty <= rows.1
                    && !(#[trigger] cell_of(tiles.chunks@, (new_pos.x + hx) / 16, ty)).walkable();
                assert(right_intersection@[ty - rows.0].y == ty);
            }
        }
    }
    let x = if touching_left || touching_right { pos.x } else { new_pos.x };
    let y = if touching_bottom || touching_top { pos.y } else { new_pos.y };
    TileMovement { pos: ivec2(x, y), touching_bottom, touching_left, touching_right, touching_top }
}

} // verus!
