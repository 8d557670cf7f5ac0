use vstd::prelude::*;

use crate::geom::{IVec2, ivec2};
use crate::world::{World, chunk_in_world, floor_div16, world_pos_to_tile_pos, WORLD_WIDTH_I32, WORLD_HEIGHT_I32};

verus! {

impl World {
    /// Chunk positions of the square of chunks within `half_distance` of `origin`
    /// on each axis, clipped to the world, row by row.
    pub fn query_chunks_around_chunk_pos(origin: IVec2, half_distance: u32) -> (r: Vec<IVec2>)
        ensures
            forall|p: IVec2| r@.contains(p) <==> chunk_in_world(p.x as int, p.y as int)
                && origin.x - half_distance <= p.x <= origin.x + half_distance
                && origin.y - half_distance <= p.y <= origin.y + half_distance,
            row_major(r@),
    {
        let h: i64 = half_distance as i64;
        let x_begin: i64 = if origin.x as i64 - h > 0 { origin.x as i64 - h } else { 0 };
        let x_end: i64 = if origin.x as i64 + h < WORLD_WIDTH_I32 as i64 - 1 { origin.x as i64 + h } else { WORLD_WIDTH_I32 as i64 - 1 };
        let y_begin: i64 = if origin.y as i64 - h > 0 { origin.y as i64 - h } else { 0 };
        let y_end: i64 = if origin.y as i64 + h < WORLD_HEIGHT_I32 as i64 - 1 { origin.y as i64 + h } else { WORLD_HEIGHT_I32 as i64 - 1 };
        grid(x_begin as i32, x_end, y_begin as i32, y_end)
    }

    /// Chunk positions, inside the world, from the chunk that holds `tile_begin` to the
    /// one that holds `tile_end`, both included, row by row.
    pub fn query_chunks_between_two_tiles(tile_begin: IVec2, tile_end: IVec2) -> (r: Vec<IVec2>)
        ensures
            forall|p: IVec2| r@.contains(p) <==> chunk_in_world(p.x as int, p.y as int)
                && tile_begin.x as int / 16 <= p.x <= tile_end.x as int / 16
                && tile_begin.y as int / 16 <= p.y <= tile_end.y as int / 16,
            row_major(r@),
    {
        let chunk_begin = ivec2(floor_div16(tile_begin.x), floor_div16(tile_begin.y));
        let chunk_end = ivec2(floor_div16(tile_end.x), floor_div16(tile_end.y));
        let cx0: i32 = if chunk_begin.x > 0 { chunk_begin.x } else { 0 };
        let cy0: i32 = if chunk_begin.y > 0 { chunk_begin.y } else { 0 };
        let cx1: i32 = if chunk_end.x < WORLD_WIDTH_I32 - 1 { chunk_end.x } else { WORLD_WIDTH_I32 - 1 };
        let cy1: i32 = if chunk_end.y < WORLD_HEIGHT_I32 - 1 { chunk_end.y } else { WORLD_HEIGHT_I32 - 1 };
        grid(cx0, cx1 as i64, cy0, cy1 as i64)
    }

    /// Tile positions of the column of tiles at world x `x`, from the tile holding
    /// world y `y_range[0]` up to the one holding `y_range[1]`.
    pub fn query_intersected_tiles_y(x: i32, y_range: [i32; 2]) -> (r: Vec<IVec2>)
        ensures
            r@.len() == if y_range[1] as int / 16 >= y_range[0] as int / 16 {
                y_range[1] as int / 16 - y_range[0] as int / 16 + 1
            } else {
                0
            },
            forall|j: int| 0 <= j < r@.len() ==> (#[trigger] r@[j]).x == x as int / 16
                && r@[j].y == y_range[0] as int / 16 + j,
    {
        let begin_tile = world_pos_to_tile_pos(ivec2(x, y_range[0]));
        let end_tile = world_pos_to_tile_pos(ivec2(x, y_range[1]));
        let mut tiles: Vec<IVec2> = Vec::new();
        let mut y: i64 = begin_tile.y as i64;
        while y <= end_tile.y as i64
            invariant
                begin_tile.y <= y <= end_tile.y + 1 || (y == begin_tile.y && y > end_tile.y),
                tiles@.len() == y - begin_tile.y,
                forall|j: int| 0 <= j < tiles@.len() ==> (#[trigger] tiles@[j]).x == begin_tile.x
                    && tiles@[j].y == begin_tile.y + j,
            decreases end_tile.y - y + 1,
        {
            tiles.push(ivec2(begin_tile.x, y as i32));
            y += 1;
        }
        tiles
    }

    /// Tile positions of the row of tiles at world y `y`, from the tile holding
    /// world x `x_range[0]` up to the one holding `x_range[1]`.
    pub fn query_intersected_tiles_x(x_range: [i32; 2], y: i32) -> (r: Vec<IVec2>)
        ensures
            r@.len() == if x_range[1] as int / 16 >= x_range[0] as int / 16 {
                x_range[1] as int / 16 - x_range[0] as int / 16 + 1
            } else {
                0
            },
            forall|j: int| 0 <= j < r@.len() ==> (#[trigger] r@[j]).y == y as int / 16
                && r@[j].x == x_range[0] as int / 16 + j,
    {
        let begin_tile = world_pos_to_tile_pos(ivec2(x_range[0], y));
        let end_tile = world_pos_to_tile_pos(ivec2(x_range[1], y));
        let mut tiles: Vec<IVec2> = Vec::new();
        let mut x: i64 = begin_tile.x as i64;
        while x <= end_tile.x as i64
            invariant
                begin_tile.x <= x <= end_tile.x + 1 || (x == begin_tile.x && x > end_tile.x),
                tiles@.len() == x - begin_tile.x,
                forall|j: int| 0 <= j < tiles@.len() ==> (#[trigger] tiles@[j]).y == begin_tile.y
                    && tiles@[j].x == begin_tile.x + j,
            decreases end_tile.x - x + 1,
        {
            tiles.push(ivec2(x as i32, begin_tile.y));
            x += 1;
        }
        tiles
    }

    /// Tile positions of the rectangle of tiles spanned by the tiles that hold the
    /// two world corners (`x_range[0]`, `y_range[0]`) and (`x_range[1]`, `y_range[1]`),
    /// row by row.
    pub fn query_intersected_tiles(x_range: [i32; 2], y_range: [i32; 2]) -> (r: Vec<IVec2>)
        ensures
            forall|p: IVec2| r@.contains(p) <==> ({
                let bx = x_range[0] as int / 16;
                let ex = x_range[1] as int / 16;
                let by = y_range[0] as int / 16;
                let ey = y_range[1] as int / 16;
                &&& (bx <= p.x <= ex || ex <= p.x <= bx)
                &&& (by <= p.y <= ey || ey <= p.y <= by)
            }),
            row_major(r@),
    {
        let begin_tile = world_pos_to_tile_pos(ivec2(x_range[0], y_range[0]));
        let end_tile = world_pos_to_tile_pos(ivec2(x_range[1], y_range[1]));
        let lo = begin_tile.min(end_tile);
        let hi = begin_tile.max(end_tile);
        grid(lo.x, hi.x as i64, lo.y, hi.y as i64)
    }
}

/// Positions are listed row by row, each row from left to right, with no repeats.
pub open spec fn row_major(s: Seq<IVec2>) -> bool {
    forall|i: int, j: int| 0 <= i < j < s.len() ==> (#[trigger] s[i]).y < (#[trigger] s[j]).y
        || (s[i].y == s[j].y && s[i].x < s[j].x)
}

/// Every position with `x0 <= x <= x1` and `y0 <= y <= y1`, row by row.
fn grid(x0: i32, x1: i64, y0: i32, y1: i64) -> (r: Vec<IVec2>)
    requires
        x1 <= i32::MAX,
        y1 <= i32::MAX,
    ensures
        forall|p: IVec2| r@.contains(p) <==> x0 <= p.x <= x1 && y0 <= p.y <= y1,
        row_major(r@),
{
    let mut r: Vec<IVec2> = Vec::new();
    let mut y: i64 = y0 as i64;
    while y <= y1
        invariant
            y0 <= y,
            y <= y1 + 1 || y == y0,
            y1 <= i32::MAX,
            x1 <= i32::MAX,
            forall|j: int| 0 <= j < r@.len() ==> x0 <= (#[trigger] r@[j]).x <= x1 && y0 <= r@[j].y < y,
            forall|p: IVec2| x0 <= p.x <= x1 && y0 <= p.y < y ==> r@.contains(p),
            row_major(r@),
        decreases y1 + 1 - y,
    {
        let mut x: i64 = x0 as i64;
        while x <= x1
            invariant
                x0 <= x,
                x <= x1 + 1 || x == x0,
                y0 <= y <= y1,
                y1 <= i32::MAX,
                x1 <= i32::MAX,
                forall|j: int| 0 <= j < r@.len() ==> x0 <= (#[trigger] r@[j]).x <= x1 && y0 <= r@[j].y <= y
                    && (r@[j].y == y ==> r@[j].x < x),
                forall|p: IVec2| x0 <= p.x <= x1 && (y0 <= p.y < y || (p.y == y && p.x < x)) ==> r@.contains(p),
                row_major(r@),
            decreases x1 + 1 - x,
        {
            let ghost r0 = r@;
            let p = ivec2(x as i32, y as i32);
            r.push(p);
            proof {
                assert(r@[r@.len() - 1] == p);
                assert forall|q: IVec2| x0 <= q.x <= x1 && (y0 <= q.y < y || (q.y == y && q.x < x + 1)) implies r@.contains(q) by {
                    if q == p {
                        assert(r@[r@.len() - 1] == q);
                    } else {
                        assert(r0.contains(q));
                        let j = choose|j: int| 0 <= j < r0.len() && r0[j] == q;
                        assert(r@[j] == q);
                    }
                }
            }
            x += 1;
        }
        y += 1;
    }
    r
}

} // verus!
