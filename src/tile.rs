use vstd::prelude::*;

use crate::entity::ItemKind;
use crate::geom::{IVec2, ivec2};

verus! {

/// Side length of a chunk, in tiles.
pub const CHUNK_SIDE: usize = 16;
/// Number of tiles in a chunk.
pub const CHUNK_SIZE: usize = 256;
/// Side length of a chunk, in tiles, as a signed value.
pub const CHUNK_SIDE_I32: i32 = 16;
/// Number of tile kinds.
pub const TILE_COUNT: usize = 38;
/// Mining effort, in thousandths, that tiles which cannot be mined would need.
pub const NOT_SO_VERY_BIG_NUMBER: u32 = 50_000_000;

/// What a grid cell holds.
#[derive(Clone, Copy, Debug, PartialEq, Eq, Structural, Hash, PartialOrd, Ord)]
pub enum Tile {
    Empty,
    ERR,
    UP,
    DOWN,
    GREEN,
    RED,

    BackgroundStone,
    BackgroundStoneLadder,
    BackgroundStoneLadderSupport,
    BackgroundStoneElevatorLeft,
    BackgroundStoneElevatorMiddle,
    BackgroundStoneElevatorRight,

    Stone,
    StoneDig,
    StoneDontDig,
    BackgroundStoneDontDig,
    BackgroundStoneLadderDontDig,
    HardStone,
    Barrier,
    WorldBoundary,

    StoneCopperOre,
    StoneIronOre,
    StoneGoldOre,
    StoneEmerald,
    StoneRuby,
    StoneSapphire,

    StoneBoundaryBottomRight,
    StoneBoundaryBottom,
    StoneBoundaryBottomLeft,
    StoneBoundaryLeft,
    StoneBoundaryTopLeft,
    StoneBoundaryTop,
    StoneBoundaryTopRight,
    StoneBoundaryRight,

    StoneBoundaryTopLeftInverse,
    StoneBoundaryTopRightInverse,
    StoneBoundaryBottomRightInverse,
    StoneBoundaryBottomLeftInverse,
}

impl Tile {
    /// The tile's position in the tile set's bounds table.
    pub open spec fn spec_index(self) -> nat {
        match self {
            Tile::Empty => 0,
            Tile::ERR => 1,
            Tile::UP => 2,
            Tile::DOWN => 3,
            Tile::GREEN => 4,
            Tile::RED => 5,
            Tile::BackgroundStone => 6,
            Tile::BackgroundStoneLadder => 7,
            Tile::BackgroundStoneLadderSupport => 8,
            Tile::BackgroundStoneElevatorLeft => 9,
            Tile::BackgroundStoneElevatorMiddle => 10,
            Tile::BackgroundStoneElevatorRight => 11,
            Tile::Stone => 12,
            Tile::StoneDig => 13,
            Tile::StoneDontDig => 14,
            Tile::BackgroundStoneDontDig => 15,
            Tile::BackgroundStoneLadderDontDig => 16,
            Tile::HardStone => 17,
            Tile::Barrier => 18,
            Tile::WorldBoundary => 19,
            Tile::StoneCopperOre => 20,
            Tile::StoneIronOre => 21,
            Tile::StoneGoldOre => 22,
            Tile::StoneEmerald => 23,
            Tile::StoneRuby => 24,
            Tile::StoneSapphire => 25,
            Tile::StoneBoundaryBottomRight => 26,
            Tile::StoneBoundaryBottom => 27,
            Tile::StoneBoundaryBottomLeft => 28,
            Tile::StoneBoundaryLeft => 29,
            Tile::StoneBoundaryTopLeft => 30,
            Tile::StoneBoundaryTop => 31,
            Tile::StoneBoundaryTopRight => 32,
            Tile::StoneBoundaryRight => 33,
            Tile::StoneBoundaryTopLeftInverse => 34,
            Tile::StoneBoundaryTopRightInverse => 35,
            Tile::StoneBoundaryBottomRightInverse => 36,
            Tile::StoneBoundaryBottomLeftInverse => 37,
        }
    }

    /// An entity can move through the tile.
    pub open spec fn walkable(self) -> bool {
        self is Empty ||
        self is BackgroundStone ||
        self is BackgroundStoneLadder ||
        self is BackgroundStoneLadderSupport
    }

    /// The tile can be dug out.
    pub open spec fn mineable(self) -> bool {
        self is Stone ||
        self is StoneDig ||
        self is HardStone ||
        self is StoneCopperOre ||
        self is StoneIronOre ||
        self is StoneGoldOre ||
        self is StoneEmerald ||
        self is StoneRuby ||
        self is StoneSapphire
    }

    /// The tile holds a ladder.
    pub open spec fn climbable(self) -> bool {
        self is BackgroundStoneLadder ||
        self is BackgroundStoneLadderSupport
    }

    /// The tile is open space.
    pub open spec fn air(self) -> bool {
        self is Empty ||
        self is BackgroundStone ||
        self is BackgroundStoneLadder ||
        self is BackgroundStoneLadderSupport
    }

    /// What a tile turns into once it is mined out.
    pub open spec fn spec_mine_result(self) -> Tile {
        if self is Stone ||
            self is StoneDig ||
            self is HardStone ||
            self is StoneCopperOre ||
            self is StoneIronOre ||
            self is StoneGoldOre ||
            self is StoneEmerald ||
            self is StoneRuby ||
            self is StoneSapphire {
            Tile::BackgroundStone
        } else {
            Tile::ERR
        }
    }

    /// The item that mining the tile yields.
    pub open spec fn spec_item_drop(self) -> ItemKind {
        match self {
            Tile::StoneCopperOre => ItemKind::CopperOre,
            Tile::StoneIronOre => ItemKind::IronOre,
            Tile::StoneGoldOre => ItemKind::GoldOre,
            Tile::StoneEmerald => ItemKind::RawEmerald,
            Tile::StoneRuby => ItemKind::RawRuby,
            Tile::StoneSapphire => ItemKind::RawSapphire,
            _ => ItemKind::Air,
        }
    }

    /// Mining effort, in thousandths, after which the tile gives way.
    pub open spec fn spec_durability(self) -> u32 {
        match self {
            Tile::Stone => 1200,
            Tile::StoneDig => 500,
            Tile::HardStone => 60000,
            Tile::StoneCopperOre => 1400,
            Tile::StoneIronOre => 1800,
            Tile::StoneGoldOre => 2500,
            Tile::StoneEmerald => 3500,
            Tile::StoneRuby => 3500,
            Tile::StoneSapphire => 3500,
            _ => NOT_SO_VERY_BIG_NUMBER,
        }
    }

    /// Position of the tile in the tile set's bounds table.
    pub fn index(&self) -> (r: usize)
        ensures
            r == self.spec_index(),
            r < TILE_COUNT,
    {
        match self {
            Tile::Empty => 0,
            Tile::ERR => 1,
            Tile::UP => 2,
            Tile::DOWN => 3,
            Tile::GREEN => 4,
            Tile::RED => 5,
            Tile::BackgroundStone => 6,
            Tile::BackgroundStoneLadder => 7,
            Tile::BackgroundStoneLadderSupport => 8,
            Tile::BackgroundStoneElevatorLeft => 9,
            Tile::BackgroundStoneElevatorMiddle => 10,
            Tile::BackgroundStoneElevatorRight => 11,
            Tile::Stone => 12,
            Tile::StoneDig => 13,
            Tile::StoneDontDig => 14,
            Tile::BackgroundStoneDontDig => 15,
            Tile::BackgroundStoneLadderDontDig => 16,
            Tile::HardStone => 17,
            Tile::Barrier => 18,
            Tile::WorldBoundary => 19,
            Tile::StoneCopperOre => 20,
            Tile::StoneIronOre => 21,
            Tile::StoneGoldOre => 22,
            Tile::StoneEmerald => 23,
            Tile::StoneRuby => 24,
            Tile::StoneSapphire => 25,
            Tile::StoneBoundaryBottomRight => 26,
            Tile::StoneBoundaryBottom => 27,
            Tile::StoneBoundaryBottomLeft => 28,
            Tile::StoneBoundaryLeft => 29,
            Tile::StoneBoundaryTopLeft => 30,
            Tile::StoneBoundaryTop => 31,
            Tile::StoneBoundaryTopRight => 32,
            Tile::StoneBoundaryRight => 33,
            Tile::StoneBoundaryTopLeftInverse => 34,
            Tile::StoneBoundaryTopRightInverse => 35,
            Tile::StoneBoundaryBottomRightInverse => 36,
            Tile::StoneBoundaryBottomLeftInverse => 37,
        }
    }

    /// An entity can move through the tile.
    pub fn can_walk_through(&self) -> (r: bool)
        ensures
            r == self.walkable(),
    {
        match self {
            Tile::Empty
            | Tile::BackgroundStone
            | Tile::BackgroundStoneLadder
            | Tile::BackgroundStoneLadderSupport => true,
            _ => false,
        }
    }

    /// The tile can be dug out.
    pub fn can_mine(&self) -> (r: bool)
        ensures
            r == self.mineable(),
    {
        match self {
            Tile::Stone
            | Tile::StoneDig
            | Tile::HardStone
            | Tile::StoneCopperOre
            | Tile::StoneIronOre
            | Tile::StoneGoldOre
            | Tile::StoneEmerald
            | Tile::StoneRuby
            | Tile::StoneSapphire => true,
            _ => false,
        }
    }

    /// The tile holds a ladder.
    pub fn can_climb(&self) -> (r: bool)
        ensures
            r == self.climbable(),
    {
        match self {
            Tile::BackgroundStoneLadder
            | Tile::BackgroundStoneLadderSupport => true,
            _ => false,
        }
    }

    /// The tile is open space.
    pub fn is_air(&self) -> (r: bool)
        ensures
            r == self.air(),
    {
        match self {
            Tile::Empty
            | Tile::BackgroundStone
            | Tile::BackgroundStoneLadder
            | Tile::BackgroundStoneLadderSupport => true,
            _ => false,
        }
    }

    /// What the tile turns into once it is mined out.
    pub fn mine_results_tile(&self) -> (r: Tile)
        ensures
            r == self.spec_mine_result(),
    {
        match self {
            Tile::Stone
            | Tile::StoneDig
            | Tile::HardStone
            | Tile::StoneCopperOre
            | Tile::StoneIronOre
            | Tile::StoneGoldOre
            | Tile::StoneEmerald
            | Tile::StoneRuby
            | Tile::StoneSapphire => Tile::BackgroundStone,
            _ => Tile::ERR,
        }
    }

    /// The item that mining the tile yields.
    pub fn item_drop(&self) -> (r: ItemKind)
        ensures
            r == self.spec_item_drop(),
    {
        match self {
            Tile::StoneCopperOre => ItemKind::CopperOre,
            Tile::StoneIronOre => ItemKind::IronOre,
            Tile::StoneGoldOre => ItemKind::GoldOre,
            Tile::StoneEmerald => ItemKind::RawEmerald,
            Tile::StoneRuby => ItemKind::RawRuby,
            Tile::StoneSapphire => ItemKind::RawSapphire,
            _ => ItemKind::Air,
        }
    }

    /// Mining effort, in thousandths, after which the tile gives way.
    pub fn durability(&self) -> (r: u32)
        ensures
            r == self.spec_durability(),
    {
        match self {
            Tile::Stone => 1200,
            Tile::StoneDig => 500,
            Tile::HardStone => 60000,
            Tile::StoneCopperOre => 1400,
            Tile::StoneIronOre => 1800,
            Tile::StoneGoldOre => 2500,
            Tile::StoneEmerald => 3500,
            Tile::StoneRuby => 3500,
            Tile::StoneSapphire => 3500,
            _ => NOT_SO_VERY_BIG_NUMBER,
        }
    }
}

} // verus!

verus! {

/// Atlas rectangle, in texture pixels, that one tile kind is drawn from.
#[derive(Clone, Copy, Debug, PartialEq, Eq, Structural, Default)]
pub struct TileBounds {
    pub begin: IVec2,
    pub end: IVec2,
}

/// The tile set: an identifier and one atlas rectangle per tile kind.
pub struct TileSetAsset {
    pub asset_id: u64,
    pub bounds: Vec<TileBounds>,
}

/// A square block of tiles, stored row by row.
#[derive(Debug)]
pub struct TileChunk {
    pub tiles: Vec<Tile>,
}

impl TileChunk {
    /// A chunk whose every tile is `tile`.
    pub fn filled(tile: Tile) -> (r: TileChunk)
        ensures
            r.tiles@.len() == CHUNK_SIZE,
            forall|i: int| 0 <= i < CHUNK_SIZE ==> #[trigger] r.tiles@[i] == tile,
    {
        let mut tiles: Vec<Tile> = Vec::new();
        let mut i: usize = 0;
        while i < CHUNK_SIZE
            invariant
                0 <= i <= CHUNK_SIZE,
                tiles@.len() == i,
                forall|j: int| 0 <= j < i ==> #[trigger] tiles@[j] == tile,
            decreases CHUNK_SIZE - i,
        {
            tiles.push(tile);
            i += 1;
        }
        TileChunk { tiles }
    }
}

/// What mining a tile out gives: the kind it becomes and the item it drops.
#[derive(Clone, Copy, Debug, PartialEq, Eq, Structural)]
pub struct MineOutcome {
    pub replacement: Tile,
    pub drop: Option<ItemKind>,
}

impl Tile {
    /// Outcome of having put `effort` thousandths of mining effort into the tile: none
    /// while the effort does not exceed the tile's durability; after that the tile
    /// becomes its mined-out kind and yields one item of its drop kind, or none when
    /// that kind is air.
    pub fn mine_with_effort(&self, effort: u32) -> (r: Option<MineOutcome>)
        ensures
            r is Some <==> effort > self.spec_durability(),
            r matches Some(o) ==> o.replacement == self.spec_mine_result() && o.drop == if self.spec_item_drop() is Air {
                None
            } else {
                Some(self.spec_item_drop())
            },
    {
        if effort > self.durability() {
            let item = self.item_drop();
            let drop = match item {
                ItemKind::Air => None,
                _ => Some(item),
            };
            Some(MineOutcome { replacement: self.mine_results_tile(), drop })
        } else {
            None
        }
    }
}

/// Atlas rectangle of tile kind `i` in a tile set whose cells, `w` by `h` pixels with a
/// one-pixel border, are laid out `per_row` to a row in `full_rows` full rows, every
/// remaining kind following on the next row; kind 0 has an empty rectangle.
pub open spec fn atlas_bounds(i: int, per_row: int, full_rows: int, w: int, h: int) -> TileBounds {
    if i == 0 {
        TileBounds { begin: IVec2 { x: 0, y: 0 }, end: IVec2 { x: 0, y: 0 } }
    } else {
        let in_full = i < full_rows * per_row;
        let row = if in_full { i / per_row } else { full_rows };
        let col = if in_full { i % per_row } else { i - full_rows * per_row };
        let x = 1 + col * (w + 2);
        let y = 1 + row * (h + 2);
        TileBounds {
            begin: IVec2 { x: x as i32, y: y as i32 },
            end: IVec2 { x: (x + w) as i32, y: (y + h) as i32 },
        }
    }
}

impl TileSetAsset {
    /// The tile set of an atlas `texture_width` pixels wide holding one cell of
    /// `tile_size` per tile kind, in kind order: as many cells to a row as fit, all
    /// rows but the last full, and the last holding the rest.
    pub fn from_atlas(asset_id: u64, texture_width: i32, tile_size: IVec2) -> (r: TileSetAsset)
        requires
            1 <= tile_size.x <= 256,
            1 <= tile_size.y <= 256,
            tile_size.x <= texture_width <= 8192,
        ensures
            r.asset_id == asset_id,
            r.bounds@.len() == TILE_COUNT,
            forall|i: int| 0 <= i < TILE_COUNT ==> #[trigger] r.bounds@[i] == atlas_bounds(
                i,
                texture_width / tile_size.x,
                if 38int / (texture_width / tile_size.x) as int >= 1 { 38int / (texture_width / tile_size.x) as int - 1 } else { 0 },
                tile_size.x as int,
                tile_size.y as int,
            ),
    {
        let w = tile_size.x;
        let h = tile_size.y;
        let per_row: i32 = texture_width / w;
        assert(per_row >= 1) by {
            vstd::arithmetic::div_mod::lemma_div_is_ordered(tile_size.x as int, texture_width as int, tile_size.x as int);
            vstd::arithmetic::div_mod::lemma_div_by_self(tile_size.x as int);
        }
        let cols: i32 = TILE_COUNT as i32 / per_row;
        let full_rows: i32 = if cols >= 1 { cols - 1 } else { 0 };
        assert(full_rows * per_row <= 38) by {
            vstd::arithmetic::div_mod::lemma_fundamental_div_mod(38, per_row as int);
            vstd::arithmetic::mul::lemma_mul_inequality(full_rows as int, cols as int, per_row as int);
        }
        let mut bounds: Vec<TileBounds> = Vec::new();
        let mut i: i32 = 0;
        while i < TILE_COUNT as i32
            invariant
                0 <= i <= 38,
                1 <= w <= 256,
                1 <= h <= 256,
                1 <= per_row,
                per_row == texture_width / tile_size.x,
                full_rows == if 38int / per_row as int >= 1 { 38int / per_row as int - 1 } else { 0 },
                0 <= full_rows * per_row <= 38,
                0 <= full_rows <= 38,
                w == tile_size.x,
                h == tile_size.y,
                bounds@.len() == i,
                forall|j: int| 0 <= j < i ==> #[trigger] bounds@[j] == atlas_bounds(j, per_row as int, full_rows as int, w as int, h as int),
            decreases 38 - i,
        {
            if i == 0 {
                bounds.push(TileBounds { begin: ivec2(0, 0), end: ivec2(0, 0) });
            } else {
                let in_full = i < full_rows * per_row;
                let row: i32 = if in_full { i / per_row } else { full_rows };
                let col: i32 = if in_full { i % per_row } else { i - full_rows * per_row };
                assert(0 <= row <= 38 && 0 <= col <= 38) by {
                    if in_full {
                        let q = i as int / per_row as int;
                        let m = i as int % per_row as int;
                        vstd::arithmetic::div_mod::lemma_fundamental_div_mod(i as int, per_row as int);
                        vstd::arithmetic::div_mod::lemma_div_pos_is_pos(i as int, per_row as int);
                        vstd::arithmetic::div_mod::lemma_mod_pos_bound(i as int, per_row as int);
                        assert(q <= i) by (nonlinear_arith)
                            requires
                                per_row >= 1,
                                q >= 0,
                                m >= 0,
                                i == per_row * q + m,
                        ;
                    }
                }
                assert(0 <= col * (w + 2) <= 38 * 258 && 0 <= row * (h + 2) <= 38 * 258) by (nonlinear_arith)
                    requires
                        0 <= row <= 38,
                        0 <= col <= 38,
                        1 <= w <= 256,
                        1 <= h <= 256,
                ;
                let x = 1 + col * (w + 2);
                let y = 1 + row * (h + 2);
                bounds.push(TileBounds { begin: ivec2(x, y), end: ivec2(x + w, y + h) });
            }
            i += 1;
        }
        TileSetAsset { asset_id, bounds }
    }
}

} // verus!
