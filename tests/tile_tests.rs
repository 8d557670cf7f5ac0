use mine_world::entity::ItemKind;
use mine_world::tile::{MineOutcome, Tile, NOT_SO_VERY_BIG_NUMBER};

#[test]
fn walkable_tiles_are_open_space() {
    for t in [Tile::Empty, Tile::BackgroundStone, Tile::BackgroundStoneLadder, Tile::BackgroundStoneLadderSupport] {
        assert!(t.can_walk_through());
        assert!(t.is_air());
    }
    for t in [Tile::Stone, Tile::HardStone, Tile::Barrier, Tile::WorldBoundary, Tile::StoneBoundaryTop, Tile::ERR] {
        assert!(!t.can_walk_through());
        assert!(!t.is_air());
    }
}

#[test]
fn only_ladders_are_climbable() {
    assert!(Tile::BackgroundStoneLadder.can_climb());
    assert!(Tile::BackgroundStoneLadderSupport.can_climb());
    assert!(!Tile::BackgroundStone.can_climb());
    assert!(!Tile::BackgroundStoneLadderDontDig.can_climb());
}

#[test]
fn mineable_tiles_and_what_they_leave() {
    for t in [Tile::Stone, Tile::StoneDig, Tile::HardStone, Tile::StoneCopperOre, Tile::StoneSapphire] {
        assert!(t.can_mine());
        assert_eq!(t.mine_results_tile(), Tile::BackgroundStone);
    }
    for t in [Tile::Barrier, Tile::WorldBoundary, Tile::StoneDontDig, Tile::BackgroundStone] {
        assert!(!t.can_mine());
        assert_eq!(t.mine_results_tile(), Tile::ERR);
    }
}

#[test]
fn item_drops_and_values() {
    assert_eq!(Tile::StoneCopperOre.item_drop(), ItemKind::CopperOre);
    assert_eq!(Tile::StoneIronOre.item_drop(), ItemKind::IronOre);
    assert_eq!(Tile::StoneGoldOre.item_drop(), ItemKind::GoldOre);
    assert_eq!(Tile::StoneEmerald.item_drop(), ItemKind::RawEmerald);
    assert_eq!(Tile::StoneRuby.item_drop(), ItemKind::RawRuby);
    assert_eq!(Tile::StoneSapphire.item_drop(), ItemKind::RawSapphire);
    assert_eq!(Tile::Stone.item_drop(), ItemKind::Air);
    assert_eq!(ItemKind::Air.value(), 0);
    assert_eq!(ItemKind::CopperOre.value(), 5);
    assert_eq!(ItemKind::IronOre.value(), 35);
    assert_eq!(ItemKind::GoldOre.value(), 110);
    assert_eq!(ItemKind::RawEmerald.value(), 350);
    assert_eq!(ItemKind::RawRuby.value(), 1500);
    assert_eq!(ItemKind::RawSapphire.value(), 2500);
}

#[test]
fn durabilities_in_thousandths() {
    assert_eq!(Tile::Stone.durability(), 1200);
    assert_eq!(Tile::StoneDig.durability(), 500);
    assert_eq!(Tile::HardStone.durability(), 60000);
    assert_eq!(Tile::StoneGoldOre.durability(), 2500);
    assert_eq!(Tile::Barrier.durability(), NOT_SO_VERY_BIG_NUMBER);
}

#[test]
fn tile_indices_follow_declaration_order() {
    assert_eq!(Tile::Empty.index(), 0);
    assert_eq!(Tile::BackgroundStone.index(), 6);
    assert_eq!(Tile::Stone.index(), 12);
    assert_eq!(Tile::StoneBoundaryBottomLeftInverse.index(), 37);
}

#[test]
fn plain_stone_mining_lifecycle() {
    assert_eq!(Tile::Stone.mine_with_effort(1200), None);
    assert_eq!(
        Tile::Stone.mine_with_effort(1201),
        Some(MineOutcome { replacement: Tile::BackgroundStone, drop: None })
    );
}

#[test]
fn ore_mining_yields_one_item() {
    assert_eq!(Tile::StoneIronOre.mine_with_effort(1000), None);
    assert_eq!(
        Tile::StoneIronOre.mine_with_effort(1801),
        Some(MineOutcome { replacement: Tile::BackgroundStone, drop: Some(ItemKind::IronOre) })
    );
}
