use mine_world::geom::ivec2;
use mine_world::movement::resolve_tile_movement;
use mine_world::tile::{Tile, TileBounds, TileSetAsset};
use mine_world::world::World;

#[test]
fn free_move_is_kept() {
    let world = World::blank();
    let moved = resolve_tile_movement(&world.tiles(), ivec2(1600, 1600), ivec2(1605, 1590), ivec2(8, 12));
    assert_eq!(moved.pos, ivec2(1605, 1590));
    assert!(!moved.touching_bottom && !moved.touching_left && !moved.touching_right && !moved.touching_top);
}

#[test]
fn floor_stops_the_fall() {
    let mut world = World::blank();
    let mut cmds = world.commands();
    cmds.set_tile(ivec2(100, 99), Tile::Stone);
    world.apply_commands(cmds);
    let moved = resolve_tile_movement(&world.tiles(), ivec2(1600, 1600), ivec2(1600, 1590), ivec2(8, 12));
    assert_eq!(moved.pos, ivec2(1600, 1600));
    assert!(moved.touching_bottom);
    assert!(!moved.touching_left && !moved.touching_right && !moved.touching_top);
}

#[test]
fn wall_stops_the_step_but_not_the_fall() {
    let mut world = World::blank();
    let mut cmds = world.commands();
    cmds.set_tile(ivec2(99, 100), Tile::HardStone);
    world.apply_commands(cmds);
    let moved = resolve_tile_movement(&world.tiles(), ivec2(1608, 1600), ivec2(1598, 1595), ivec2(8, 12));
    assert_eq!(moved.pos, ivec2(1608, 1595));
    assert!(moved.touching_left);
    assert!(!moved.touching_bottom);
}

#[test]
fn ladders_do_not_block() {
    let mut world = World::blank();
    let mut cmds = world.commands();
    cmds.set_tile_area(ivec2(99, 99), ivec2(3, 3), Tile::BackgroundStoneLadder);
    world.apply_commands(cmds);
    let moved = resolve_tile_movement(&world.tiles(), ivec2(1600, 1600), ivec2(1590, 1590), ivec2(8, 12));
    assert_eq!(moved.pos, ivec2(1590, 1590));
}

#[test]
fn atlas_layout_rows() {
    let tile_set = TileSetAsset::from_atlas(3, 144, ivec2(16, 16));
    assert_eq!(tile_set.asset_id, 3);
    assert_eq!(tile_set.bounds.len(), 38);
    assert_eq!(tile_set.bounds[0], TileBounds { begin: ivec2(0, 0), end: ivec2(0, 0) });
    assert_eq!(tile_set.bounds[1], TileBounds { begin: ivec2(19, 1), end: ivec2(35, 17) });
    assert_eq!(tile_set.bounds[9], TileBounds { begin: ivec2(1, 19), end: ivec2(17, 35) });
    assert_eq!(tile_set.bounds[27], TileBounds { begin: ivec2(1, 55), end: ivec2(17, 71) });
    assert_eq!(tile_set.bounds[37], TileBounds { begin: ivec2(181, 55), end: ivec2(197, 71) });
}

#[test]
fn atlas_wider_than_the_tile_set() {
    let tile_set = TileSetAsset::from_atlas(0, 1024, ivec2(8, 8));
    assert_eq!(tile_set.bounds[37], TileBounds { begin: ivec2(1 + 37 * 10, 1), end: ivec2(1 + 37 * 10 + 8, 9) });
}
