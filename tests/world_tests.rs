use mine_world::geom::{ivec2, IVec2};
use mine_world::tile::{Tile, TileBounds, TileSetAsset, CHUNK_SIZE};
use mine_world::world::{
    chunk_index_at, chunk_pos_to_tile_pos, chunk_pos_to_world_pos, local_tile_index_at, tile_index_at,
    tile_pos_to_chunk_pos, tile_pos_to_world_pos, world_pos_to_chunk_pos, world_pos_to_tile_pos, World,
    WORLD_SIZE,
};
use mine_world::command::{WorldCommand, WorldCommands};

fn cell(world: &World, x: i32, y: i32) -> Tile {
    world.tiles().at_tile_pos(ivec2(x, y)).kind
}

fn clean(world: &mut World) {
    let tile_set = test_tile_set();
    world.apply_updates(&tile_set);
}

fn test_tile_set() -> TileSetAsset {
    let mut bounds = Vec::new();
    for i in 0..38 {
        bounds.push(TileBounds { begin: ivec2(i * 18 + 1, 1), end: ivec2(i * 18 + 17, 17) });
    }
    TileSetAsset { asset_id: 7, bounds }
}

#[test]
fn tile_world_round_trip() {
    for t in [ivec2(0, 0), ivec2(5, 9), ivec2(1023, 1023), ivec2(-1, -17), ivec2(-300, 77)] {
        assert_eq!(world_pos_to_tile_pos(tile_pos_to_world_pos(t)), t);
    }
}

#[test]
fn conversions_round_down() {
    assert_eq!(world_pos_to_tile_pos(ivec2(31, 47)), ivec2(1, 2));
    assert_eq!(world_pos_to_tile_pos(ivec2(-1, -1)), ivec2(-1, -1));
    assert_eq!(world_pos_to_tile_pos(ivec2(-17, -15)), ivec2(-2, -1));
    assert_eq!(world_pos_to_tile_pos(ivec2(-16, 0)), ivec2(-1, 0));
    assert_eq!(world_pos_to_chunk_pos(ivec2(300, 513)), ivec2(1, 2));
    assert_eq!(world_pos_to_chunk_pos(ivec2(-1, -257)), ivec2(-1, -2));
    assert_eq!(tile_pos_to_chunk_pos(ivec2(33, 15)), ivec2(2, 0));
    assert_eq!(tile_pos_to_chunk_pos(ivec2(-20, 0)), ivec2(-2, 0));
    assert_eq!(tile_pos_to_chunk_pos(ivec2(-16, -1)), ivec2(-1, -1));
    assert_eq!(chunk_pos_to_tile_pos(ivec2(3, 4)), ivec2(48, 64));
    assert_eq!(chunk_pos_to_world_pos(ivec2(3, 4)), ivec2(768, 1024));
    assert_eq!(tile_pos_to_world_pos(ivec2(3, -4)), ivec2(48, -64));
}

#[test]
fn indices_stay_within_capacity() {
    assert_eq!(tile_index_at(ivec2(0, 0)), 0);
    assert_eq!(tile_index_at(ivec2(17, 18)), 2 * 16 + 1);
    assert_eq!(tile_index_at(ivec2(1023, 1023)), CHUNK_SIZE - 1);
    assert_eq!(tile_index_at(ivec2(-1, -1)), CHUNK_SIZE - 1);
    assert_eq!(local_tile_index_at(ivec2(3, 2)), 35);
    assert_eq!(chunk_index_at(ivec2(0, 0)), 0);
    assert_eq!(chunk_index_at(ivec2(63, 63)), WORLD_SIZE - 1);
    assert_eq!(chunk_index_at(ivec2(5, 1)), 69);
    for (x, y) in [(0, 0), (1023, 0), (0, 1023), (511, 700), (1023, 1023)] {
        assert!(tile_index_at(ivec2(x, y)) < CHUNK_SIZE);
        assert!(chunk_index_at(tile_pos_to_chunk_pos(ivec2(x, y))) < WORLD_SIZE);
    }
}

#[test]
fn blank_world_is_background_stone() {
    let world = World::blank();
    assert_eq!(cell(&world, 0, 0), Tile::BackgroundStone);
    assert_eq!(cell(&world, 1023, 1023), Tile::BackgroundStone);
    assert!(world.dirty_chunk_positions().is_empty());
    assert_eq!(world.vertex_positions[4 * 17 + 2], ivec2(16 + 16, 16 + 16));
}

#[test]
fn set_tile_area_twice_equals_once() {
    let mut once = World::blank();
    let mut twice = World::blank();
    let mut a = once.commands();
    a.set_tile_area(ivec2(10, 20), ivec2(30, 5), Tile::Stone);
    a.recalculate_all_meshes();
    once.apply_commands(a);
    let mut b = twice.commands();
    b.set_tile_area(ivec2(10, 20), ivec2(30, 5), Tile::Stone);
    b.set_tile_area(ivec2(10, 20), ivec2(30, 5), Tile::Stone);
    b.recalculate_all_meshes();
    twice.apply_commands(b);
    for c in 0..WORLD_SIZE {
        assert_eq!(once.chunks[c].tiles, twice.chunks[c].tiles);
    }
    assert_eq!(cell(&once, 10, 20), Tile::Stone);
    assert_eq!(cell(&once, 39, 24), Tile::Stone);
    assert_eq!(cell(&once, 40, 24), Tile::BackgroundStone);
    assert_eq!(cell(&once, 10, 25), Tile::BackgroundStone);
}

#[test]
fn later_commands_win() {
    let mut world = World::blank();
    let mut cmds = world.commands();
    cmds.set_tile_area(ivec2(0, 0), ivec2(4, 4), Tile::Stone);
    cmds.set_tile(ivec2(1, 1), Tile::HardStone);
    cmds.set_tiles(vec![ivec2(2, 2), ivec2(3, 3)], Tile::StoneGoldOre);
    cmds.set_tiles_in_chunk(ivec2(1, 0), vec![ivec2(0, 0), ivec2(15, 15)], Tile::StoneRuby);
    world.apply_commands(cmds);
    assert_eq!(cell(&world, 0, 0), Tile::Stone);
    assert_eq!(cell(&world, 1, 1), Tile::HardStone);
    assert_eq!(cell(&world, 2, 2), Tile::StoneGoldOre);
    assert_eq!(cell(&world, 3, 3), Tile::StoneGoldOre);
    assert_eq!(cell(&world, 16, 0), Tile::StoneRuby);
    assert_eq!(cell(&world, 31, 15), Tile::StoneRuby);
    assert_eq!(cell(&world, 4, 4), Tile::BackgroundStone);
}

#[test]
fn commands_outside_the_world_are_clipped() {
    let mut world = World::blank();
    let mut cmds = world.commands();
    cmds.set_tile(ivec2(-1, 5), Tile::Stone);
    cmds.set_tile(ivec2(1024, 5), Tile::Stone);
    cmds.set_tiles_in_chunk(ivec2(64, 0), vec![ivec2(0, 0)], Tile::Stone);
    cmds.set_tiles_in_chunk(ivec2(0, 0), vec![ivec2(16, 0), ivec2(-1, 0)], Tile::Stone);
    cmds.set_tile_area(ivec2(1020, 1020), ivec2(10, 10), Tile::Barrier);
    world.apply_commands(cmds);
    assert_eq!(cell(&world, 0, 5), Tile::BackgroundStone);
    assert_eq!(cell(&world, 1023, 5), Tile::BackgroundStone);
    assert_eq!(cell(&world, 0, 0), Tile::BackgroundStone);
    assert_eq!(cell(&world, 1023, 1023), Tile::Barrier);
    assert_eq!(cell(&world, 1020, 1020), Tile::Barrier);
    assert_eq!(world.dirty_chunk_positions(), vec![ivec2(63, 63)]);
}

#[test]
fn dirty_set_holds_exactly_the_written_chunks() {
    let mut world = World::blank();
    let before: Vec<Vec<Tile>> = world.chunks.iter().map(|c| c.tiles.clone()).collect();
    let mut cmds = world.commands();
    cmds.set_tile(ivec2(17, 3), Tile::Stone);
    cmds.set_tile_area(ivec2(30, 40), ivec2(4, 1), Tile::Stone);
    cmds.push_commands(vec![WorldCommand::SetTiles { tile_poses: vec![ivec2(500, 600)], tile: Tile::HardStone }]);
    world.apply_commands(cmds);
    let dirty = world.dirty_chunk_positions();
    assert_eq!(dirty, vec![ivec2(1, 0), ivec2(1, 2), ivec2(2, 2), ivec2(31, 37)]);
    for c in 0..WORLD_SIZE {
        if !world.dirty_chunks[c] {
            assert_eq!(world.chunks[c].tiles, before[c]);
        }
    }
}

#[test]
fn mesh_sync_rewrites_dirty_chunks_only() {
    let mut world = World::blank();
    clean(&mut world);
    let tile_set = test_tile_set();
    let stone = tile_set.bounds[Tile::Stone.index()];
    let background = tile_set.bounds[Tile::BackgroundStone.index()];
    assert_eq!(world.mesh_at(ivec2(0, 0)).uvs[0], ivec2(background.begin.x, background.end.y));
    let mut cmds = world.commands();
    cmds.set_tile(ivec2(16 + 2, 1), Tile::Stone);
    world.apply_commands(cmds);
    world.meshes[2].has_texture = false;
    let untouched = world.meshes[0].uvs.clone();
    world.apply_updates(&tile_set);
    let mesh = world.mesh_at(ivec2(1, 0));
    let k = 16 + 2;
    assert_eq!(mesh.uvs[4 * k], ivec2(stone.begin.x, stone.end.y));
    assert_eq!(mesh.uvs[4 * k + 1], ivec2(stone.end.x, stone.end.y));
    assert_eq!(mesh.uvs[4 * k + 2], ivec2(stone.end.x, stone.begin.y));
    assert_eq!(mesh.uvs[4 * k + 3], ivec2(stone.begin.x, stone.begin.y));
    assert_eq!(world.meshes[0].uvs, untouched);
    assert!(world.dirty_chunk_positions().is_empty());
    assert!(!world.recalculate_all_meshes);
}

#[test]
fn chunks_around_a_position_are_clipped() {
    let around = World::query_chunks_around_chunk_pos(ivec2(0, 5), 1);
    assert_eq!(around, vec![ivec2(0, 4), ivec2(1, 4), ivec2(0, 5), ivec2(1, 5), ivec2(0, 6), ivec2(1, 6)]);
    assert_eq!(World::query_chunks_around_chunk_pos(ivec2(63, 63), 0), vec![ivec2(63, 63)]);
}

#[test]
fn chunks_between_two_tiles() {
    let chunks = World::query_chunks_between_two_tiles(ivec2(10, 5), ivec2(40, 17));
    assert_eq!(chunks, vec![ivec2(0, 0), ivec2(1, 0), ivec2(2, 0), ivec2(0, 1), ivec2(1, 1), ivec2(2, 1)]);
    assert_eq!(
        World::query_chunks_between_two_tiles(ivec2(0, 0), ivec2(16, 16)),
        vec![ivec2(0, 0), ivec2(1, 0), ivec2(0, 1), ivec2(1, 1)]
    );
    assert_eq!(World::query_chunks_between_two_tiles(ivec2(5, 5), ivec2(5, 9)), vec![ivec2(0, 0)]);
    assert_eq!(World::query_chunks_between_two_tiles(ivec2(-5, -5), ivec2(3, 3)), vec![ivec2(0, 0)]);
    assert!(World::query_chunks_between_two_tiles(ivec2(40, 5), ivec2(5, 9)).is_empty());
    assert_eq!(World::query_chunks_between_two_tiles(ivec2(1000, 1000), ivec2(2000, 2000)), vec![ivec2(62, 62), ivec2(63, 62), ivec2(62, 63), ivec2(63, 63)]);
}

#[test]
fn scan_lines_of_tiles() {
    let column = World::query_intersected_tiles_y(40, [16, 63]);
    assert_eq!(column, vec![ivec2(2, 1), ivec2(2, 2), ivec2(2, 3)]);
    let row = World::query_intersected_tiles_x([0, 47], 5);
    assert_eq!(row, vec![ivec2(0, 0), ivec2(1, 0), ivec2(2, 0)]);
    assert!(World::query_intersected_tiles_x([47, 0], 5).is_empty());
    let rect = World::query_intersected_tiles([40, 0], [16, 20]);
    assert_eq!(rect, vec![ivec2(0, 1), ivec2(1, 1), ivec2(2, 1)]);
}

#[test]
fn neighbouring_tiles() {
    let mut world = World::blank();
    let mut cmds = world.commands();
    cmds.set_tile(ivec2(5, 6), Tile::Stone);
    cmds.set_tile(ivec2(5, 4), Tile::HardStone);
    cmds.set_tile(ivec2(4, 5), Tile::Barrier);
    cmds.set_tile(ivec2(6, 5), Tile::StoneDig);
    world.apply_commands(cmds);
    let tiles = world.tiles();
    let t = tiles.at_world_pos(ivec2(5 * 16 + 3, 5 * 16 + 15));
    assert_eq!(t.pos, ivec2(5, 5));
    assert_eq!(t.up(1).kind, Tile::Stone);
    assert_eq!(t.down(1).kind, Tile::HardStone);
    assert_eq!(t.left(1).kind, Tile::Barrier);
    assert_eq!(t.right(1).kind, Tile::StoneDig);
    assert_eq!(t.offset_by(ivec2(1, 0)).kind, Tile::StoneDig);
    assert_eq!(t.world_pos(), ivec2(80, 80));
    assert_eq!(t.chunk_pos(), ivec2(0, 0));
    assert_eq!(t.tile_index(), 5 * 16 + 5);
    let p: IVec2 = t.another_tile(ivec2(900, 3)).pos;
    assert_eq!(p, ivec2(900, 3));
}

#[test]
fn queued_commands_keep_their_order() {
    let mut cmds = WorldCommands::new();
    cmds.set_tile(ivec2(1, 2), Tile::Stone);
    cmds.recalculate_all_meshes();
    assert_eq!(cmds.commands.len(), 2);
    assert!(matches!(cmds.commands[0], WorldCommand::SetTile { x: 1, y: 2, tile: Tile::Stone }));
    assert!(matches!(cmds.commands[1], WorldCommand::RecalculateAllMeshes));
}
