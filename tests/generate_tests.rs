use mine_world::generate::{gem_for_roll, guide_step, platform_profile, resample_gems, resample_gems_with_rolls, ROOM_END_X_I32, ROOM_END_Y_I32, ROOM_START_X_I32, ROOM_START_Y_I32};
use mine_world::geom::ivec2;
use mine_world::tile::Tile;
use mine_world::command::WorldCommand;
use mine_world::world::World;

#[test]
fn generated_world_keeps_spawn_room_open_and_edges_sealed() {
    let world = World::new();
    let tiles = world.tiles();
    for y in ROOM_START_Y_I32..ROOM_END_Y_I32 {
        for x in ROOM_START_X_I32..ROOM_END_X_I32 {
            let t = tiles.at_tile_pos(ivec2(x, y)).kind;
            assert!(t.can_walk_through() && t.is_air());
        }
    }
    for i in 0..1024 {
        for (x, y) in [(i, 0), (i, 1023), (0, i), (1023, i)] {
            let t = tiles.at_tile_pos(ivec2(x, y)).kind;
            assert_eq!(t, Tile::WorldBoundary);
            assert!(!t.can_walk_through());
        }
    }
    assert_eq!(tiles.at_tile_pos(ivec2(ROOM_START_X_I32 - 1, ROOM_START_Y_I32 - 1)).kind, Tile::StoneBoundaryBottomLeftInverse);
    assert_eq!(tiles.at_tile_pos(ivec2(ROOM_START_X_I32 + 32, ROOM_START_Y_I32 - 1)).kind, Tile::StoneDig);
    assert_eq!(tiles.at_tile_pos(ivec2(10, 815)).kind, Tile::Barrier);
    assert_eq!(tiles.at_tile_pos(ivec2(480, 1001)).kind, Tile::StoneBoundaryTopLeftInverse);
    assert_eq!(tiles.at_tile_pos(ivec2(545, 992)).kind, Tile::StoneBoundaryBottomRightInverse);
    assert_eq!(tiles.at_tile_pos(ivec2(545, 1001)).kind, Tile::StoneBoundaryTopRightInverse);
    for x in 481..545 {
        let floor = if (509..517).contains(&x) { Tile::StoneDig } else { Tile::StoneBoundaryBottom };
        assert_eq!(tiles.at_tile_pos(ivec2(x, 992)).kind, floor);
        assert_eq!(tiles.at_tile_pos(ivec2(x, 1001)).kind, Tile::StoneBoundaryTop);
    }
    for y in 993..1001 {
        assert_eq!(tiles.at_tile_pos(ivec2(480, y)).kind, Tile::StoneBoundaryLeft);
        assert_eq!(tiles.at_tile_pos(ivec2(545, y)).kind, Tile::StoneBoundaryRight);
    }
    let deep = (96..=576).find(|&yd| {
        (1..1023).all(|x| {
            tiles.at_tile_pos(ivec2(x, yd)).kind == Tile::Barrier
                && (yd - 32..yd).all(|y| tiles.at_tile_pos(ivec2(x, y)).kind == Tile::HardStone)
        })
    });
    assert!(deep.is_some());
    for y in 816..1024 {
        for x in 0..1024 {
            let inside_room = (ROOM_START_X_I32..ROOM_END_X_I32).contains(&x) && (ROOM_START_Y_I32..ROOM_END_Y_I32).contains(&y);
            if !inside_room {
                assert!(!tiles.at_tile_pos(ivec2(x, y)).kind.can_walk_through(), "open cell at {} {}", x, y);
            }
        }
    }
    assert!(world.recalculate_all_meshes);
}

#[test]
fn generated_world_has_ore_in_the_mined_band() {
    let world = World::new();
    let tiles = world.tiles();
    let mut copper = 0;
    for y in 816..1023 {
        for x in 1..1023 {
            if tiles.at_tile_pos(ivec2(x, y)).kind == Tile::StoneCopperOre {
                copper += 1;
            }
        }
    }
    assert!(copper > 0);
}

#[test]
fn gem_thresholds() {
    assert_eq!(gem_for_roll(0), Some(Tile::StoneSapphire));
    assert_eq!(gem_for_roll(1), Some(Tile::StoneSapphire));
    assert_eq!(gem_for_roll(2), Some(Tile::StoneRuby));
    assert_eq!(gem_for_roll(4), Some(Tile::StoneRuby));
    assert_eq!(gem_for_roll(5), Some(Tile::StoneEmerald));
    assert_eq!(gem_for_roll(10), Some(Tile::StoneEmerald));
    assert_eq!(gem_for_roll(11), Some(Tile::StoneGoldOre));
    assert_eq!(gem_for_roll(40), Some(Tile::StoneGoldOre));
    assert_eq!(gem_for_roll(41), None);
    assert_eq!(gem_for_roll(299), None);
}

#[test]
fn gem_rates_converge() {
    let mut world = World::blank();
    let mut cmds = world.commands();
    cmds.set_tile_area(ivec2(0, 100), ivec2(1024, 300), Tile::Stone);
    world.apply_commands(cmds);
    let mut gems = world.commands();
    resample_gems(&world.tiles(), 64, &mut gems);
    let mut counts = [0usize; 4];
    for c in &gems.commands {
        match c {
            WorldCommand::SetTile { tile: Tile::StoneSapphire, .. } => counts[0] += 1,
            WorldCommand::SetTile { tile: Tile::StoneRuby, .. } => counts[1] += 1,
            WorldCommand::SetTile { tile: Tile::StoneEmerald, .. } => counts[2] += 1,
            WorldCommand::SetTile { tile: Tile::StoneGoldOre, .. } => counts[3] += 1,
            _ => panic!("unexpected command"),
        }
    }
    let n = (1024 * 300) as f64;
    let expected = [2.0 / 300.0, 3.0 / 300.0, 6.0 / 300.0, 30.0 / 300.0];
    for k in 0..4 {
        let rate = counts[k] as f64 / n;
        assert!((rate - expected[k]).abs() < 0.004, "kind {} rate {} expected {}", k, rate, expected[k]);
    }
    assert!(counts[0] < counts[1] && counts[1] < counts[2] && counts[2] < counts[3]);
}

#[test]
fn guide_walk_steps_and_bounces() {
    assert_eq!(guide_step(950, 0, 944, 959), 949);
    assert_eq!(guide_step(950, 2, 944, 959), 950);
    assert_eq!(guide_step(950, 4, 944, 959), 951);
    assert_eq!(guide_step(945, 0, 944, 959), 946);
    assert_eq!(guide_step(958, 4, 944, 959), 957);
}

#[test]
fn platform_widens_then_narrows() {
    let (widths, offsets) = platform_profile(4, 2);
    assert_eq!(widths, vec![2, 4, 6, 4]);
    assert_eq!(offsets, vec![0, -1, -2, -1]);
    let (widths, offsets) = platform_profile(3, 3);
    assert_eq!(widths, vec![3, 5, 3]);
    assert_eq!(offsets, vec![0, -1, 0]);
}

#[test]
fn resampling_upgrades_each_stone_cell_at_most_once() {
    let mut world = World::blank();
    let mut cmds = world.commands();
    cmds.set_tile_area(ivec2(0, 100), ivec2(1024, 3), Tile::Stone);
    cmds.set_tile_area(ivec2(0, 101), ivec2(512, 1), Tile::HardStone);
    world.apply_commands(cmds);
    let mut gems = world.commands();
    resample_gems(&world.tiles(), 64, &mut gems);
    let mut seen = std::collections::HashSet::new();
    for c in &gems.commands {
        match c {
            WorldCommand::SetTile { x, y, tile } => {
                assert!(matches!(tile, Tile::StoneSapphire | Tile::StoneRuby | Tile::StoneEmerald | Tile::StoneGoldOre));
                assert_eq!(world.tiles().at_tile_pos(ivec2(*x, *y)).kind, Tile::Stone);
                assert!(seen.insert((*x, *y)));
            }
            _ => panic!("resampling only sets single tiles"),
        }
    }
    let stone_cells = 1024 * 2 + 512;
    assert!(seen.len() > stone_cells / 20 && seen.len() < stone_cells / 4);
}

#[test]
fn resampling_follows_the_given_rolls() {
    let mut world = World::blank();
    let mut cmds = world.commands();
    cmds.set_tile_area(ivec2(0, 100), ivec2(4, 1), Tile::Stone);
    world.apply_commands(cmds);
    let from_y = 64;
    let mut rolls = vec![299; ((816 - from_y) * 1024) as usize];
    let at = |x: i32, y: i32| ((y - from_y) * 1024 + x) as usize;
    rolls[at(0, 100)] = 0;
    rolls[at(1, 100)] = 3;
    rolls[at(2, 100)] = 7;
    rolls[at(3, 100)] = 200;
    rolls[at(5, 100)] = 0;
    let mut gems = world.commands();
    resample_gems_with_rolls(&world.tiles(), from_y, &rolls, &mut gems);
    let written: Vec<(i32, i32, Tile)> = gems
        .commands
        .iter()
        .map(|c| match c {
            WorldCommand::SetTile { x, y, tile } => (*x, *y, *tile),
            _ => panic!("resampling only sets single tiles"),
        })
        .collect();
    assert_eq!(
        written,
        vec![(0, 100, Tile::StoneSapphire), (1, 100, Tile::StoneRuby), (2, 100, Tile::StoneEmerald)]
    );
}
