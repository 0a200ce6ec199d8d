use automagical::{
    enemy_roll, generate_world, pick_map_sprite_index, plan_frame, tile_to_position, Biome,
    Region, StreamUpdate, Tile, TileCoordinate, World, WorldMap, WORLD_MAP_HEIGHT,
    WORLD_MAP_RENDER_HEIGHT, WORLD_MAP_RENDER_WIDTH, WORLD_MAP_WIDTH,
};

fn all_handles(update: &StreamUpdate, first: u64) -> Vec<Option<u64>> {
    (0..update.spawns.len()).map(|k| Some(first + k as u64)).collect()
}

fn materialized_count(map: &WorldMap, width: usize, height: usize) -> usize {
    let mut n = 0;
    for y in 0..height {
        for x in 0..width {
            if map.get_tile(x, y).unwrap().rendered_entity.is_some() {
                n += 1;
            }
        }
    }
    n
}

#[test]
fn test_tile_map_generation() {
    let tile_map = Tile::generate_tile_map(10, 20);

    let tile_0 = tile_map.get(4).unwrap();
    assert_eq!(4, tile_0.x);
    assert_eq!(0, tile_0.y);

    let tile_1 = tile_map.get(15 * 10 + 5).unwrap();
    assert_eq!(5, tile_1.x);
    assert_eq!(15, tile_1.y);
}

#[test]
fn test_pick_map_sprite_index() {
    assert_eq!(2, pick_map_sprite_index(0, 0));
    assert_eq!(3, pick_map_sprite_index(1, 0));
    assert_eq!(2, pick_map_sprite_index(2, 0));
    assert_eq!(3, pick_map_sprite_index(3, 0));

    assert_eq!(0, pick_map_sprite_index(0, 1));
    assert_eq!(1, pick_map_sprite_index(1, 1));

    assert_eq!(2, pick_map_sprite_index(0, 2));
    assert_eq!(3, pick_map_sprite_index(1, 2));
}

#[test]
fn world_map_test_get_tile() {
    let wm = WorldMap::new(50, 50);
    let tile = wm.get_tile(12, 15).unwrap();
    assert_eq!(12, tile.x);
    assert_eq!(15, tile.y);
}

#[test]
fn get_tile_outside_the_map_is_none() {
    let wm = WorldMap::new(10, 20);
    assert!(wm.get_tile(10, 0).is_none());
    assert!(wm.get_tile(0, 20).is_none());
    assert!(wm.get_tile(9, 19).is_some());
    assert_eq!(200, wm.len());
}

#[test]
fn new_map_is_grassland_without_enemies() {
    let wm = WorldMap::new(4, 3);
    for y in 0..3 {
        for x in 0..4 {
            let t = wm.get_tile(x, y).unwrap();
            assert_eq!(Biome::Grassland, t.biome);
            assert!(!t.contains_enemy);
            assert!(!t.enemy_spawned);
            assert_eq!(None, t.rendered_entity);
        }
    }
}

#[test]
fn empty_map_streams_nothing() {
    let wm = WorldMap::new(0, 0);
    let update = wm.get_tiles_for_update(0, 0);
    assert!(update.spawns.is_empty());
    assert!(update.despawns.is_empty());
}

#[test]
fn center_and_position_mapping() {
    let wm = WorldMap::new(WORLD_MAP_WIDTH, WORLD_MAP_HEIGHT);
    assert_eq!(TileCoordinate(150, 150), wm.center_tile());
    assert_eq!(TileCoordinate(150, 150), wm.position_to_tile(0, 0));
    assert_eq!(TileCoordinate(150, 150), wm.position_to_tile(15, 15));
    assert_eq!(TileCoordinate(151, 152), wm.position_to_tile(16, 47));
    // floor division: one pixel left of the origin is in the previous tile
    assert_eq!(TileCoordinate(149, 149), wm.position_to_tile(-1, -16));
    assert_eq!(TileCoordinate(148, 150), wm.position_to_tile(-17, 0));
    // far away positions map outside the map
    assert_eq!(TileCoordinate(-850, 1150), wm.position_to_tile(-16000, 16000));
    assert_eq!((-2400, 1584), wm.tile_to_position(0, 249));
    assert_eq!((32, -48), tile_to_position(&TileCoordinate(5, 5), 7, 2));
}

#[test]
fn odd_sized_map_center_rounds_down() {
    let wm = WorldMap::new(7, 5);
    assert_eq!(TileCoordinate(3, 2), wm.center_tile());
}

#[test]
fn tile_position_round_trip() {
    let wm = WorldMap::new(40, 30);
    for y in 0..30 {
        for x in 0..40 {
            let (px, py) = wm.tile_to_position(x, y);
            assert_eq!(TileCoordinate(x as i64, y as i64), wm.position_to_tile(px, py));
        }
    }
}

#[test]
fn first_tick_at_origin_spawns_the_window() {
    let mut wm = WorldMap::new(300, 300);
    let update = wm.get_tiles_for_update(0, 0);
    assert_eq!(567, update.spawns.len());
    assert_eq!(0, update.despawns.len());
    let first = update.spawns[0];
    assert_eq!((137, 140), (first.x, first.y));
    assert_eq!(137 + 140 * 300, first.index);
    assert_eq!((-13 * 16, -10 * 16), (first.world_x, first.world_y));
    let last = update.spawns[566];
    assert_eq!((163, 160), (last.x, last.y));
    let handles = all_handles(&update, 1);
    wm.apply_update(&update, &handles);
    assert_eq!(567, materialized_count(&wm, 300, 300));
}

#[test]
fn window_coverage_after_one_tick() {
    let mut wm = WorldMap::new(60, 50);
    // camera tile (40, 2): near the bottom edge, so the window is clipped
    let update = wm.get_tiles_for_update(10 * 16 + 3, -23 * 16);
    let handles = all_handles(&update, 100);
    wm.apply_update(&update, &handles);
    let (cx, cy) = (40i64, 2i64);
    for y in 0..50usize {
        for x in 0..60usize {
            let inside = (x as i64 - cx).abs() <= WORLD_MAP_RENDER_WIDTH
                && (y as i64 - cy).abs() <= WORLD_MAP_RENDER_HEIGHT;
            assert_eq!(inside, wm.get_tile(x, y).unwrap().rendered_entity.is_some());
        }
    }
    assert_eq!(27 * 13, materialized_count(&wm, 60, 50));
}

#[test]
fn second_tick_at_same_camera_is_idle() {
    let mut wm = WorldMap::new(100, 100);
    let update = wm.get_tiles_for_update(40, -70);
    let handles = all_handles(&update, 1);
    wm.apply_update(&update, &handles);
    let again = wm.get_tiles_for_update(40, -70);
    assert!(again.spawns.is_empty());
    assert!(again.despawns.is_empty());
}

#[test]
fn moving_camera_despawns_what_left_the_window() {
    let mut wm = WorldMap::new(100, 100);
    let update = wm.get_tiles_for_update(0, 0);
    let handles = all_handles(&update, 1);
    wm.apply_update(&update, &handles);
    // one tile to the right: the leftmost column leaves, a new column enters
    let step = wm.get_tiles_for_update(16, 0);
    assert_eq!(21, step.spawns.len());
    assert_eq!(21, step.despawns.len());
    assert!(step.spawns.iter().all(|s| s.x == 64));
    assert!(step.despawns.iter().all(|d| d.x == 37));
    let old_entity = wm.get_tile(37, 50).unwrap().rendered_entity.unwrap();
    assert!(step.despawns.iter().any(|d| d.entity == old_entity && d.y == 50));
    let handles = all_handles(&step, 1000);
    wm.apply_update(&step, &handles);
    assert_eq!(None, wm.get_tile(37, 50).unwrap().rendered_entity);
    assert!(wm.get_tile(64, 50).unwrap().rendered_entity.is_some());
}

#[test]
fn failed_spawn_is_retried_next_tick() {
    let mut wm = WorldMap::new(100, 100);
    let update = wm.get_tiles_for_update(0, 0);
    let mut handles = all_handles(&update, 1);
    handles[0] = None;
    let failed = update.spawns[0];
    wm.apply_update(&update, &handles);
    assert_eq!(None, wm.get_tile(failed.x, failed.y).unwrap().rendered_entity);
    let retry = wm.get_tiles_for_update(0, 0);
    assert_eq!(1, retry.spawns.len());
    assert_eq!(failed, retry.spawns[0]);
    assert!(retry.despawns.is_empty());
}

#[test]
fn enemy_is_spawned_only_once() {
    let mut wm = WorldMap::new(100, 100);
    // draw 0 rolls an enemy; the region is the single tile (55, 50)
    let region = Region::new(55, 56, 50, 51);
    wm.seed_region(&region, &vec![0; wm.len()]);
    assert!(wm.get_tile(55, 50).unwrap().contains_enemy);
    assert!(!wm.get_tile(54, 50).unwrap().contains_enemy);

    let mut enemy_intents = 0;
    // enter, leave, enter again
    for camera_x in [0i64, 60 * 16, 0] {
        let update = wm.get_tiles_for_update(camera_x, 0);
        enemy_intents += update
            .spawns
            .iter()
            .filter(|s| s.x == 55 && s.y == 50 && s.spawn_enemy)
            .count();
        let handles = all_handles(&update, 1);
        wm.apply_update(&update, &handles);
    }
    assert_eq!(1, enemy_intents);
    assert!(wm.get_tile(55, 50).unwrap().enemy_spawned);
}

#[test]
fn enemy_roll_threshold() {
    assert!(enemy_roll(0));
    assert!(enemy_roll(1));
    assert!(!enemy_roll(2));
    assert!(!enemy_roll(999));
    assert!(enemy_roll(1000));
    assert!(enemy_roll(2001));
    assert!(!enemy_roll(u32::MAX));
}

#[test]
fn seeding_assigns_desert_and_enemies_from_draws() {
    let mut wm = WorldMap::new(10, 8);
    let region = Region::new(2, 5, 3, 6);
    let draws: Vec<u32> = (0..80u32).map(|i| if i % 7 == 0 { 1000 } else { 5 }).collect();
    wm.seed_region(&region, &draws);
    for y in 0..8usize {
        for x in 0..10usize {
            let t = wm.get_tile(x, y).unwrap();
            let inside = (2..5).contains(&x) && (3..6).contains(&y);
            let expected = if inside { Biome::Desert } else { Biome::Grassland };
            assert_eq!(expected, t.biome);
            assert_eq!(inside && (y * 10 + x) % 7 == 0, t.contains_enemy);
        }
    }
}

#[test]
fn generated_biomes_do_not_depend_on_draws() {
    let region = Region::new(200, 300, 125, 175);
    let mut first = WorldMap::new(300, 300);
    let mut second = WorldMap::new(300, 300);
    generate_world(&mut first, &region);
    generate_world(&mut second, &region);
    for y in (0..300usize).step_by(7) {
        for x in (0..300usize).step_by(3) {
            let inside = x >= 200 && (125..175).contains(&y);
            let expected = if inside { Biome::Desert } else { Biome::Grassland };
            assert_eq!(expected, first.get_tile(x, y).unwrap().biome);
            assert_eq!(expected, second.get_tile(x, y).unwrap().biome);
            if !inside {
                assert!(!first.get_tile(x, y).unwrap().contains_enemy);
            }
        }
    }
}

#[test]
fn frame_waits_for_assets_then_spawns_player_once() {
    let wm = WorldMap::new(50, 50);
    let mut world = World::new();
    let idle = plan_frame(&mut world, &wm, false, Some((0, 0)));
    assert!(!idle.spawn_player);
    assert!(idle.update.spawns.is_empty());
    assert!(!world.generated);

    let first = plan_frame(&mut world, &wm, true, Some((0, 0)));
    assert!(first.spawn_player);
    assert!(world.generated);
    assert_eq!(wm.get_tiles_for_update(0, 0), first.update);

    let second = plan_frame(&mut world, &wm, true, None);
    assert!(!second.spawn_player);
    assert!(second.update.spawns.is_empty());
    assert!(second.update.despawns.is_empty());
}
