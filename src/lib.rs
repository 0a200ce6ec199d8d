//! A streaming tile world: a fixed grid of tiles, the mapping between world
//! pixels and tile coordinates, a one-shot world generator, and the viewport
//! streamer that decides which tiles are materialized around the camera.
//! Alongside it stand the game's plain data tables (assets, inventory slots,
//! orientations and units).

mod biome;
mod data;
mod enemy;
mod inventory;
mod physics;
mod weapon;
mod world_laws;
mod world_map;
mod world_renderer;

pub use biome::Biome;
pub use data::{
    all_asset_groups, all_base_assets, default_tile_size, get_asset_group_info, get_asset_info,
    get_asset_sprite_path, AssetGroup, AssetGroupInfo, AssetInfo, AssetType,
};
pub use enemy::Enemy;
pub use inventory::{HotbarIndex, HotbarItemSlot, ItemSlot, ItemType};
pub use physics::Orientation;
pub use weapon::{ProjectileType, WeaponType};
pub use world_laws::{
    lemma_enemy_spawned_once, lemma_generated_biomes, lemma_second_tick_is_idle,
    lemma_tick_tile, lemma_tile_round_trip, lemma_window_coverage,
};
pub use world_map::{
    enemy_roll, pick_map_sprite_index, tile_to_position, DespawnIntent, MapView, Region,
    SpawnIntent, StreamUpdate, Tile, TileCoordinate, WorldMap, ENEMY_DENSITY_PER_MILLE,
    ENEMY_ROLL_RANGE, MAX_MAP_SIDE, TILE_LENGTH, WORLD_MAP_HEIGHT, WORLD_MAP_WIDTH,
};
pub use world_renderer::{
    generate_world, plan_frame, FramePlan, World, DESERT_X_END, DESERT_X_START, DESERT_Y_END,
    DESERT_Y_START, WORLD_MAP_RENDER_HEIGHT, WORLD_MAP_RENDER_WIDTH,
};
