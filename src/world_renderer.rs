use vstd::prelude::*;

use crate::world_map::{Region, StreamUpdate, WorldMap};

verus! {

/// Half-width of the streaming window, in tiles.
pub const WORLD_MAP_RENDER_WIDTH: i64 = 13;

/// Half-height of the streaming window, in tiles.
pub const WORLD_MAP_RENDER_HEIGHT: i64 = 10;

/// First column of the desert that the game generates.
pub const DESERT_X_START: usize = 200;

/// Column past the last one of the desert.
pub const DESERT_X_END: usize = 300;

/// First row of the desert.
pub const DESERT_Y_START: usize = 125;

/// Row past the last one of the desert.
pub const DESERT_Y_END: usize = 175;

/// Relies on `rand::random::<u32>`: a value drawn from the thread-local
/// generator. Nothing is known of which value comes back.
#[verifier::external_body]
fn random_draw() -> (r: u32) {
    rand::random::<u32>()
}

/// Generates the world once, before the first streamer tick: every tile of
/// `region` becomes desert and may gain an enemy, by fresh random draws.
/// Whatever the draws, the result is the map seeded over `region` with some
/// random values.
pub fn generate_world(world_map: &mut WorldMap, region: &Region)
    requires
        old(world_map).wf(),
    ensures
        final(world_map).wf(),
        old(world_map)@.generates(*region, final(world_map)@),
{
    let n = world_map.len();
    let mut draws: Vec<u32> = Vec::new();
    while draws.len() < n
        invariant
            draws@.len() <= n,
        decreases n - draws@.len(),
    {
        draws.push(random_draw());
    }
    world_map.seed_region(region, &draws);
}

/// The lifecycle of the world: it becomes generated on the first frame in
/// which the assets are loaded.
#[derive(Debug, Clone, Copy, PartialEq, Eq, Structural)]
pub struct World {
    pub generated: bool,
}

impl World {
    pub fn new() -> (r: World)
        ensures
            !r.generated,
    {
        World { generated: false }
    }
}

/// What one frame asks of the presentation layer.
#[derive(Debug, Clone, PartialEq, Eq)]
pub struct FramePlan {
    /// The player's builder must be spawned now.
    pub spawn_player: bool,
    /// The tiles to spawn and despawn around the camera.
    pub update: StreamUpdate,
}

/// Decides one frame. Nothing happens until the assets are loaded; on the
/// first frame that they are, the player is spawned; and whenever a camera
/// stands at `camera`, the tiles around it are streamed.
pub fn plan_frame(
    world: &mut World,
    world_map: &WorldMap,
    assets_loaded: bool,
    camera: Option<(i64, i64)>,
) -> (r: FramePlan)
    requires
        world_map.wf(),
    ensures
        r.spawn_player == (assets_loaded && !old(world).generated),
        final(world).generated == (old(world).generated || assets_loaded),
        assets_loaded && camera is Some ==> {
            let center = world_map@.world_to_tile(
                camera.unwrap().0 as int,
                camera.unwrap().1 as int,
            );
            &&& world_map@.is_spawn_plan(center, r.update.spawns@)
            &&& world_map@.is_despawn_plan(center, r.update.despawns@)
        },
        !(assets_loaded && camera is Some) ==> r.update.spawns@.len() == 0
            && r.update.despawns@.len() == 0,
{
    let mut spawn_player = false;
    if assets_loaded && !world.generated {
        spawn_player = true;
        world.generated = true;
    }
    let update = match camera {
        Some((camera_x, camera_y)) if assets_loaded => world_map.get_tiles_for_update(
            camera_x,
            camera_y,
        ),
        _ => StreamUpdate { spawns: Vec::new(), despawns: Vec::new() },
    };
    FramePlan { spawn_player, update }
}

} // verus!
