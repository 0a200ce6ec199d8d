use vstd::prelude::*;
use vstd::arithmetic::div_mod::lemma_fundamental_div_mod_converse;

use crate::biome::Biome;
use crate::world_renderer::{WORLD_MAP_RENDER_HEIGHT, WORLD_MAP_RENDER_WIDTH};

verus! {

/// Side length of one tile, in world pixels.
pub const TILE_LENGTH: i64 = 16;

/// Width of the game's world map, in tiles.
pub const WORLD_MAP_WIDTH: usize = 300;

/// Height of the game's world map, in tiles.
pub const WORLD_MAP_HEIGHT: usize = 300;

/// Largest number of tiles along one side of a map. Keeping each side within
/// 32 bits keeps every tile coordinate, and every world position derived from
/// one, within an `i64`.
pub const MAX_MAP_SIDE: usize = 4294967295;

/// A position in tile space. It may lie outside the map: callers check the
/// bounds before they look a tile up.
#[derive(Debug, Clone, Copy, PartialEq, Eq, Structural)]
pub struct TileCoordinate(pub i64, pub i64);

/// One cell of the world map.
///
/// `rendered_entity` holds the handle of the presentation entity that stands
/// for the tile while it is materialized. `enemy_spawned` records that the
/// tile's enemy has been brought into the world; it is never cleared.
#[derive(Debug, Clone, Copy, PartialEq, Eq)]
pub struct Tile {
    pub x: usize,
    pub y: usize,
    pub biome: Biome,
    pub rendered_entity: Option<u64>,
    pub contains_enemy: bool,
    pub enemy_spawned: bool,
}

impl Tile {
    /// The tile at `(x, y)` as a new map holds it.
    pub open spec fn fresh(x: usize, y: usize) -> Tile {
        Tile {
            x,
            y,
            biome: Biome::Grassland,
            rendered_entity: None,
            contains_enemy: false,
            enemy_spawned: false,
        }
    }

    pub fn new(x: usize, y: usize) -> (r: Tile)
        ensures
            r == Tile::fresh(x, y),
    {
        Tile {
            x,
            y,
            biome: Biome::Grassland,
            rendered_entity: None,
            contains_enemy: false,
            enemy_spawned: false,
        }
    }

    /// The tiles of a `width` by `height` map in row-major order: the tile at
    /// `(x, y)` stands at index `y * width + x`.
    pub fn generate_tile_map(width: usize, height: usize) -> (r: Vec<Tile>)
        requires
            width * height <= usize::MAX,
        ensures
            r@.len() == width * height,
            forall|i: int|
                0 <= i < r@.len() ==> {
                    &&& (#[trigger] r@[i]).x < width
                    &&& r@[i].y < height
                    &&& r@[i].x == i % width as int
                    &&& r@[i].y == i / width as int
                    &&& r@[i] == Tile::fresh(r@[i].x, r@[i].y)
                },
    {
        let mut tiles: Vec<Tile> = Vec::new();
        let mut y: usize = 0;
        while y < height
            invariant
                y <= height,
                width * height <= usize::MAX,
                tiles@.len() == y * width,
                forall|i: int|
                    0 <= i < tiles@.len() ==> {
                        &&& (#[trigger] tiles@[i]).x < width
                        &&& tiles@[i].y < height
                        &&& tiles@[i].x == i % width as int
                        &&& tiles@[i].y == i / width as int
                        &&& tiles@[i] == Tile::fresh(tiles@[i].x, tiles@[i].y)
                    },
            decreases height - y,
        {
            let mut x: usize = 0;
            while x < width
                invariant
                    x <= width,
                    y < height,
                    width * height <= usize::MAX,
                    tiles@.len() == y * width + x,
                    forall|i: int|
                        0 <= i < tiles@.len() ==> {
                            &&& (#[trigger] tiles@[i]).x < width
                            &&& tiles@[i].y < height
                            &&& tiles@[i].x == i % width as int
                            &&& tiles@[i].y == i / width as int
                            &&& tiles@[i] == Tile::fresh(tiles@[i].x, tiles@[i].y)
                        },
                decreases width - x,
            {
                proof {
                    lemma_fundamental_div_mod_converse(
                        (y * width + x) as int,
                        width as int,
                        y as int,
                        x as int,
                    );
                    assert((y + 1) * width <= height * width) by (nonlinear_arith)
                        requires
                            y < height,
                    ;
                }
                tiles.push(Tile::new(x, y));
                x = x + 1;
            }
            proof {
                assert((y + 1) * width == y * width + width) by (nonlinear_arith);
            }
            y = y + 1;
        }
        proof {
            assert(height * width == width * height) by (nonlinear_arith);
        }
        tiles
    }
}

/// Picks one of four sprite variants so that neighbouring tiles alternate:
/// odd columns add one, even rows add two.
pub fn pick_map_sprite_index(x: usize, y: usize) -> (r: usize)
    ensures
        r == (if x % 2 != 0 { 1usize } else { 0usize }) + (if y % 2 == 0 { 2usize } else { 0usize }),
        r < 4,
{
    let mut index: usize = 0;
    if x % 2 != 0 {
        index += 1;
    }
    if y % 2 == 0 {
        index += 2;
    }
    index
}

/// The mathematical content of a `WorldMap`.
pub struct MapView {
    pub width: nat,
    pub height: nat,
    pub tiles: Seq<Tile>,
}

impl MapView {
    /// The map's shape: `width * height` tiles in row-major order, each
    /// holding its own coordinates.
    pub open spec fn wf(self) -> bool {
        &&& self.width <= MAX_MAP_SIDE
        &&& self.height <= MAX_MAP_SIDE
        &&& self.tiles.len() == self.width * self.height
        &&& forall|i: int|
            0 <= i < self.tiles.len() ==> {
                &&& (#[trigger] self.tiles[i]).x < self.width
                &&& self.tiles[i].y < self.height
                &&& self.tiles[i].x == i % self.width as int
                &&& self.tiles[i].y == i / self.width as int
            }
    }

    /// The tile that world position `(0, 0)` falls in.
    pub open spec fn center(self) -> (int, int) {
        ((self.width / 2) as int, (self.height / 2) as int)
    }

    /// The tile that the world position `(px, py)` falls in (floor division).
    pub open spec fn world_to_tile(self, px: int, py: int) -> (int, int) {
        (self.center().0 + px / (TILE_LENGTH as int), self.center().1 + py / (TILE_LENGTH as int))
    }

    /// The world position of tile `(tx, ty)`.
    pub open spec fn tile_to_world(self, tx: int, ty: int) -> (int, int) {
        ((tx - self.center().0) * TILE_LENGTH, (ty - self.center().1) * TILE_LENGTH)
    }
}

/// A fixed-size grid of tiles.
pub struct WorldMap {
    tiles: Vec<Tile>,
    width: usize,
    height: usize,
}

impl View for WorldMap {
    type V = MapView;

    closed spec fn view(&self) -> MapView {
        MapView { width: self.width as nat, height: self.height as nat, tiles: self.tiles@ }
    }
}

impl WorldMap {
    pub open spec fn wf(&self) -> bool {
        self@.wf()
    }

    /// A `width` by `height` map whose tiles are all fresh grassland.
    pub fn new(width: usize, height: usize) -> (r: WorldMap)
        requires
            width <= MAX_MAP_SIDE,
            height <= MAX_MAP_SIDE,
            width * height <= usize::MAX,
        ensures
            r.wf(),
            r@.width == width,
            r@.height == height,
            r@.is_fresh(),
    {
        let tiles = Tile::generate_tile_map(width, height);
        WorldMap { tiles, width, height }
    }

    /// Number of tiles in the map.
    pub fn len(&self) -> (r: usize)
        ensures
            r == self@.tiles.len(),
    {
        self.tiles.len()
    }

    /// The tile at `(x, y)`, or `None` where `(x, y)` lies outside the map.
    pub fn get_tile(&self, x: usize, y: usize) -> (r: Option<&Tile>)
        requires
            self.wf(),
        ensures
            x < self@.width && y < self@.height ==> {
                &&& r is Some
                &&& *r.unwrap() == self@.tiles[y * self@.width + x]
                &&& r.unwrap().x == x
                &&& r.unwrap().y == y
            },
            !(x < self@.width && y < self@.height) ==> r is None,
    {
        let n = self.tiles.len();
        if x < self.width && y < self.height {
            proof {
                assert(self.height * self.width == self.width * self.height) by (nonlinear_arith);
                assert((y + 1) * self.width <= self.height * self.width) by (nonlinear_arith)
                    requires
                        y < self.height,
                ;
                assert((y + 1) * self.width == y * self.width + self.width) by (nonlinear_arith);
                lemma_fundamental_div_mod_converse(
                    (y * self.width + x) as int,
                    self.width as int,
                    y as int,
                    x as int,
                );
            }
            let index = y * self.width + x;
            Some(&self.tiles[index])
        } else {
            None
        }
    }

    /// The map's central tile, `(width / 2, height / 2)`.
    pub fn center_tile(&self) -> (r: TileCoordinate)
        requires
            self.wf(),
        ensures
            (r.0 as int, r.1 as int) == self@.center(),
    {
        TileCoordinate((self.width / 2) as i64, (self.height / 2) as i64)
    }

    /// The tile that world position `(x, y)` falls in. The result may lie
    /// outside the map.
    pub fn position_to_tile(&self, x: i64, y: i64) -> (r: TileCoordinate)
        requires
            self.wf(),
        ensures
            (r.0 as int, r.1 as int) == self@.world_to_tile(x as int, y as int),
    {
        let center = self.center_tile();
        let x_offset = tile_offset(x);
        let y_offset = tile_offset(y);
        TileCoordinate(center.0 + x_offset, center.1 + y_offset)
    }

    /// The world position of tile `(x, y)`.
    pub fn tile_to_position(&self, x: usize, y: usize) -> (r: (i64, i64))
        requires
            self.wf(),
            x <= MAX_MAP_SIDE,
            y <= MAX_MAP_SIDE,
        ensures
            (r.0 as int, r.1 as int) == self@.tile_to_world(x as int, y as int),
    {
        tile_to_position(&self.center_tile(), x, y)
    }
}

/// The number of whole tiles, rounded towards negative infinity, in `v` pixels.
fn tile_offset(v: i64) -> (r: i64)
    ensures
        r == v as int / (TILE_LENGTH as int),
        -576460752303423488 <= r < 576460752303423488,
{
    match v.checked_div_euclid(TILE_LENGTH) {
        Some(q) => q,
        None => 0,
    }
}

/// The world position of tile `(x, y)` on a map whose central tile is
/// `center_tile`.
pub fn tile_to_position(center_tile: &TileCoordinate, x: usize, y: usize) -> (r: (i64, i64))
    requires
        0 <= center_tile.0 <= MAX_MAP_SIDE,
        0 <= center_tile.1 <= MAX_MAP_SIDE,
        x <= MAX_MAP_SIDE,
        y <= MAX_MAP_SIDE,
    ensures
        r.0 == (x - center_tile.0) * TILE_LENGTH,
        r.1 == (y - center_tile.1) * TILE_LENGTH,
{
    ((x as i64 - center_tile.0) * TILE_LENGTH, (y as i64 - center_tile.1) * TILE_LENGTH)
}

/// Whether tile `(x, y)` lies in the streaming window around `center`
/// (bounds included on both ends).
pub open spec fn in_window(center: (int, int), x: int, y: int) -> bool {
    &&& center.0 - WORLD_MAP_RENDER_WIDTH <= x <= center.0 + WORLD_MAP_RENDER_WIDTH
    &&& center.1 - WORLD_MAP_RENDER_HEIGHT <= y <= center.1 + WORLD_MAP_RENDER_HEIGHT
}

/// A request to materialize the tile at `index`: draw it with `biome` at the
/// world position `(world_x, world_y)`, and, where `spawn_enemy` holds, bring
/// its enemy into the world at the same position.
#[derive(Debug, Clone, Copy, PartialEq, Eq, Structural)]
pub struct SpawnIntent {
    pub index: usize,
    pub x: usize,
    pub y: usize,
    pub biome: Biome,
    pub world_x: i64,
    pub world_y: i64,
    pub spawn_enemy: bool,
}

/// A request to destroy `entity`, the presentation of the tile at `index`.
#[derive(Debug, Clone, Copy, PartialEq, Eq, Structural)]
pub struct DespawnIntent {
    pub index: usize,
    pub x: usize,
    pub y: usize,
    pub entity: u64,
}

/// What one streamer tick asks of the presentation layer, in tile order.
#[derive(Debug, Clone, PartialEq, Eq)]
pub struct StreamUpdate {
    pub spawns: Vec<SpawnIntent>,
    pub despawns: Vec<DespawnIntent>,
}

/// Tile `t` once the presentation layer answered its spawn with `handle`;
/// `None` leaves it unmaterialized, to be retried on the next tick.
pub open spec fn materialized(t: Tile, handle: Option<u64>) -> Tile {
    Tile {
        rendered_entity: handle,
        enemy_spawned: t.enemy_spawned || (handle is Some && t.contains_enemy),
        ..t
    }
}

/// Tile `t` once its presentation entity was destroyed.
pub open spec fn dematerialized(t: Tile) -> Tile {
    Tile { rendered_entity: None, ..t }
}

impl MapView {
    /// Tile `i` is not materialized and lies in the window around `center`.
    pub open spec fn needs_spawn(self, i: int, center: (int, int)) -> bool {
        &&& self.tiles[i].rendered_entity is None
        &&& in_window(center, self.tiles[i].x as int, self.tiles[i].y as int)
    }

    /// Tile `i` is materialized and lies outside the window around `center`.
    pub open spec fn needs_despawn(self, i: int, center: (int, int)) -> bool {
        &&& self.tiles[i].rendered_entity is Some
        &&& !in_window(center, self.tiles[i].x as int, self.tiles[i].y as int)
    }

    /// The spawn intent for tile `i`: its enemy comes along only if the tile
    /// holds one that was never spawned.
    pub open spec fn spawn_intent(self, i: int) -> SpawnIntent {
        let t = self.tiles[i];
        let pos = self.tile_to_world(t.x as int, t.y as int);
        SpawnIntent {
            index: i as usize,
            x: t.x,
            y: t.y,
            biome: t.biome,
            world_x: pos.0 as i64,
            world_y: pos.1 as i64,
            spawn_enemy: t.contains_enemy && !t.enemy_spawned,
        }
    }

    /// The despawn intent for tile `i`.
    pub open spec fn despawn_intent(self, i: int) -> DespawnIntent {
        let t = self.tiles[i];
        DespawnIntent { index: i as usize, x: t.x, y: t.y, entity: t.rendered_entity.unwrap() }
    }

    /// `s` holds, in increasing tile order, one intent for each tile that
    /// needs spawning around `center`, and nothing else.
    pub open spec fn is_spawn_plan(self, center: (int, int), s: Seq<SpawnIntent>) -> bool {
        &&& forall|k: int|
            0 <= k < s.len() ==> {
                &&& 0 <= (#[trigger] s[k]).index < self.tiles.len()
                &&& self.needs_spawn(s[k].index as int, center)
                &&& s[k] == self.spawn_intent(s[k].index as int)
            }
        &&& forall|a: int, b: int| 0 <= a < b < s.len() ==> s[a].index < s[b].index
        &&& forall|i: int|
            0 <= i < self.tiles.len() && #[trigger] self.needs_spawn(i, center) ==> exists|k: int|
                0 <= k < s.len() && (#[trigger] s[k]).index == i
    }

    /// `d` holds, in increasing tile order, one intent for each tile that
    /// needs despawning around `center`, and nothing else.
    pub open spec fn is_despawn_plan(self, center: (int, int), d: Seq<DespawnIntent>) -> bool {
        &&& forall|k: int|
            0 <= k < d.len() ==> {
                &&& 0 <= (#[trigger] d[k]).index < self.tiles.len()
                &&& self.needs_despawn(d[k].index as int, center)
                &&& d[k] == self.despawn_intent(d[k].index as int)
            }
        &&& forall|a: int, b: int| 0 <= a < b < d.len() ==> d[a].index < d[b].index
        &&& forall|i: int|
            0 <= i < self.tiles.len() && #[trigger] self.needs_despawn(i, center) ==> exists|k: int|
                0 <= k < d.len() && (#[trigger] d[k]).index == i
    }

    /// The intents can be carried out on this map: every target exists, no
    /// tile is named twice, spawns name unmaterialized tiles and despawns
    /// name materialized ones.
    pub open spec fn accepts(self, s: Seq<SpawnIntent>, d: Seq<DespawnIntent>) -> bool {
        &&& forall|k: int|
            0 <= k < s.len() ==> {
                &&& 0 <= (#[trigger] s[k]).index < self.tiles.len()
                &&& self.tiles[s[k].index as int].rendered_entity is None
            }
        &&& forall|a: int, b: int| 0 <= a < b < s.len() ==> s[a].index < s[b].index
        &&& forall|k: int|
            0 <= k < d.len() ==> {
                &&& 0 <= (#[trigger] d[k]).index < self.tiles.len()
                &&& self.tiles[d[k].index as int].rendered_entity is Some
            }
        &&& forall|a: int, b: int| 0 <= a < b < d.len() ==> d[a].index < d[b].index
    }

    /// `after` is this map once the spawns `s`, answered with `handles`, and
    /// the despawns `d` were recorded; every other tile is unchanged.
    pub open spec fn applies(
        self,
        s: Seq<SpawnIntent>,
        d: Seq<DespawnIntent>,
        handles: Seq<Option<u64>>,
        after: MapView,
    ) -> bool {
        &&& after.width == self.width
        &&& after.height == self.height
        &&& after.tiles.len() == self.tiles.len()
        &&& forall|k: int|
            0 <= k < s.len() ==> #[trigger] after.tiles[s[k].index as int] == materialized(
                self.tiles[s[k].index as int],
                handles[k],
            )
        &&& forall|k: int|
            0 <= k < d.len() ==> #[trigger] after.tiles[d[k].index as int] == dematerialized(
                self.tiles[d[k].index as int],
            )
        &&& forall|i: int|
            0 <= i < self.tiles.len() && (forall|k: int| 0 <= k < s.len() ==> s[k].index != i) && (
            forall|k: int| 0 <= k < d.len() ==> d[k].index != i) ==> #[trigger] after.tiles[i]
                == self.tiles[i]
    }
}

impl WorldMap {
    /// Compares the window around the camera at world position
    /// `(camera_x, camera_y)` with what is materialized, and lists the tiles
    /// to spawn and to despawn. The map itself is not changed.
    pub fn get_tiles_for_update(&self, camera_x: i64, camera_y: i64) -> (r: StreamUpdate)
        requires
            self.wf(),
        ensures
            self@.is_spawn_plan(self@.world_to_tile(camera_x as int, camera_y as int), r.spawns@),
            self@.is_despawn_plan(
                self@.world_to_tile(camera_x as int, camera_y as int),
                r.despawns@,
            ),
    {
        let central_tile = self.position_to_tile(camera_x, camera_y);
        let ghost center = self@.world_to_tile(camera_x as int, camera_y as int);
        let left_x = central_tile.0 - WORLD_MAP_RENDER_WIDTH;
        let right_x = central_tile.0 + WORLD_MAP_RENDER_WIDTH;
        let top_y = central_tile.1 + WORLD_MAP_RENDER_HEIGHT;
        let bot_y = central_tile.1 - WORLD_MAP_RENDER_HEIGHT;

        let mut spawns: Vec<SpawnIntent> = Vec::new();
        let mut despawns: Vec<DespawnIntent> = Vec::new();
        let n = self.tiles.len();
        let mut i: usize = 0;
        while i < n
            invariant
                self.wf(),
                n == self@.tiles.len(),
                i <= n,
                left_x == center.0 - WORLD_MAP_RENDER_WIDTH,
                right_x == center.0 + WORLD_MAP_RENDER_WIDTH,
                bot_y == center.1 - WORLD_MAP_RENDER_HEIGHT,
                top_y == center.1 + WORLD_MAP_RENDER_HEIGHT,
                forall|k: int|
                    0 <= k < spawns@.len() ==> {
                        &&& 0 <= (#[trigger] spawns@[k]).index < i
                        &&& self@.needs_spawn(spawns@[k].index as int, center)
                        &&& spawns@[k] == self@.spawn_intent(spawns@[k].index as int)
                    },
                forall|a: int, b: int|
                    0 <= a < b < spawns@.len() ==> spawns@[a].index < spawns@[b].index,
                forall|j: int|
                    0 <= j < i && #[trigger] self@.needs_spawn(j, center) ==> exists|k: int|
                        0 <= k < spawns@.len() && (#[trigger] spawns@[k]).index == j,
                forall|k: int|
                    0 <= k < despawns@.len() ==> {
                        &&& 0 <= (#[trigger] despawns@[k]).index < i
                        &&& self@.needs_despawn(despawns@[k].index as int, center)
                        &&& despawns@[k] == self@.despawn_intent(despawns@[k].index as int)
                    },
                forall|a: int, b: int|
                    0 <= a < b < despawns@.len() ==> despawns@[a].index < despawns@[b].index,
                forall|j: int|
                    0 <= j < i && #[trigger] self@.needs_despawn(j, center) ==> exists|k: int|
                        0 <= k < despawns@.len() && (#[trigger] despawns@[k]).index == j,
            decreases n - i,
        {
            let tile = &self.tiles[i];
            assert(self@.tiles[i as int] == *tile);
            let ghost spawns_before = spawns@;
            let ghost despawns_before = despawns@;
            let tx = tile.x as i64;
            let ty = tile.y as i64;
            let render_tile = tx >= left_x && tx <= right_x && ty <= top_y && ty >= bot_y;
            match tile.rendered_entity {
                Some(entity) => {
                    if !render_tile {
                        let intent = DespawnIntent { index: i, x: tile.x, y: tile.y, entity };
                        despawns.push(intent);
                    }
                },
                None => {
                    if render_tile {
                        let (world_x, world_y) = self.tile_to_position(tile.x, tile.y);
                        let intent = SpawnIntent {
                            index: i,
                            x: tile.x,
                            y: tile.y,
                            biome: tile.biome,
                            world_x,
                            world_y,
                            spawn_enemy: tile.contains_enemy && !tile.enemy_spawned,
                        };
                        spawns.push(intent);
                    }
                },
            }
            proof {
                assert forall|j: int|
                    0 <= j < i + 1 && #[trigger] self@.needs_spawn(j, center) implies exists|k: int|
                        0 <= k < spawns@.len() && (#[trigger] spawns@[k]).index == j by {
                    if j < i {
                        let k = choose|k: int|
                            0 <= k < spawns_before.len() && (#[trigger] spawns_before[k]).index == j;
                        assert(spawns@[k] == spawns_before[k]);
                    } else {
                        assert(spawns@[spawns@.len() - 1].index == j);
                    }
                }
                assert forall|j: int|
                    0 <= j < i + 1 && #[trigger] self@.needs_despawn(j, center) implies exists|k: int|
                        0 <= k < despawns@.len() && (#[trigger] despawns@[k]).index == j by {
                    if j < i {
                        let k = choose|k: int|
                            0 <= k < despawns_before.len() && (#[trigger] despawns_before[k]).index
                                == j;
                        assert(despawns@[k] == despawns_before[k]);
                    } else {
                        assert(despawns@[despawns@.len() - 1].index == j);
                    }
                }
            }
            i = i + 1;
        }
        StreamUpdate { spawns, despawns }
    }

    /// Records the answer `handle` to the spawn of tile `index`.
    fn materialize(&mut self, index: usize, handle: Option<u64>)
        requires
            old(self).wf(),
            index < old(self)@.tiles.len(),
        ensures
            final(self).wf(),
            final(self)@.width == old(self)@.width,
            final(self)@.height == old(self)@.height,
            final(self)@.tiles == old(self)@.tiles.update(
                index as int,
                materialized(old(self)@.tiles[index as int], handle),
            ),
    {
        let mut tile = self.tiles[index];
        if handle.is_some() && tile.contains_enemy {
            tile.enemy_spawned = true;
        }
        tile.rendered_entity = handle;
        self.tiles.set(index, tile);
    }

    /// Clears tile `index` once its presentation entity was destroyed.
    fn dematerialize(&mut self, index: usize)
        requires
            old(self).wf(),
            index < old(self)@.tiles.len(),
        ensures
            final(self).wf(),
            final(self)@.width == old(self)@.width,
            final(self)@.height == old(self)@.height,
            final(self)@.tiles == old(self)@.tiles.update(
                index as int,
                dematerialized(old(self)@.tiles[index as int]),
            ),
    {
        let mut tile = self.tiles[index];
        tile.rendered_entity = None;
        self.tiles.set(index, tile);
    }

    /// Records the outcome of a tick: each spawn intent's tile takes the
    /// handle that the presentation layer returned for it (`None` where it
    /// could not materialize the tile), and each despawned tile is cleared.
    pub fn apply_update(&mut self, update: &StreamUpdate, spawned: &Vec<Option<u64>>)
        requires
            old(self).wf(),
            spawned@.len() == update.spawns@.len(),
            old(self)@.accepts(update.spawns@, update.despawns@),
        ensures
            final(self).wf(),
            old(self)@.applies(update.spawns@, update.despawns@, spawned@, final(self)@),
    {
        let ghost start = self@;
        let mut k: usize = 0;
        while k < update.spawns.len()
            invariant
                self.wf(),
                start.accepts(update.spawns@, update.despawns@),
                spawned@.len() == update.spawns@.len(),
                k <= update.spawns@.len(),
                self@.width == start.width,
                self@.height == start.height,
                self@.tiles.len() == start.tiles.len(),
                self@.tiles == spawns_applied(start.tiles, update.spawns@, spawned@, k as nat),
            decreases update.spawns@.len() - k,
        {
            let index = update.spawns[k].index;
            self.materialize(index, spawned[k]);
            k = k + 1;
        }
        let ghost mid = self@;
        assert(mid.tiles == spawns_applied(start.tiles, update.spawns@, spawned@, update.spawns@.len()));
        let mut k: usize = 0;
        while k < update.despawns.len()
            invariant
                self.wf(),
                start.accepts(update.spawns@, update.despawns@),
                k <= update.despawns@.len(),
                self@.width == start.width,
                self@.height == start.height,
                mid.tiles.len() == start.tiles.len(),
                self@.tiles.len() == start.tiles.len(),
                self@.tiles == despawns_applied(mid.tiles, update.despawns@, k as nat),
            decreases update.despawns@.len() - k,
        {
            let index = update.despawns[k].index;
            self.dematerialize(index);
            k = k + 1;
        }
        proof {
            lemma_apply_update(start, update.spawns@, update.despawns@, spawned@, self@);
        }
    }
}

/// The tiles once the first `k` spawn intents of `s` were answered with `h`.
pub open spec fn spawns_applied(
    tiles: Seq<Tile>,
    s: Seq<SpawnIntent>,
    h: Seq<Option<u64>>,
    k: nat,
) -> Seq<Tile>
    decreases k,
{
    if k == 0 {
        tiles
    } else {
        let prev = spawns_applied(tiles, s, h, (k - 1) as nat);
        let idx = s[k - 1].index as int;
        prev.update(idx, materialized(prev[idx], h[k - 1]))
    }
}

/// The tiles once the first `k` despawn intents of `d` were carried out.
pub open spec fn despawns_applied(tiles: Seq<Tile>, d: Seq<DespawnIntent>, k: nat) -> Seq<Tile>
    decreases k,
{
    if k == 0 {
        tiles
    } else {
        let prev = despawns_applied(tiles, d, (k - 1) as nat);
        let idx = d[k - 1].index as int;
        prev.update(idx, dematerialized(prev[idx]))
    }
}

proof fn lemma_spawns_applied(tiles: Seq<Tile>, s: Seq<SpawnIntent>, h: Seq<Option<u64>>, k: nat)
    requires
        k <= s.len(),
        k <= h.len(),
        forall|j: int| 0 <= j < s.len() ==> 0 <= (#[trigger] s[j]).index < tiles.len(),
        forall|a: int, b: int| 0 <= a < b < s.len() ==> s[a].index < s[b].index,
    ensures
        spawns_applied(tiles, s, h, k).len() == tiles.len(),
        forall|j: int|
            0 <= j < k ==> #[trigger] spawns_applied(tiles, s, h, k)[s[j].index as int]
                == materialized(tiles[s[j].index as int], h[j]),
        forall|i: int|
            0 <= i < tiles.len() && (forall|j: int| 0 <= j < k ==> s[j].index != i)
                ==> #[trigger] spawns_applied(tiles, s, h, k)[i] == tiles[i],
    decreases k,
{
    if k > 0 {
        lemma_spawns_applied(tiles, s, h, (k - 1) as nat);
        let idx = s[k - 1].index as int;
        let prev = spawns_applied(tiles, s, h, (k - 1) as nat);
        let cur = spawns_applied(tiles, s, h, k);
        assert(cur == prev.update(idx, materialized(prev[idx], h[k - 1])));
        assert forall|j: int| 0 <= j < k - 1 implies #[trigger] s[j].index != idx by {
            assert(s[j].index < s[k - 1].index);
        }
        assert(prev[idx] == tiles[idx]);
        assert forall|j: int| 0 <= j < k implies #[trigger] cur[s[j].index as int]
            == materialized(tiles[s[j].index as int], h[j]) by {
            if j < k - 1 {
                assert(s[j].index != idx);
                assert(prev[s[j].index as int] == materialized(tiles[s[j].index as int], h[j]));
            }
        }
        assert forall|i: int|
            0 <= i < tiles.len() && (forall|j: int| 0 <= j < k ==> s[j].index != i)
            implies #[trigger] cur[i] == tiles[i] by {
            assert(s[k - 1].index != i);
            assert(prev[i] == tiles[i]);
        }
    }
}

proof fn lemma_despawns_applied(tiles: Seq<Tile>, d: Seq<DespawnIntent>, k: nat)
    requires
        k <= d.len(),
        forall|j: int| 0 <= j < d.len() ==> 0 <= (#[trigger] d[j]).index < tiles.len(),
        forall|a: int, b: int| 0 <= a < b < d.len() ==> d[a].index < d[b].index,
    ensures
        despawns_applied(tiles, d, k).len() == tiles.len(),
        forall|j: int|
            0 <= j < k ==> #[trigger] despawns_applied(tiles, d, k)[d[j].index as int]
                == dematerialized(tiles[d[j].index as int]),
        forall|i: int|
            0 <= i < tiles.len() && (forall|j: int| 0 <= j < k ==> d[j].index != i)
                ==> #[trigger] despawns_applied(tiles, d, k)[i] == tiles[i],
    decreases k,
{
    if k > 0 {
        lemma_despawns_applied(tiles, d, (k - 1) as nat);
        let idx = d[k - 1].index as int;
        let prev = despawns_applied(tiles, d, (k - 1) as nat);
        let cur = despawns_applied(tiles, d, k);
        assert(cur == prev.update(idx, dematerialized(prev[idx])));
        assert forall|j: int| 0 <= j < k - 1 implies #[trigger] d[j].index != idx by {
            assert(d[j].index < d[k - 1].index);
        }
        assert(prev[idx] == tiles[idx]);
        assert forall|j: int| 0 <= j < k implies #[trigger] cur[d[j].index as int]
            == dematerialized(tiles[d[j].index as int]) by {
            if j < k - 1 {
                assert(d[j].index != idx);
                assert(prev[d[j].index as int] == dematerialized(tiles[d[j].index as int]));
            }
        }
        assert forall|i: int|
            0 <= i < tiles.len() && (forall|j: int| 0 <= j < k ==> d[j].index != i)
            implies #[trigger] cur[i] == tiles[i] by {
            assert(d[k - 1].index != i);
            assert(prev[i] == tiles[i]);
        }
    }
}

/// Spawns, then despawns, carried out one after the other give exactly the
/// per-tile outcome that `applies` describes.
proof fn lemma_apply_update(
    start: MapView,
    s: Seq<SpawnIntent>,
    d: Seq<DespawnIntent>,
    h: Seq<Option<u64>>,
    after: MapView,
)
    requires
        start.accepts(s, d),
        h.len() == s.len(),
        after.width == start.width,
        after.height == start.height,
        after.tiles == despawns_applied(spawns_applied(start.tiles, s, h, s.len()), d, d.len()),
    ensures
        start.applies(s, d, h, after),
{
    let mid_tiles = spawns_applied(start.tiles, s, h, s.len());
    lemma_spawns_applied(start.tiles, s, h, s.len());
    lemma_despawns_applied(mid_tiles, d, d.len());
    let after_tiles = despawns_applied(mid_tiles, d, d.len());
    assert forall|k: int| 0 <= k < s.len() implies #[trigger] after_tiles[s[k].index as int]
        == materialized(start.tiles[s[k].index as int], h[k]) by {
        let si = s[k].index as int;
        assert forall|m: int| 0 <= m < d.len() implies d[m].index != si by {
            assert(start.tiles[d[m].index as int].rendered_entity is Some);
        }
        assert(mid_tiles[si] == materialized(start.tiles[si], h[k]));
        assert(after_tiles[si] == mid_tiles[si]);
    }
    assert forall|k: int| 0 <= k < d.len() implies #[trigger] after_tiles[d[k].index as int]
        == dematerialized(start.tiles[d[k].index as int]) by {
        let di = d[k].index as int;
        assert forall|m: int| 0 <= m < s.len() implies s[m].index != di by {
            assert(start.tiles[s[m].index as int].rendered_entity is None);
        }
        assert(mid_tiles[di] == start.tiles[di]);
        assert(after_tiles[di] == dematerialized(mid_tiles[di]));
    }
    assert forall|i: int|
        0 <= i < start.tiles.len() && (forall|k: int| 0 <= k < s.len() ==> s[k].index != i) && (
        forall|k: int| 0 <= k < d.len() ==> d[k].index != i) implies #[trigger] after_tiles[i]
        == start.tiles[i] by {
        assert(mid_tiles[i] == start.tiles[i]);
    }
}

/// A rectangle of tiles: `x_start <= x < x_end` and `y_start <= y < y_end`.
#[derive(Debug, Clone, Copy, PartialEq, Eq, Structural)]
pub struct Region {
    pub x_start: usize,
    pub x_end: usize,
    pub y_start: usize,
    pub y_end: usize,
}

impl Region {
    pub open spec fn contains(self, x: int, y: int) -> bool {
        &&& self.x_start <= x < self.x_end
        &&& self.y_start <= y < self.y_end
    }

    pub fn new(x_start: usize, x_end: usize, y_start: usize, y_end: usize) -> (r: Region)
        ensures
            r == (Region { x_start, x_end, y_start, y_end }),
    {
        Region { x_start, x_end, y_start, y_end }
    }

    pub fn contains_tile(&self, x: usize, y: usize) -> (r: bool)
        ensures
            r == self.contains(x as int, y as int),
    {
        self.x_start <= x && x < self.x_end && self.y_start <= y && y < self.y_end
    }
}

/// A random draw is reduced modulo this to a value in per-mille.
pub const ENEMY_ROLL_RANGE: u32 = 1000;

/// Chance, in per-mille, that a generated tile holds an enemy: a draw whose
/// residue is at most this seeds one.
pub const ENEMY_DENSITY_PER_MILLE: u32 = 1;

pub open spec fn rolls_enemy(draw: u32) -> bool {
    draw % ENEMY_ROLL_RANGE <= ENEMY_DENSITY_PER_MILLE
}

/// Whether the random value `draw` seeds an enemy on a generated tile.
pub fn enemy_roll(draw: u32) -> (r: bool)
    ensures
        r == rolls_enemy(draw),
{
    draw % ENEMY_ROLL_RANGE <= ENEMY_DENSITY_PER_MILLE
}

/// Tile `t` after generation over `region` with the random value `draw`:
/// inside the region it becomes desert and may gain an enemy; outside it is
/// left as it was.
pub open spec fn seeded(t: Tile, region: Region, draw: u32) -> Tile {
    if region.contains(t.x as int, t.y as int) {
        Tile { biome: Biome::Desert, contains_enemy: t.contains_enemy || rolls_enemy(draw), ..t }
    } else {
        t
    }
}

impl MapView {
    /// Every tile is as a new map holds it.
    pub open spec fn is_fresh(self) -> bool {
        forall|i: int|
            0 <= i < self.tiles.len() ==> #[trigger] self.tiles[i] == Tile::fresh(
                self.tiles[i].x,
                self.tiles[i].y,
            )
    }

    /// `after` is this map generated over `region`, tile `i` taking the
    /// random value `draws[i]`.
    pub open spec fn seeded_with(self, region: Region, draws: Seq<u32>, after: MapView) -> bool {
        &&& after.width == self.width
        &&& after.height == self.height
        &&& draws.len() == self.tiles.len()
        &&& after.tiles.len() == self.tiles.len()
        &&& forall|i: int|
            0 <= i < self.tiles.len() ==> #[trigger] after.tiles[i] == seeded(
                self.tiles[i],
                region,
                draws[i],
            )
    }

    /// `after` is this map generated over `region` with some random values.
    pub open spec fn generates(self, region: Region, after: MapView) -> bool {
        exists|draws: Seq<u32>| self.seeded_with(region, draws, after)
    }
}

impl WorldMap {
    /// Generates the tiles of `region` from the given random values: each
    /// becomes desert, and tile `i` gains an enemy where `draws[i]` rolls one.
    pub fn seed_region(&mut self, region: &Region, draws: &Vec<u32>)
        requires
            old(self).wf(),
            draws@.len() == old(self)@.tiles.len(),
        ensures
            final(self).wf(),
            old(self)@.seeded_with(*region, draws@, final(self)@),
    {
        let ghost start = self@;
        let n = self.tiles.len();
        let mut i: usize = 0;
        while i < n
            invariant
                start.wf(),
                n == start.tiles.len(),
                draws@.len() == n,
                i <= n,
                self@.width == start.width,
                self@.height == start.height,
                self@.tiles.len() == n,
                forall|j: int|
                    0 <= j < i ==> #[trigger] self@.tiles[j] == seeded(
                        start.tiles[j],
                        *region,
                        draws@[j],
                    ),
                forall|j: int| i <= j < n ==> #[trigger] self@.tiles[j] == start.tiles[j],
            decreases n - i,
        {
            let mut tile = self.tiles[i];
            if region.contains_tile(tile.x, tile.y) {
                tile.biome = Biome::Desert;
                if enemy_roll(draws[i]) {
                    tile.contains_enemy = true;
                }
                self.tiles.set(i, tile);
            }
            i = i + 1;
        }
        assert forall|j: int| 0 <= j < n implies #[trigger] self@.tiles[j].x == start.tiles[j].x
            && self@.tiles[j].y == start.tiles[j].y by {
            assert(self@.tiles[j] == seeded(start.tiles[j], *region, draws@[j]));
        }
    }
}

impl MapView {
    /// One streamer tick around `center`: `s` and `d` are the tick's plan,
    /// `handles` the presentation layer's answers to the spawns, and `after`
    /// the map once they were recorded.
    pub open spec fn ticks_to(
        self,
        center: (int, int),
        s: Seq<SpawnIntent>,
        d: Seq<DespawnIntent>,
        handles: Seq<Option<u64>>,
        after: MapView,
    ) -> bool {
        &&& self.is_spawn_plan(center, s)
        &&& self.is_despawn_plan(center, d)
        &&& handles.len() == s.len()
        &&& self.applies(s, d, handles, after)
    }
}

/// The number of intents in `s` that bring the enemy of tile `i` into the world.
pub open spec fn enemy_intents(s: Seq<SpawnIntent>, i: int) -> nat
    decreases s.len(),
{
    if s.len() == 0 {
        0
    } else {
        enemy_intents(s.drop_last(), i) + if s.last().index == i && s.last().spawn_enemy {
            1nat
        } else {
            0nat
        }
    }
}

} // verus!
