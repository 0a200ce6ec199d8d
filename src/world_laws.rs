use vstd::prelude::*;
use vstd::arithmetic::div_mod::lemma_fundamental_div_mod_converse;

use crate::biome::Biome;
use crate::world_map::{
    dematerialized, enemy_intents, in_window, materialized, DespawnIntent, MapView, Region,
    SpawnIntent, Tile,
};

verus! {

/// Mapping a tile of the map to its world position and back gives the same tile.
pub proof fn lemma_tile_round_trip(map: MapView, tx: int, ty: int)
    requires
        map.wf(),
        0 <= tx < map.width,
        0 <= ty < map.height,
    ensures
        map.world_to_tile(map.tile_to_world(tx, ty).0, map.tile_to_world(tx, ty).1) == (tx, ty),
{
    let c = map.center();
    lemma_fundamental_div_mod_converse((tx - c.0) * 16, 16, tx - c.0, 0);
    lemma_fundamental_div_mod_converse((ty - c.1) * 16, 16, ty - c.1, 0);
}

/// What one tick does to tile `i`: it keeps its place, terrain and enemy;
/// it is materialized with its answer if it needed spawning, cleared if it
/// needed despawning, and otherwise left alone.
pub proof fn lemma_tick_tile(
    before: MapView,
    center: (int, int),
    s: Seq<SpawnIntent>,
    d: Seq<DespawnIntent>,
    h: Seq<Option<u64>>,
    after: MapView,
    i: int,
)
    requires
        before.ticks_to(center, s, d, h, after),
        0 <= i < before.tiles.len(),
    ensures
        after.tiles[i].x == before.tiles[i].x,
        after.tiles[i].y == before.tiles[i].y,
        after.tiles[i].biome == before.tiles[i].biome,
        after.tiles[i].contains_enemy == before.tiles[i].contains_enemy,
        before.needs_spawn(i, center) ==> exists|k: int|
            0 <= k < s.len() && s[k].index == i && #[trigger] after.tiles[s[k].index as int]
                == materialized(before.tiles[i], h[k]),
        before.needs_despawn(i, center) ==> after.tiles[i] == dematerialized(before.tiles[i]),
        !before.needs_spawn(i, center) && !before.needs_despawn(i, center) ==> after.tiles[i]
            == before.tiles[i],
        forall|k: int| 0 <= k < s.len() && s[k].index == i ==> before.needs_spawn(i, center),
{
    if before.needs_spawn(i, center) {
        let k = choose|k: int| 0 <= k < s.len() && (#[trigger] s[k]).index == i;
        assert(after.tiles[s[k].index as int] == materialized(before.tiles[i], h[k]));
    } else if before.needs_despawn(i, center) {
        let k = choose|k: int| 0 <= k < d.len() && (#[trigger] d[k]).index == i;
        assert(after.tiles[d[k].index as int] == dematerialized(before.tiles[i]));
    } else {
        assert forall|k: int| 0 <= k < s.len() implies s[k].index != i by {
            assert(before.needs_spawn(s[k].index as int, center));
        }
        assert forall|k: int| 0 <= k < d.len() implies d[k].index != i by {
            assert(before.needs_despawn(d[k].index as int, center));
        }
    }
    assert forall|k: int| 0 <= k < s.len() && s[k].index == i implies before.needs_spawn(
        i,
        center,
    ) by {
        assert(before.needs_spawn(s[k].index as int, center));
    }
}

/// After one tick in which every spawn succeeded, exactly the tiles inside
/// the window around the camera tile are materialized.
pub proof fn lemma_window_coverage(
    before: MapView,
    center: (int, int),
    s: Seq<SpawnIntent>,
    d: Seq<DespawnIntent>,
    h: Seq<Option<u64>>,
    after: MapView,
)
    requires
        before.ticks_to(center, s, d, h, after),
        forall|k: int| 0 <= k < h.len() ==> h[k] is Some,
    ensures
        forall|i: int|
            0 <= i < after.tiles.len() ==> ((#[trigger] after.tiles[i]).rendered_entity is Some
                <==> in_window(center, after.tiles[i].x as int, after.tiles[i].y as int)),
{
    assert forall|i: int| 0 <= i < after.tiles.len() implies ((
    #[trigger] after.tiles[i]).rendered_entity is Some <==> in_window(
        center,
        after.tiles[i].x as int,
        after.tiles[i].y as int,
    )) by {
        lemma_tick_tile(before, center, s, d, h, after, i);
        if before.needs_spawn(i, center) {
            let k = choose|k: int|
                0 <= k < s.len() && s[k].index == i && #[trigger] after.tiles[s[k].index as int]
                    == materialized(before.tiles[i], h[k]);
            assert(h[k] is Some);
        }
    }
}

/// A second tick at an unchanged camera tile, after a tick in which every
/// spawn succeeded, asks for nothing.
pub proof fn lemma_second_tick_is_idle(
    before: MapView,
    center: (int, int),
    s1: Seq<SpawnIntent>,
    d1: Seq<DespawnIntent>,
    h1: Seq<Option<u64>>,
    mid: MapView,
    s2: Seq<SpawnIntent>,
    d2: Seq<DespawnIntent>,
)
    requires
        before.ticks_to(center, s1, d1, h1, mid),
        forall|k: int| 0 <= k < h1.len() ==> h1[k] is Some,
        mid.is_spawn_plan(center, s2),
        mid.is_despawn_plan(center, d2),
    ensures
        s2.len() == 0,
        d2.len() == 0,
{
    lemma_window_coverage(before, center, s1, d1, h1, mid);
    if s2.len() > 0 {
        let i = s2[0].index as int;
        assert(mid.needs_spawn(i, center));
        assert(mid.tiles[i].rendered_entity is Some);
    }
    if d2.len() > 0 {
        let i = d2[0].index as int;
        assert(mid.needs_despawn(i, center));
        assert(mid.tiles[i].rendered_entity is None);
    }
}

proof fn lemma_no_enemy_intents(s: Seq<SpawnIntent>, i: int)
    requires
        forall|k: int| 0 <= k < s.len() ==> !((#[trigger] s[k]).index == i && s[k].spawn_enemy),
    ensures
        enemy_intents(s, i) == 0,
    decreases s.len(),
{
    if s.len() > 0 {
        let rest = s.drop_last();
        assert forall|k: int| 0 <= k < rest.len() implies !((#[trigger] rest[k]).index == i
            && rest[k].spawn_enemy) by {
            assert(rest[k] == s[k]);
        }
        lemma_no_enemy_intents(rest, i);
        assert(s.last() == s[s.len() - 1]);
    }
}

proof fn lemma_one_enemy_intent(s: Seq<SpawnIntent>, i: int, k0: int)
    requires
        forall|a: int, b: int| 0 <= a < b < s.len() ==> s[a].index < s[b].index,
        0 <= k0 < s.len(),
        s[k0].index == i,
        s[k0].spawn_enemy,
    ensures
        enemy_intents(s, i) == 1,
    decreases s.len(),
{
    let rest = s.drop_last();
    let last = s.len() - 1;
    assert(s.last() == s[last]);
    if k0 == last {
        assert forall|k: int| 0 <= k < rest.len() implies !((#[trigger] rest[k]).index == i
            && rest[k].spawn_enemy) by {
            assert(rest[k] == s[k]);
            assert(s[k].index < s[last].index);
        }
        lemma_no_enemy_intents(rest, i);
    } else {
        assert(s[k0].index < s[last].index);
        assert forall|a: int, b: int| 0 <= a < b < rest.len() implies rest[a].index
            < rest[b].index by {
            assert(rest[a] == s[a] && rest[b] == s[b]);
        }
        assert(rest[k0] == s[k0]);
        lemma_one_enemy_intent(rest, i, k0);
    }
}

/// A tile holding an enemy that the window enters, leaves, and enters again
/// brings its enemy into the world exactly once over the three ticks,
/// provided its spawn on first entry succeeded.
pub proof fn lemma_enemy_spawned_once(
    m0: MapView,
    i: int,
    c1: (int, int),
    s1: Seq<SpawnIntent>,
    d1: Seq<DespawnIntent>,
    h1: Seq<Option<u64>>,
    m1: MapView,
    c2: (int, int),
    s2: Seq<SpawnIntent>,
    d2: Seq<DespawnIntent>,
    h2: Seq<Option<u64>>,
    m2: MapView,
    c3: (int, int),
    s3: Seq<SpawnIntent>,
    d3: Seq<DespawnIntent>,
    h3: Seq<Option<u64>>,
    m3: MapView,
)
    requires
        0 <= i < m0.tiles.len(),
        m0.tiles[i].contains_enemy,
        !m0.tiles[i].enemy_spawned,
        m0.tiles[i].rendered_entity is None,
        m0.ticks_to(c1, s1, d1, h1, m1),
        in_window(c1, m0.tiles[i].x as int, m0.tiles[i].y as int),
        forall|k: int| 0 <= k < s1.len() && s1[k].index == i ==> h1[k] is Some,
        m1.ticks_to(c2, s2, d2, h2, m2),
        !in_window(c2, m0.tiles[i].x as int, m0.tiles[i].y as int),
        m2.ticks_to(c3, s3, d3, h3, m3),
        in_window(c3, m0.tiles[i].x as int, m0.tiles[i].y as int),
    ensures
        enemy_intents(s1, i) == 1,
        enemy_intents(s2, i) == 0,
        enemy_intents(s3, i) == 0,
        enemy_intents(s1, i) + enemy_intents(s2, i) + enemy_intents(s3, i) == 1,
{
    // first entry: the tile is spawned together with its enemy
    lemma_tick_tile(m0, c1, s1, d1, h1, m1, i);
    assert(m0.needs_spawn(i, c1));
    let k1 = choose|k: int|
        0 <= k < s1.len() && s1[k].index == i && #[trigger] m1.tiles[s1[k].index as int]
            == materialized(m0.tiles[i], h1[k]);
    assert(s1[k1] == m0.spawn_intent(i));
    lemma_one_enemy_intent(s1, i, k1);
    assert(m1.tiles[i].enemy_spawned);
    assert(m1.tiles[i].rendered_entity is Some);

    // exit: the tile is despawned and no intent names it
    lemma_tick_tile(m1, c2, s2, d2, h2, m2, i);
    assert(m1.needs_despawn(i, c2));
    assert forall|k: int| 0 <= k < s2.len() implies !((#[trigger] s2[k]).index == i
        && s2[k].spawn_enemy) by {
        if s2[k].index == i {
            assert(m1.needs_spawn(i, c2));
        }
    }
    lemma_no_enemy_intents(s2, i);
    assert(m2.tiles[i].enemy_spawned);

    // re-entry: the tile is spawned again, without its enemy
    lemma_tick_tile(m2, c3, s3, d3, h3, m3, i);
    assert forall|k: int| 0 <= k < s3.len() implies !((#[trigger] s3[k]).index == i
        && s3[k].spawn_enemy) by {
        if s3[k].index == i {
            assert(s3[k] == m2.spawn_intent(i));
        }
    }
    lemma_no_enemy_intents(s3, i);
}

/// Generation over a fresh map assigns biomes whatever the random draws:
/// every tile inside the region is desert and every other tile is grassland.
pub proof fn lemma_generated_biomes(fresh: MapView, region: Region, after: MapView)
    requires
        fresh.is_fresh(),
        fresh.generates(region, after),
    ensures
        forall|i: int|
            0 <= i < after.tiles.len() ==> (#[trigger] after.tiles[i]).biome == if region.contains(
                after.tiles[i].x as int,
                after.tiles[i].y as int,
            ) {
                Biome::Desert
            } else {
                Biome::Grassland
            },
{
    let draws = choose|draws: Seq<u32>| fresh.seeded_with(region, draws, after);
    assert forall|i: int| 0 <= i < after.tiles.len() implies (#[trigger] after.tiles[i]).biome
        == if region.contains(after.tiles[i].x as int, after.tiles[i].y as int) {
        Biome::Desert
    } else {
        Biome::Grassland
    } by {
        assert(fresh.tiles[i] == Tile::fresh(fresh.tiles[i].x, fresh.tiles[i].y));
        assert(after.tiles[i] == crate::world_map::seeded(fresh.tiles[i], region, draws[i]));
    }
}

} // verus!
