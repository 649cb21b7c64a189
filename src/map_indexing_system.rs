use vstd::prelude::*;
use crate::entity::Entity;
use crate::map::{GameMap, TileType};
use crate::schedule::SystemId;
use crate::world::{World, WorldModel};

verus! {

/// Whether `e` stands on the tile with index `i`.
pub open spec fn stands_at(m: WorldModel, map: &GameMap, e: Entity, i: int) -> bool {
    match m.data[e].position {
        Some(p) => map.in_bounds(p.x as int, p.y as int) && map.idx(p.x as int, p.y as int) == i,
        None => false,
    }
}

pub open spec fn stands_pred(m: WorldModel, map: &GameMap, i: int) -> spec_fn(Entity) -> bool {
    |e: Entity| stands_at(m, map, e, i)
}

pub fn build() -> (r: SystemId)
    ensures
        r == SystemId::MapIndexing,
{
    SystemId::MapIndexing
}

/// What indexing does to the map: each tile lists the entities on it, in
/// spawn order, and is blocked when it is a wall or holds a blocker.
pub open spec fn indexing_ran(w: WorldModel, m0: GameMap, m1: GameMap) -> bool {
    &&& m1.tiles == m0.tiles
    &&& m1.width == m0.width
    &&& m1.height == m0.height
    &&& forall|i: int|
        0 <= i < m1.size() ==> (#[trigger] m1.tile_content@[i])@ == w.entities.filter(stands_pred(w, &m0, i))
    &&& forall|i: int|
        0 <= i < m1.size() ==> #[trigger] m1.blocked@[i] == (m1.tiles@[i] == TileType::Wall || exists|j: int|
            0 <= j < w.entities.len() && stands_at(w, &m0, w.entities[j], i)
                && (#[trigger] w.data[w.entities[j]]).blocks_tile is Some)
}

/// Rebuilds the occupancy index: each tile lists the entities standing on
/// it, in spawn order, and a tile is blocked when it is a wall or holds an
/// entity that blocks.
pub fn run(world: &World, map: &mut GameMap)
    requires
        world.wf(),
        old(map).wf(),
    ensures
        final(map).wf(),
        indexing_ran(world@, *old(map), *final(map)),
{
    let ghost m = world@;
    let ghost map0 = *map;
    map.populate_blocked();
    map.clear_content_index();
    proof {
        world.lemma_inv();
    }
    let es = world.entities();
    let mut k: usize = 0;
    while k < es.len()
        invariant
            world.wf(),
            m == world@,
            m.inv(),
            es@ == m.entities,
            k <= es@.len(),
            map.wf(),
            map.tiles == map0.tiles,
            map.width == map0.width,
            map.height == map0.height,
            forall|i: int|
                0 <= i < map.size() ==> (#[trigger] map.tile_content@[i])@ == es@.take(k as int).filter(
                    stands_pred(m, &map0, i),
                ),
            forall|i: int|
                0 <= i < map.size() ==> #[trigger] map.blocked@[i] == (map.tiles@[i] == TileType::Wall
                    || exists|j: int|
                    0 <= j < k && stands_at(m, &map0, m.entities[j], i)
                        && (#[trigger] m.data[m.entities[j]]).blocks_tile is Some),
        decreases es.len() - k,
    {
        let e = es[k];
        proof {
            assert(m.entities.contains(e));
            assert(es@.take(k as int + 1) =~= es@.take(k as int).push(e));
        }
        let c = world.get(e).unwrap();
        let ghost before = *map;
        if let Some(p) = c.position {
            if 0 <= p.x && p.x < map.width && 0 <= p.y && p.y < map.height {
                let idx = map.xy_idx(p.x, p.y);
                if c.blocks_tile.is_some() {
                    map.blocked.set(idx, true);
                }
                map.tile_content[idx].push(e);
            }
        }
        proof {
            assert forall|i: int| 0 <= i < map.size() implies (#[trigger] map.tile_content@[i])@
                == es@.take(k as int + 1).filter(stands_pred(m, &map0, i)) by {
                es@.take(k as int).lemma_filter_push(e, stands_pred(m, &map0, i));
            }
            assert forall|i: int| 0 <= i < map.size() implies #[trigger] map.blocked@[i] == (
            map.tiles@[i] == TileType::Wall || exists|j: int|
                0 <= j < k + 1 && stands_at(m, &map0, m.entities[j], i)
                    && (#[trigger] m.data[m.entities[j]]).blocks_tile is Some) by {
                if stands_at(m, &map0, e, i) && m.data[e].blocks_tile is Some {
                    assert(m.entities[k as int] == e);
                }
                if exists|j: int|
                    0 <= j < k + 1 && stands_at(m, &map0, m.entities[j], i)
                        && (#[trigger] m.data[m.entities[j]]).blocks_tile is Some {
                    let j = choose|j: int|
                        0 <= j < k + 1 && stands_at(m, &map0, m.entities[j], i)
                            && (#[trigger] m.data[m.entities[j]]).blocks_tile is Some;
                    if j < k {
                    } else {
                        assert(m.entities[j] == e);
                    }
                }
            }
        }
        k = k + 1;
    }
    proof {
        assert(es@.take(k as int) =~= es@);
    }
}

} // verus!
