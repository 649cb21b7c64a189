use vstd::prelude::*;
use crate::entity::Entity;
use crate::map::{GameMap, Rect, TileType};
use crate::record::Components;
use crate::snapshot::{equiv, map_holders, store_fn};
use crate::world::{World, WorldModel};

verus! {

/// One persisted entity: its durable key and its components, with every
/// entity reference rewritten to a durable key.
pub struct SavedEntity {
    pub key: u64,
    pub components: Components,
}

/// A self-contained snapshot of the persisted part of a world.
pub struct SaveData {
    pub map: GameMap,
    pub entities: Vec<SavedEntity>,
}

pub open spec fn persist_pred(m: WorldModel) -> spec_fn(Entity) -> bool {
    |e: Entity| m.data[e].tags.serialize_me
}

/// The entities tagged for persistence, in spawn order.
pub open spec fn persisted(m: WorldModel) -> Seq<Entity> {
    m.entities.filter(persist_pred(m))
}

/// Whether `map` is a copy of `of`, without the occupancy index.
pub open spec fn map_copied(map: &GameMap, of: &GameMap) -> bool {
    &&& map.tiles@ == of.tiles@
    &&& map.rooms@ == of.rooms@
    &&& map.width == of.width
    &&& map.height == of.height
    &&& map.revealed_tiles@ == of.revealed_tiles@
    &&& map.visible_tiles@ == of.visible_tiles@
    &&& map.blocked@ == of.blocked@
    &&& map.depth == of.depth
    &&& map.tile_content@.len() == of.tile_content@.len()
    &&& forall|i: int| 0 <= i < map.tile_content@.len() ==> (#[trigger] map.tile_content@[i])@.len() == 0
}

fn copy_tiles(v: &Vec<TileType>) -> (r: Vec<TileType>)
    ensures
        r@ == v@,
{
    let mut r: Vec<TileType> = Vec::new();
    let mut i: usize = 0;
    while i < v.len()
        invariant
            i <= v@.len(),
            r@ == v@.take(i as int),
        decreases v.len() - i,
    {
        r.push(v[i]);
        i = i + 1;
        proof {
            assert(r@ =~= v@.take(i as int));
        }
    }
    proof {
        assert(r@ =~= v@);
    }
    r
}

fn copy_rooms(v: &Vec<Rect>) -> (r: Vec<Rect>)
    ensures
        r@ == v@,
{
    let mut r: Vec<Rect> = Vec::new();
    let mut i: usize = 0;
    while i < v.len()
        invariant
            i <= v@.len(),
            r@ == v@.take(i as int),
        decreases v.len() - i,
    {
        r.push(v[i]);
        i = i + 1;
        proof {
            assert(r@ =~= v@.take(i as int));
        }
    }
    proof {
        assert(r@ =~= v@);
    }
    r
}

fn copy_flags(v: &Vec<bool>) -> (r: Vec<bool>)
    ensures
        r@ == v@,
{
    let mut r: Vec<bool> = Vec::new();
    let mut i: usize = 0;
    while i < v.len()
        invariant
            i <= v@.len(),
            r@ == v@.take(i as int),
        decreases v.len() - i,
    {
        r.push(v[i]);
        i = i + 1;
        proof {
            assert(r@ =~= v@.take(i as int));
        }
    }
    proof {
        assert(r@ =~= v@);
    }
    r
}

/// The map as it is persisted: its layout and flags, with an empty
/// occupancy index.
pub fn copy_map(map: &GameMap) -> (r: GameMap)
    ensures
        map_copied(&r, map),
{
    let mut content: Vec<Vec<Entity>> = Vec::new();
    let mut i: usize = 0;
    while i < map.tile_content.len()
        invariant
            i <= map.tile_content@.len(),
            content@.len() == i,
            forall|j: int| 0 <= j < i ==> (#[trigger] content@[j])@.len() == 0,
        decreases map.tile_content.len() - i,
    {
        content.push(Vec::new());
        i = i + 1;
    }
    GameMap {
        tiles: copy_tiles(&map.tiles),
        rooms: copy_rooms(&map.rooms),
        width: map.width,
        height: map.height,
        revealed_tiles: copy_flags(&map.revealed_tiles),
        visible_tiles: copy_flags(&map.visible_tiles),
        blocked: copy_flags(&map.blocked),
        depth: map.depth,
        tile_content: content,
    }
}

/// Snapshots every entity tagged for persistence: its durable key (its
/// identity) and its components with references rewritten to durable keys;
/// the map goes along.
pub fn save(world: &World, map: &GameMap) -> (r: SaveData)
    requires
        world.wf(),
    ensures
        map_copied(&r.map, map),
        r.entities@.len() == persisted(world@).len(),
        forall|i: int|
            0 <= i < r.entities@.len() ==> (#[trigger] r.entities@[i]).key == persisted(world@)[i].id
                && equiv(r.entities@[i].components, map_holders(world@.data[persisted(world@)[i]], store_fn())),
{
    let ghost m = world@;
    let ghost pred = persist_pred(m);
    proof {
        world.lemma_inv();
    }
    let es = world.entities();
    let mut out: Vec<SavedEntity> = Vec::new();
    let mut i: usize = 0;
    while i < es.len()
        invariant
            world.wf(),
            m == world@,
            m.inv(),
            es@ == m.entities,
            i <= es@.len(),
            pred == persist_pred(m),
            out@.len() == es@.take(i as int).filter(pred).len(),
            forall|j: int|
                0 <= j < out@.len() ==> (#[trigger] out@[j]).key == es@.take(i as int).filter(pred)[j].id
                    && equiv(out@[j].components, map_holders(m.data[es@.take(i as int).filter(pred)[j]], store_fn())),
        decreases es.len() - i,
    {
        let e = es[i];
        proof {
            assert(m.entities.contains(e));
            assert(es@.take(i as int + 1) =~= es@.take(i as int).push(e));
            es@.take(i as int).lemma_filter_push(e, pred);
        }
        let c = world.get(e).unwrap();
        if c.tags.serialize_me {
            let mut copy = c.copy();
            copy.store_entity_ids();
            out.push(SavedEntity { key: e.id, components: copy });
        }
        i = i + 1;
    }
    proof {
        assert(es@.take(i as int) =~= es@);
    }
    SaveData { map: copy_map(map), entities: out }
}

} // verus!
