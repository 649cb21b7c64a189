use vstd::prelude::*;
use crate::components::{Point, Viewshed};
use crate::entity::Entity;
use crate::map::GameMap;
use crate::record::{ComponentValue, Components};
use crate::schedule::SystemId;
use crate::world::{World, WorldModel};

verus! {

/// The tiles in view from an entity's position within its range, as
/// computed by the field-of-view collaborator.
pub struct FieldOfView {
    pub entity: Entity,
    pub tiles: Vec<Point>,
}

/// The first field of view given for `e`; none if there is none.
pub open spec fn fov_of(fovs: Seq<FieldOfView>, e: Entity) -> Seq<Point>
    decreases fovs.len(),
{
    if fovs.len() == 0 {
        Seq::empty()
    } else if fovs[0].entity == e {
        fovs[0].tiles@
    } else {
        fov_of(fovs.drop_first(), e)
    }
}

/// Whether a tile lies strictly inside the border of a `width` by
/// `height` map.
pub open spec fn inner_pred(width: i32, height: i32) -> spec_fn(Point) -> bool {
    |p: Point| 0 < p.x < width - 1 && 0 < p.y < height - 1
}

/// Whether `c`'s view must be recomputed.
pub open spec fn needs_view(c: Components) -> bool {
    c.viewshed is Some && c.viewshed.unwrap().dirty && c.position is Some
}

/// `after` is `before` with a fresh view: the given tiles, the same range,
/// and the flag cleared; nothing else differs.
pub open spec fn refreshed(before: Components, after: Components, tiles: Seq<Point>) -> bool {
    &&& after.viewshed is Some
    &&& after.viewshed.unwrap().visible_tiles@ == tiles
    &&& after.viewshed.unwrap().range == before.viewshed.unwrap().range
    &&& !after.viewshed.unwrap().dirty
    &&& Components { viewshed: before.viewshed, ..after } == before
}

pub fn build() -> (r: SystemId)
    ensures
        r == SystemId::Visibility,
{
    SystemId::Visibility
}

fn fov_index(fovs: &Vec<FieldOfView>, e: Entity) -> (r: Option<usize>)
    ensures
        r matches Some(i) ==> i < fovs@.len() && fov_of(fovs@, e) == fovs@[i as int].tiles@,
        r is None ==> fov_of(fovs@, e) == Seq::<Point>::empty(),
{
    let mut i: usize = 0;
    proof {
        assert(fovs@.skip(0) =~= fovs@);
    }
    while i < fovs.len()
        invariant
            i <= fovs@.len(),
            fov_of(fovs@, e) == fov_of(fovs@.skip(i as int), e),
        decreases fovs.len() - i,
    {
        proof {
            assert(fovs@.skip(i as int)[0] == fovs@[i as int]);
            assert(fovs@.skip(i as int).drop_first() =~= fovs@.skip(i as int + 1));
        }
        if fovs[i].entity == e {
            return Some(i);
        }
        i = i + 1;
    }
    proof {
        assert(fovs@.skip(i as int).len() == 0);
    }
    None
}

/// The tiles of `fov` strictly inside the map's border.
pub fn retain_tiles(map: &GameMap, fov: &Vec<Point>) -> (r: Vec<Point>)
    requires
        map.wf(),
    ensures
        r@ == fov@.filter(inner_pred(map.width, map.height)),
{
    let mut r: Vec<Point> = Vec::new();
    let mut i: usize = 0;
    while i < fov.len()
        invariant
            i <= fov@.len(),
            map.wf(),
            r@ == fov@.take(i as int).filter(inner_pred(map.width, map.height)),
        decreases fov.len() - i,
    {
        let p = fov[i];
        proof {
            assert(fov@.take(i as int + 1) =~= fov@.take(i as int).push(p));
            fov@.take(i as int).lemma_filter_push(p, inner_pred(map.width, map.height));
        }
        if 0 < p.x && p.x < map.width - 1 && 0 < p.y && p.y < map.height - 1 {
            r.push(p);
        }
        i = i + 1;
    }
    proof {
        assert(fov@.take(i as int) =~= fov@);
    }
    r
}

/// Shows the player's view on the map: only its tiles are visible, and
/// they stay revealed.
fn show_on_map(map: &mut GameMap, tiles: &Vec<Point>)
    requires
        old(map).wf(),
    ensures
        final(map).wf(),
        final(map).tiles == old(map).tiles,
        final(map).width == old(map).width,
        final(map).height == old(map).height,
        forall|j: int|
            0 <= j < tiles@.len() && final(map).in_bounds(tiles@[j].x as int, tiles@[j].y as int)
                ==> final(map).visible_tiles@[final(map).idx(tiles@[j].x as int, tiles@[j].y as int)]
                && final(map).revealed_tiles@[final(map).idx(tiles@[j].x as int, tiles@[j].y as int)],
{
    let mut i: usize = 0;
    while i < map.visible_tiles.len()
        invariant
            map.wf(),
            map.tiles == old(map).tiles,
            map.width == old(map).width,
            map.height == old(map).height,
            i <= map.visible_tiles@.len(),
        decreases map.visible_tiles.len() - i,
    {
        map.visible_tiles.set(i, false);
        i = i + 1;
    }
    let mut k: usize = 0;
    while k < tiles.len()
        invariant
            map.wf(),
            map.tiles == old(map).tiles,
            map.width == old(map).width,
            map.height == old(map).height,
            k <= tiles@.len(),
            forall|j: int|
                0 <= j < k && map.in_bounds(tiles@[j].x as int, tiles@[j].y as int)
                    ==> map.visible_tiles@[map.idx(tiles@[j].x as int, tiles@[j].y as int)]
                    && map.revealed_tiles@[map.idx(tiles@[j].x as int, tiles@[j].y as int)],
        decreases tiles.len() - k,
    {
        let p = tiles[k];
        let ghost before = *map;
        if 0 <= p.x && p.x < map.width && 0 <= p.y && p.y < map.height {
            let idx = map.xy_idx(p.x, p.y);
            map.revealed_tiles.set(idx, true);
            map.visible_tiles.set(idx, true);
        }
        proof {
            assert forall|j: int|
                0 <= j < k + 1 && map.in_bounds(tiles@[j].x as int, tiles@[j].y as int) implies map.visible_tiles@[map.idx(
                tiles@[j].x as int,
                tiles@[j].y as int,
            )] && map.revealed_tiles@[map.idx(tiles@[j].x as int, tiles@[j].y as int)] by {
                before.lemma_idx_in_range(tiles@[j].x as int, tiles@[j].y as int);
                if j < k {
                    assert(before.visible_tiles@[before.idx(tiles@[j].x as int, tiles@[j].y as int)]);
                    assert(before.revealed_tiles@[before.idx(tiles@[j].x as int, tiles@[j].y as int)]);
                }
            }
        }
        k = k + 1;
    }
}

/// What the visibility system does: every stale view is recomputed from
/// its field of view, kept inside the border; nothing else changes in the
/// world, and the map keeps its layout.
pub open spec fn visibility_ran(
    w0: WorldModel,
    m0: GameMap,
    fovs: Seq<FieldOfView>,
    w1: WorldModel,
    m1: GameMap,
) -> bool {
    &&& m1.tiles == m0.tiles
    &&& m1.width == m0.width
    &&& m1.height == m0.height
    &&& w1.entities == w0.entities
    &&& w1.next_id == w0.next_id
    &&& w1.data.dom() == w0.data.dom()
    &&& forall|e: Entity| #[trigger] w0.alive(e) ==> if needs_view(w0.data[e]) {
        refreshed(w0.data[e], w1.data[e], fov_of(fovs, e).filter(inner_pred(m0.width, m0.height)))
    } else {
        w1.data[e] == w0.data[e]
    }
}

/// Recomputes every view flagged as stale from the given fields of view,
/// keeping the tiles inside the border; the player's view also becomes
/// the map's visible area.
pub fn run(world: &mut World, map: &mut GameMap, fovs: &Vec<FieldOfView>)
    requires
        old(world).wf(),
        old(map).wf(),
    ensures
        final(world).wf(),
        final(map).wf(),
        visibility_ran(old(world)@, *old(map), fovs@, final(world)@, *final(map)),
{
    let ghost m = world@;
    let ghost map0 = *map;
    proof {
        world.lemma_inv();
    }
    let es = world.entities();
    let mut i: usize = 0;
    while i < es.len()
        invariant
            world.wf(),
            map.wf(),
            map.tiles == map0.tiles,
            map.width == map0.width,
            map.height == map0.height,
            m.inv(),
            es@ == m.entities,
            i <= es@.len(),
            world@.entities == m.entities,
            world@.next_id == m.next_id,
            world@.data.dom() == m.data.dom(),
            forall|x: Entity| #[trigger] m.alive(x) ==> if es@.take(i as int).contains(x) && needs_view(m.data[x]) {
                refreshed(m.data[x], world@.data[x], fov_of(fovs@, x).filter(inner_pred(map0.width, map0.height)))
            } else {
                world@.data[x] == m.data[x]
            },
        decreases es.len() - i,
    {
        let e = es[i];
        proof {
            assert(m.entities.contains(e));
            assert(m.alive(e));
            assert(es@.take(i as int + 1) =~= es@.take(i as int).push(e));
            assert(!es@.take(i as int).contains(e)) by {
                if es@.take(i as int).contains(e) {
                    let j = es@.take(i as int).index_of(e);
                    assert(es@[j] == es@[i as int]);
                }
            }
        }
        let c = world.get(e).unwrap();
        if c.viewshed.is_some() && c.viewshed.as_ref().unwrap().dirty && c.position.is_some() {
            let range = c.viewshed.as_ref().unwrap().range;
            let is_player = c.player.is_some();
            let empty: Vec<Point> = Vec::new();
            let tiles = match fov_index(fovs, e) {
                Some(k) => retain_tiles(map, &fovs[k].tiles),
                None => retain_tiles(map, &empty),
            };
            if is_player {
                show_on_map(map, &tiles);
            }
            world.add_component(e, ComponentValue::Viewshed(Viewshed { visible_tiles: tiles, range, dirty: false }));
        }
        proof {
            assert forall|x: Entity| #[trigger] m.alive(x) implies if es@.take(i as int + 1).contains(x) && needs_view(m.data[x]) {
                refreshed(m.data[x], world@.data[x], fov_of(fovs@, x).filter(inner_pred(map0.width, map0.height)))
            } else {
                world@.data[x] == m.data[x]
            } by {
                if x != e {
                    assert(es@.take(i as int + 1).contains(x) == es@.take(i as int).contains(x));
                } else {
                    assert(es@.take(i as int + 1)[i as int] == e);
                }
            }
            assert(world@.data.dom() =~= m.data.dom());
        }
        i = i + 1;
    }
    proof {
        assert(es@.take(i as int) =~= es@);
    }
}

} // verus!
