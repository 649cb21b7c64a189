use vstd::prelude::*;
use crate::components::Point;
use crate::entity::{Entity, EntityHolder};
use crate::visibility_system::needs_view;
use crate::world::{World, WorldModel};

verus! {

/// A field of view the visibility system needs: from `from`, within `range`.
#[derive(Clone, Copy, Debug, PartialEq, Eq, Structural)]
pub struct ViewRequest {
    pub entity: Entity,
    pub from: Point,
    pub range: i32,
}

/// A path step towards the player that a monster may take.
#[derive(Clone, Copy, Debug, PartialEq, Eq, Structural)]
pub struct PathRequest {
    pub entity: Entity,
    pub from: Point,
}

/// The tiles an area-of-effect use covers: seen from `at`, within `radius`.
#[derive(Clone, Copy, Debug, PartialEq, Eq, Structural)]
pub struct AreaRequest {
    pub user: Entity,
    pub at: Point,
    pub radius: i32,
}

/// What the systems of a turn need from the outside collaborators.
pub struct OutsideRequests {
    pub views: Vec<ViewRequest>,
    pub paths: Vec<PathRequest>,
    pub areas: Vec<AreaRequest>,
}

pub open spec fn view_pred(m: WorldModel) -> spec_fn(Entity) -> bool {
    |e: Entity| needs_view(m.data[e])
}

pub open spec fn view_request(m: WorldModel) -> spec_fn(Entity) -> ViewRequest {
    |e: Entity| {
        let p = m.data[e].position.unwrap();
        ViewRequest { entity: e, from: Point { x: p.x, y: p.y }, range: m.data[e].viewshed.unwrap().range }
    }
}

pub open spec fn path_pred(m: WorldModel) -> spec_fn(Entity) -> bool {
    |e: Entity| m.data[e].tags.monster && m.data[e].viewshed is Some && m.data[e].position is Some
}

pub open spec fn path_request(m: WorldModel) -> spec_fn(Entity) -> PathRequest {
    |e: Entity| {
        let p = m.data[e].position.unwrap();
        PathRequest { entity: e, from: Point { x: p.x, y: p.y } }
    }
}

/// The item with an area of effect that `e` intends to use at a point.
pub open spec fn area_item(m: WorldModel, e: Entity) -> Option<Entity> {
    match m.data[e].wants_to_use_item {
        Some(u) => match (u.item, u.target) {
            (EntityHolder::Live(it), Some(_)) => if m.alive(it) && m.data[it].area_of_effect is Some {
                Some(it)
            } else {
                None
            },
            _ => None,
        },
        None => None,
    }
}

pub open spec fn area_pred(m: WorldModel) -> spec_fn(Entity) -> bool {
    |e: Entity| area_item(m, e) is Some
}

pub open spec fn area_request(m: WorldModel) -> spec_fn(Entity) -> AreaRequest {
    |e: Entity|
        AreaRequest {
            user: e,
            at: m.data[e].wants_to_use_item.unwrap().target.unwrap(),
            radius: m.data[area_item(m, e).unwrap()].area_of_effect.unwrap().radius,
        }
}

/// Lists, in spawn order, every stale view to recompute, every monster
/// that may follow a path, and every pending area-of-effect use.
pub fn outside_requests(world: &World) -> (r: OutsideRequests)
    requires
        world.wf(),
    ensures
        r.views@ == world@.entities.filter(view_pred(world@)).map_values(view_request(world@)),
        r.paths@ == world@.entities.filter(path_pred(world@)).map_values(path_request(world@)),
        r.areas@ == world@.entities.filter(area_pred(world@)).map_values(area_request(world@)),
{
    let ghost m = world@;
    proof {
        world.lemma_inv();
    }
    let es = world.entities();
    let mut views: Vec<ViewRequest> = Vec::new();
    let mut paths: Vec<PathRequest> = Vec::new();
    let mut areas: Vec<AreaRequest> = Vec::new();
    let mut i: usize = 0;
    while i < es.len()
        invariant
            world.wf(),
            m == world@,
            m.inv(),
            es@ == m.entities,
            i <= es@.len(),
            views@ == es@.take(i as int).filter(view_pred(m)).map_values(view_request(m)),
            paths@ == es@.take(i as int).filter(path_pred(m)).map_values(path_request(m)),
            areas@ == es@.take(i as int).filter(area_pred(m)).map_values(area_request(m)),
        decreases es.len() - i,
    {
        let e = es[i];
        proof {
            assert(m.entities.contains(e));
            assert(es@.take(i as int + 1) =~= es@.take(i as int).push(e));
            es@.take(i as int).lemma_filter_push(e, view_pred(m));
            es@.take(i as int).lemma_filter_push(e, path_pred(m));
            es@.take(i as int).lemma_filter_push(e, area_pred(m));
            es@.take(i as int).filter(view_pred(m)).lemma_push_map_commute(view_request(m), e);
            es@.take(i as int).filter(path_pred(m)).lemma_push_map_commute(path_request(m), e);
            es@.take(i as int).filter(area_pred(m)).lemma_push_map_commute(area_request(m), e);
        }
        let c = world.get(e).unwrap();
        if let (Some(v), Some(p)) = (&c.viewshed, c.position) {
            if v.dirty {
                views.push(ViewRequest { entity: e, from: Point::new(p.x, p.y), range: v.range });
            }
            if c.tags.monster {
                paths.push(PathRequest { entity: e, from: Point::new(p.x, p.y) });
            }
        }
        if let Some(u) = c.wants_to_use_item {
            if let (EntityHolder::Live(it), Some(at)) = (u.item, u.target) {
                if let Some(ic) = world.get(it) {
                    if let Some(aoe) = ic.area_of_effect {
                        areas.push(AreaRequest { user: e, at, radius: aoe.radius });
                    }
                }
            }
        }
        i = i + 1;
    }
    proof {
        assert(es@.take(i as int) =~= es@);
    }
    OutsideRequests { views, paths, areas }
}

} // verus!
