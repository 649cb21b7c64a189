use vstd::prelude::*;
use crate::components::{Position, Renderable};
use crate::entity::Entity;
use crate::world::{World, WorldModel};

verus! {

/// What the renderer draws for one entity.
#[derive(Clone, Copy, Debug, PartialEq, Eq, Structural)]
pub struct Drawable {
    pub entity: Entity,
    pub position: Position,
    pub renderable: Renderable,
}

pub open spec fn drawable_pred(m: WorldModel) -> spec_fn(Entity) -> bool {
    |e: Entity| m.data[e].position is Some && m.data[e].renderable is Some
}

/// Whether `d` is what entity `d.entity` shows.
pub open spec fn shows(m: WorldModel, d: Drawable) -> bool {
    &&& m.alive(d.entity)
    &&& m.data[d.entity].position == Some(d.position)
    &&& m.data[d.entity].renderable == Some(d.renderable)
}

/// Ordered for drawing: a higher render order first, so that a lower one
/// is drawn last, on top.
pub open spec fn draw_sorted(s: Seq<Drawable>) -> bool {
    forall|i: int, j: int|
        0 <= i < j < s.len() ==> (#[trigger] s[i]).renderable.render_order >= (#[trigger] s[j]).renderable.render_order
}

/// Every entity with a position and a look, in drawing order: higher
/// render order first; entities of equal order keep spawn order.
pub fn render_list(world: &World) -> (r: Vec<Drawable>)
    requires
        world.wf(),
    ensures
        draw_sorted(r@),
        r@.len() == world@.entities.filter(drawable_pred(world@)).len(),
        forall|i: int| 0 <= i < r@.len() ==> shows(world@, #[trigger] r@[i]),
        forall|i: int, j: int| 0 <= i < j < r@.len() ==> (#[trigger] r@[i]).entity != (#[trigger] r@[j]).entity,
{
    let ghost m = world@;
    let ghost pred = drawable_pred(m);
    proof {
        world.lemma_inv();
    }
    let es = world.entities();
    let mut out: Vec<Drawable> = Vec::new();
    let mut i: usize = 0;
    while i < es.len()
        invariant
            world.wf(),
            m == world@,
            m.inv(),
            es@ == m.entities,
            i <= es@.len(),
            pred == drawable_pred(m),
            draw_sorted(out@),
            out@.len() == es@.take(i as int).filter(pred).len(),
            forall|k: int| 0 <= k < out@.len() ==> shows(m, #[trigger] out@[k]),
            forall|k: int| 0 <= k < out@.len() ==> es@.take(i as int).contains(#[trigger] out@[k].entity),
            forall|a: int, b: int| 0 <= a < b < out@.len() ==> (#[trigger] out@[a]).entity != (#[trigger] out@[b]).entity,
        decreases es.len() - i,
    {
        let e = es[i];
        proof {
            assert(m.entities.contains(e));
            assert(es@.take(i as int + 1) =~= es@.take(i as int).push(e));
            es@.take(i as int).lemma_filter_push(e, pred);
        }
        let c = world.get(e).unwrap();
        let ghost prev = out@;
        if let (Some(p), Some(rd)) = (c.position, c.renderable) {
            let d = Drawable { entity: e, position: p, renderable: rd };
            let mut k: usize = 0;
            while k < out.len() && out[k].renderable.render_order >= rd.render_order
                invariant
                    k <= out@.len(),
                    forall|j: int| 0 <= j < k ==> (#[trigger] out@[j]).renderable.render_order >= rd.render_order,
                decreases out.len() - k,
            {
                k = k + 1;
            }
            let ghost before = out@;
            out.insert(k, d);
            proof {
                assert forall|a: int, b: int| 0 <= a < b < out@.len() implies (#[trigger] out@[a]).renderable.render_order
                    >= (#[trigger] out@[b]).renderable.render_order by {
                    if a < k && b < k {
                        assert(out@[a] == before[a] && out@[b] == before[b]);
                    } else if a < k && b == k {
                        assert(out@[a] == before[a]);
                    } else if a < k {
                        assert(out@[a] == before[a] && out@[b] == before[b - 1]);
                    } else if a == k {
                        assert(out@[b] == before[b - 1]);
                        assert(before[k as int].renderable.render_order < rd.render_order);
                        if b - 1 > k {
                            assert(before[k as int].renderable.render_order >= before[b - 1].renderable.render_order);
                        }
                    } else {
                        assert(out@[a] == before[a - 1] && out@[b] == before[b - 1]);
                    }
                }
                assert forall|j: int| 0 <= j < out@.len() implies shows(m, #[trigger] out@[j]) by {
                    if j < k {
                        assert(out@[j] == before[j]);
                    } else if j > k {
                        assert(out@[j] == before[j - 1]);
                    }
                }
                assert(out@[k as int].entity == e);
                assert forall|q: int| 0 <= q < out@.len() implies es@.take(i as int + 1).contains(
                    #[trigger] out@[q].entity,
                ) by {
                    if q == k {
                        assert(es@.take(i as int + 1)[i as int] == e);
                    } else {
                        let z = if q < k { q } else { q - 1 };
                        assert(prev[z] == out@[q]);
                        assert(es@.take(i as int).contains(prev[z].entity));
                        let w = es@.take(i as int).index_of(prev[z].entity);
                        assert(es@.take(i as int + 1)[w] == prev[z].entity);
                    }
                }
                assert(!es@.take(i as int).contains(e)) by {
                    if es@.take(i as int).contains(e) {
                        let q = es@.take(i as int).index_of(e);
                        assert(es@[q] == es@[i as int]);
                    }
                }
                assert forall|a: int, b: int| 0 <= a < b < out@.len() implies (#[trigger] out@[a]).entity
                    != (#[trigger] out@[b]).entity by {
                    let ia = if a < k { a } else if a == k { -1 } else { a - 1 };
                    let ib = if b < k { b } else if b == k { -1 } else { b - 1 };
                    if ia >= 0 && ib >= 0 {
                        assert(out@[a] == before[ia] && out@[b] == before[ib]);
                    } else if ia < 0 {
                        assert(out@[b] == before[ib]);
                        assert(es@.take(i as int).contains(before[ib].entity));
                    } else {
                        assert(out@[a] == before[ia]);
                        assert(es@.take(i as int).contains(before[ia].entity));
                    }
                }
            }
        }
        proof {
            if out@ == prev {
                assert forall|q: int| 0 <= q < out@.len() implies es@.take(i as int + 1).contains(
                    #[trigger] out@[q].entity,
                ) by {
                    assert(es@.take(i as int).contains(out@[q].entity));
                    let w = es@.take(i as int).index_of(out@[q].entity);
                    assert(es@.take(i as int + 1)[w] == out@[q].entity);
                }
            }
        }
        i = i + 1;
    }
    proof {
        assert(es@.take(i as int) =~= es@);
    }
    out
}

} // verus!
