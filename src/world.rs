use vstd::prelude::*;
use crate::entity::Entity;
use crate::record::{ComponentKind, ComponentValue, Components, TagKind};
use crate::query::{query_pred, query_result, Query};

verus! {

/// One live entity and what is attached to it.
pub struct Record {
    pub entity: Entity,
    pub components: Components,
}

/// Abstract state of a world: the identity the next spawn receives, the
/// live entities in spawn order, and what each live entity carries.
pub struct WorldModel {
    pub next_id: nat,
    pub entities: Seq<Entity>,
    pub data: Map<Entity, Components>,
}

impl WorldModel {
    pub open spec fn alive(self, e: Entity) -> bool {
        self.data.contains_key(e)
    }

    /// The model invariant: the live entities are listed once each, have
    /// data, and were all issued before `next_id`.
    pub open spec fn inv(self) -> bool {
        &&& self.entities.no_duplicates()
        &&& forall|e: Entity| #[trigger] self.data.contains_key(e) <==> self.entities.contains(e)
        &&& forall|e: Entity| #[trigger] self.data.contains_key(e) ==> e.id < self.next_id
    }

    pub open spec fn spawned(self, c: Components) -> WorldModel {
        let e = Entity { id: self.next_id as u64 };
        WorldModel {
            next_id: self.next_id + 1,
            entities: self.entities.push(e),
            data: self.data.insert(e, c),
        }
    }

    pub open spec fn deleted(self, e: Entity) -> WorldModel {
        if self.alive(e) {
            WorldModel {
                next_id: self.next_id,
                entities: self.entities.remove(self.entities.index_of(e)),
                data: self.data.remove(e),
            }
        } else {
            self
        }
    }

    /// `e`'s components replaced by `c`, if `e` is alive.
    pub open spec fn updated(self, e: Entity, c: Components) -> WorldModel {
        if self.alive(e) {
            WorldModel { data: self.data.insert(e, c), ..self }
        } else {
            self
        }
    }
}

/// `c` with its viewshed flagged for recomputation.
pub open spec fn view_dirtied(c: Components) -> Components {
    match c.viewshed {
        Some(v) => Components { viewshed: Some(crate::components::Viewshed { dirty: true, ..v }), ..c },
        None => c,
    }
}

/// The entity registry together with the component and tag stores.
pub struct World {
    next_id: u64,
    records: Vec<Record>,
}

impl World {
    spec fn ents(&self) -> Seq<Entity> {
        self.records@.map_values(|r: Record| r.entity)
    }

    /// Records are kept in increasing identity order, below `next_id`.
    pub closed spec fn wf(&self) -> bool {
        &&& forall|i: int, j: int|
            0 <= i < j < self.records@.len() ==> #[trigger] self.records@[i].entity.id
                < #[trigger] self.records@[j].entity.id
        &&& forall|i: int|
            0 <= i < self.records@.len() ==> #[trigger] self.records@[i].entity.id < self.next_id
    }

    pub closed spec fn view(&self) -> WorldModel {
        WorldModel {
            next_id: self.next_id as nat,
            entities: self.ents(),
            data: Map::new(
                |e: Entity| self.ents().contains(e),
                |e: Entity| self.records@[self.ents().index_of(e)].components,
            ),
        }
    }

    proof fn lemma_index(&self, i: int)
        requires
            self.wf(),
            0 <= i < self.records@.len(),
        ensures
            self.ents().index_of(self.records@[i].entity) == i,
            self.ents().contains(self.records@[i].entity),
    {
        let e = self.records@[i].entity;
        assert(self.ents()[i] == e);
        let j = self.ents().index_of(e);
        assert(0 <= j < self.ents().len() && self.ents()[j] == e);
        if j < i {
            assert(self.records@[j].entity.id < self.records@[i].entity.id);
        } else if j > i {
            assert(self.records@[i].entity.id < self.records@[j].entity.id);
        }
    }

    proof fn lemma_model(&self)
        requires
            self.wf(),
        ensures
            self@.inv(),
            self@.data.dom() == self@.entities.to_set(),
    {
        assert forall|a: int, b: int|
            0 <= a < self.ents().len() && 0 <= b < self.ents().len() && a != b implies
            self.ents()[a] != self.ents()[b] by {
            if a < b {
                assert(self.records@[a].entity.id < self.records@[b].entity.id);
            } else {
                assert(self.records@[b].entity.id < self.records@[a].entity.id);
            }
        }
        assert forall|e: Entity| #[trigger] self@.data.contains_key(e) implies e.id < self.next_id by {
            let j = self.ents().index_of(e);
            assert(self.records@[j].entity == e);
        }
        assert(self@.data.dom() =~= self@.entities.to_set());
    }

    /// An empty world.
    pub fn new() -> (r: World)
        ensures
            r.wf(),
            r@.next_id == 0,
            r@.entities.len() == 0,
            r@.data.dom().is_empty(),
    {
        let r = World { next_id: 0, records: Vec::new() };
        assert(r@.data.dom() =~= Set::empty());
        r
    }

    /// The model invariant holds of every well-formed world.
    pub proof fn lemma_inv(&self)
        requires
            self.wf(),
        ensures
            self@.inv(),
    {
        self.lemma_model();
    }

    /// Creates an entity with the given components and tags; its identity
    /// has never been issued before.
    pub fn spawn(&mut self, c: Components) -> (e: Entity)
        requires
            old(self).wf(),
            old(self)@.next_id < u64::MAX,
        ensures
            final(self).wf(),
            e.id == old(self)@.next_id,
            !old(self)@.alive(e),
            final(self)@ == old(self)@.spawned(c),
    {
        proof {
            self.lemma_model();
        }
        let e = Entity { id: self.next_id };
        let ghost old_w = *self;
        self.records.push(Record { entity: e, components: c });
        self.next_id = self.next_id + 1;
        proof {
            let n = old_w.records@.len() as int;
            assert(self.ents() =~= old_w.ents().push(e));
            self.lemma_index(n);
            assert forall|x: Entity| #[trigger] self@.data.contains_key(x) implies
                old_w@.spawned(c).data.contains_key(x) && self@.data[x] == old_w@.spawned(c).data[x] by {
                if x != e {
                    let j = self.ents().index_of(x);
                    assert(self.records@[j].entity == x);
                    assert(j < n);
                    old_w.lemma_index(j);
                    self.lemma_index(j);
                }
            }
            assert forall|x: Entity| #[trigger] old_w@.spawned(c).data.contains_key(x) implies
                self@.data.contains_key(x) by {
                if x != e {
                    let j = old_w.ents().index_of(x);
                    old_w.lemma_index(j);
                    assert(self.ents()[j] == x);
                }
            }
            assert(self@.data =~= old_w@.spawned(c).data);
        }
        e
    }

    /// Where `e`'s record stands, if `e` is alive.
    fn find(&self, e: Entity) -> (r: Option<usize>)
        requires
            self.wf(),
        ensures
            r matches Some(i) ==> i < self.records@.len() && self.records@[i as int].entity == e,
            r is None ==> !self@.alive(e),
    {
        let mut i: usize = 0;
        while i < self.records.len()
            invariant
                i <= self.records@.len(),
                forall|j: int| 0 <= j < i ==> self.records@[j].entity != e,
            decreases self.records.len() - i,
        {
            if self.records[i].entity == e {
                return Some(i);
            }
            i = i + 1;
        }
        proof {
            if self@.data.contains_key(e) {
                let j = self.ents().index_of(e);
                assert(self.ents()[j] == e);
            }
        }
        None
    }

    pub fn is_alive(&self, e: Entity) -> (r: bool)
        requires
            self.wf(),
        ensures
            r == self@.alive(e),
    {
        match self.find(e) {
            Some(i) => {
                proof {
                    self.lemma_index(i as int);
                }
                true
            },
            None => false,
        }
    }

    /// The components and tags of `e`; none for an entity that is not alive.
    pub fn get(&self, e: Entity) -> (r: Option<&Components>)
        requires
            self.wf(),
        ensures
            r is Some <==> self@.alive(e),
            r matches Some(c) ==> *c == self@.data[e],
    {
        match self.find(e) {
            Some(i) => {
                proof {
                    self.lemma_index(i as int);
                }
                Some(&self.records[i].components)
            },
            None => None,
        }
    }

    proof fn lemma_replaced(&self, old_w: World, i: int, c: Components)
        requires
            old_w.wf(),
            0 <= i < old_w.records@.len(),
            self.next_id == old_w.next_id,
            self.records@ == old_w.records@.update(
                i,
                Record { entity: old_w.records@[i].entity, components: c },
            ),
        ensures
            self.wf(),
            self@ == old_w@.updated(old_w.records@[i].entity, c),
    {
        let e = old_w.records@[i].entity;
        assert(self.ents() =~= old_w.ents());
        assert forall|a: int, b: int|
            0 <= a < b < self.records@.len() implies #[trigger] self.records@[a].entity.id
            < #[trigger] self.records@[b].entity.id by {
            assert(self.records@[a].entity == old_w.records@[a].entity);
            assert(self.records@[b].entity == old_w.records@[b].entity);
        }
        assert forall|a: int| 0 <= a < self.records@.len() implies #[trigger] self.records@[a].entity.id
            < self.next_id by {
            assert(self.records@[a].entity == old_w.records@[a].entity);
        }
        old_w.lemma_index(i);
        self.lemma_index(i);
        assert forall|x: Entity| #[trigger] self@.data.contains_key(x) implies self@.data[x]
            == old_w@.updated(e, c).data[x] by {
            if x != e {
                let j = self.ents().index_of(x);
                self.lemma_index(j);
                old_w.lemma_index(j);
            }
        }
        assert(self@.data =~= old_w@.updated(e, c).data);
    }

    /// Attaches `v` to `e`, replacing a component of the same kind; no effect
    /// on an entity that is not alive.
    pub fn add_component(&mut self, e: Entity, v: ComponentValue)
        requires
            old(self).wf(),
        ensures
            final(self).wf(),
            final(self)@ == old(self)@.updated(e, old(self)@.data[e].spec_with(v)),
    {
        if let Some(i) = self.find(e) {
            let ghost old_w = *self;
            self.records[i].components.set(v);
            proof {
                old_w.lemma_index(i as int);
                self.lemma_replaced(old_w, i as int, old_w.records@[i as int].components.spec_with(v));
            }
        }
    }

    /// Detaches `e`'s component of kind `k`; no effect on an entity that is
    /// not alive.
    pub fn remove_component(&mut self, e: Entity, k: ComponentKind)
        requires
            old(self).wf(),
        ensures
            final(self).wf(),
            final(self)@ == old(self)@.updated(e, old(self)@.data[e].spec_without(k)),
    {
        if let Some(i) = self.find(e) {
            let ghost old_w = *self;
            self.records[i].components.remove(k);
            proof {
                old_w.lemma_index(i as int);
                self.lemma_replaced(old_w, i as int, old_w.records@[i as int].components.spec_without(k));
            }
        }
    }

    /// Adds or removes tag `t` on `e`; no effect on an entity that is not
    /// alive.
    pub fn set_tag(&mut self, e: Entity, t: TagKind, on: bool)
        requires
            old(self).wf(),
        ensures
            final(self).wf(),
            final(self)@ == old(self)@.updated(
                e,
                Components { tags: old(self)@.data[e].tags.spec_with(t, on), ..old(self)@.data[e] },
            ),
    {
        if let Some(i) = self.find(e) {
            let ghost old_w = *self;
            self.records[i].components.tags.set(t, on);
            proof {
                old_w.lemma_index(i as int);
                let oc = old_w.records@[i as int].components;
                self.lemma_replaced(old_w, i as int, Components { tags: oc.tags.spec_with(t, on), ..oc });
            }
        }
    }

    /// Flags `e`'s view for recomputation; no effect on an entity without a
    /// viewshed.
    pub fn mark_view_dirty(&mut self, e: Entity)
        requires
            old(self).wf(),
        ensures
            final(self).wf(),
            final(self)@ == old(self)@.updated(e, view_dirtied(old(self)@.data[e])),
    {
        if let Some(i) = self.find(e) {
            let ghost old_w = *self;
            let ghost oc = old_w.records@[i as int].components;
            if let Some(v) = &mut self.records[i].components.viewshed {
                v.dirty = true;
            }
            proof {
                old_w.lemma_index(i as int);
                assert(self.records@[i as int].components == view_dirtied(oc));
                self.lemma_replaced(old_w, i as int, view_dirtied(oc));
            }
        }
    }

    /// Invalidates `e` and drops all its components and tags; no effect on
    /// an entity that is not alive.
    pub fn delete(&mut self, e: Entity)
        requires
            old(self).wf(),
        ensures
            final(self).wf(),
            final(self)@ == old(self)@.deleted(e),
    {
        if let Some(i) = self.find(e) {
            let ghost old_w = *self;
            self.records.remove(i);
            proof {
                let ii = i as int;
                old_w.lemma_index(ii);
                old_w.lemma_model();
                assert(self.ents() =~= old_w.ents().remove(ii));
                assert forall|a: int, b: int|
                    0 <= a < b < self.records@.len() implies #[trigger] self.records@[a].entity.id
                    < #[trigger] self.records@[b].entity.id by {
                    let oa = if a < ii { a } else { a + 1 };
                    let ob = if b < ii { b } else { b + 1 };
                    assert(self.records@[a] == old_w.records@[oa]);
                    assert(self.records@[b] == old_w.records@[ob]);
                }
                assert forall|a: int| 0 <= a < self.records@.len() implies #[trigger] self.records@[a].entity.id
                    < self.next_id by {
                    let oa = if a < ii { a } else { a + 1 };
                    assert(self.records@[a] == old_w.records@[oa]);
                }
                let target = old_w@.deleted(e);
                assert forall|x: Entity| #[trigger] self@.data.contains_key(x) implies
                    target.data.contains_key(x) && self@.data[x] == target.data[x] by {
                    let j = self.ents().index_of(x);
                    self.lemma_index(j);
                    let oj = if j < ii { j } else { j + 1 };
                    assert(self.records@[j] == old_w.records@[oj]);
                    old_w.lemma_index(oj);
                }
                assert forall|x: Entity| #[trigger] target.data.contains_key(x) implies
                    self@.data.contains_key(x) by {
                    let oj = old_w.ents().index_of(x);
                    old_w.lemma_index(oj);
                    assert(oj != ii);
                    let j = if oj < ii { oj } else { oj - 1 };
                    assert(self.records@[j] == old_w.records@[oj]);
                    assert(self.ents()[j] == x);
                }
                assert(self@.data =~= target.data);
            }
        }
    }

    /// The live entities that `q` admits, in spawn order, as the world
    /// stands when the query starts.
    pub fn query(&self, q: &Query) -> (r: Vec<Entity>)
        requires
            self.wf(),
        ensures
            r@ == query_result(self@, *q),
    {
        let ghost pred = query_pred(self@, *q);
        let mut r: Vec<Entity> = Vec::new();
        let mut i: usize = 0;
        while i < self.records.len()
            invariant
                self.wf(),
                i <= self.records@.len(),
                pred == query_pred(self@, *q),
                r@ == self.ents().take(i as int).filter(pred),
            decreases self.records.len() - i,
        {
            let ok = q.matches(&self.records[i].components);
            proof {
                self.lemma_index(i as int);
                assert(self.ents().take(i as int + 1) =~= self.ents().take(i as int).push(
                    self.records@[i as int].entity,
                ));
                self.ents().take(i as int).lemma_filter_push(self.records@[i as int].entity, pred);
            }
            if ok {
                r.push(self.records[i].entity);
            }
            i = i + 1;
        }
        proof {
            assert(self.ents().take(i as int) =~= self.ents());
        }
        r
    }

    /// The identity the next spawn receives.
    pub fn next_id(&self) -> (r: u64)
        ensures
            r == self@.next_id,
    {
        self.next_id
    }

    /// The live entities, in spawn order.
    pub fn entities(&self) -> (r: Vec<Entity>)
        ensures
            r@ == self@.entities,
    {
        let mut r: Vec<Entity> = Vec::new();
        let mut i: usize = 0;
        while i < self.records.len()
            invariant
                i <= self.records@.len(),
                r@ == self.ents().take(i as int),
            decreases self.records.len() - i,
        {
            r.push(self.records[i].entity);
            i = i + 1;
            proof {
                assert(r@ =~= self.ents().take(i as int));
            }
        }
        proof {
            assert(r@ =~= self.ents());
        }
        r
    }
}

} // verus!
