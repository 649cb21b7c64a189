use vstd::prelude::*;
use crate::entity::Entity;
use crate::record::{ComponentKind, Components, TagKind};
use crate::world::WorldModel;

verus! {

/// A declarative access pattern: the component kinds an entity must carry,
/// those it must not carry, and the tags it must have.
pub struct Query {
    pub with: Vec<ComponentKind>,
    pub without: Vec<ComponentKind>,
    pub tags: Vec<TagKind>,
}

impl Query {
    pub open spec fn admits(&self, c: Components) -> bool {
        &&& forall|i: int| 0 <= i < self.with@.len() ==> c.spec_has(#[trigger] self.with@[i])
        &&& forall|i: int| 0 <= i < self.without@.len() ==> !c.spec_has(#[trigger] self.without@[i])
        &&& forall|i: int| 0 <= i < self.tags@.len() ==> c.tags.spec_has(#[trigger] self.tags@[i])
    }

    /// The query that admits every entity.
    pub fn new() -> (r: Query)
        ensures
            r.with@.len() == 0,
            r.without@.len() == 0,
            r.tags@.len() == 0,
    {
        Query { with: Vec::new(), without: Vec::new(), tags: Vec::new() }
    }

    /// Also requires a component of kind `k`.
    pub fn with(self, k: ComponentKind) -> (r: Query)
        ensures
            r.with@ == self.with@.push(k),
            r.without@ == self.without@,
            r.tags@ == self.tags@,
    {
        let mut q = self;
        q.with.push(k);
        q
    }

    /// Also requires the absence of a component of kind `k`.
    pub fn without(self, k: ComponentKind) -> (r: Query)
        ensures
            r.with@ == self.with@,
            r.without@ == self.without@.push(k),
            r.tags@ == self.tags@,
    {
        let mut q = self;
        q.without.push(k);
        q
    }

    /// Also requires tag `t`.
    pub fn tagged(self, t: TagKind) -> (r: Query)
        ensures
            r.with@ == self.with@,
            r.without@ == self.without@,
            r.tags@ == self.tags@.push(t),
    {
        let mut q = self;
        q.tags.push(t);
        q
    }

    /// Whether `c` satisfies every requirement.
    pub fn matches(&self, c: &Components) -> (r: bool)
        ensures
            r == self.admits(*c),
    {
        let mut i: usize = 0;
        while i < self.with.len()
            invariant
                i <= self.with@.len(),
                forall|j: int| 0 <= j < i ==> c.spec_has(#[trigger] self.with@[j]),
            decreases self.with.len() - i,
        {
            if !c.has(self.with[i]) {
                return false;
            }
            i = i + 1;
        }
        let mut i: usize = 0;
        while i < self.without.len()
            invariant
                i <= self.without@.len(),
                forall|j: int| 0 <= j < i ==> !c.spec_has(#[trigger] self.without@[j]),
            decreases self.without.len() - i,
        {
            if c.has(self.without[i]) {
                return false;
            }
            i = i + 1;
        }
        let mut i: usize = 0;
        while i < self.tags.len()
            invariant
                i <= self.tags@.len(),
                forall|j: int| 0 <= j < i ==> c.tags.spec_has(#[trigger] self.tags@[j]),
            decreases self.tags.len() - i,
        {
            if !c.tags.has(self.tags[i]) {
                return false;
            }
            i = i + 1;
        }
        true
    }
}

pub open spec fn query_pred(m: WorldModel, q: Query) -> spec_fn(Entity) -> bool {
    |e: Entity| q.admits(m.data[e])
}

/// What a query yields on a world: the admitted live entities, in spawn order.
pub open spec fn query_result(m: WorldModel, q: Query) -> Seq<Entity> {
    m.entities.filter(query_pred(m, q))
}

/// A query yields only live entities, and nothing is found for an entity
/// that is not alive.
pub proof fn lemma_query_yields_live(m: WorldModel, q: Query, e: Entity)
    requires
        m.inv(),
        !m.alive(e),
    ensures
        !query_result(m, q).contains(e),
        !m.data.contains_key(e),
{
    if query_result(m, q).contains(e) {
        m.entities.lemma_filter_contains_rev(query_pred(m, q), e);
    }
}

} // verus!
