use vstd::prelude::*;
use std::collections::HashMap;

verus! {

broadcast use {
    vstd::std_specs::hash::group_hash_axioms,
    vstd::std_specs::hash::axiom_u64_obeys_hash_table_key_model,
};

/// An opaque, never reused entity identity.
#[derive(Clone, Copy, Debug, PartialEq, Eq, Hash, Structural)]
pub struct Entity {
    pub id: u64,
}

/// A reference to another entity held inside a component.
///
/// During simulation it is `Live`; at the persistence boundary it is
/// rewritten to the referent's durable key (`Pending`), and back again
/// when a snapshot is loaded.
#[derive(Clone, Copy, Debug, PartialEq, Eq, Structural)]
pub enum EntityHolder {
    Live(Entity),
    Pending(u64),
}

/// Durable key of an entity: its identity at save time.
pub open spec fn durable_key(e: Entity) -> u64 {
    e.id
}

/// The holder as it stands after `store_entity_id`.
pub open spec fn stored_holder(h: EntityHolder) -> EntityHolder {
    match h {
        EntityHolder::Live(e) => EntityHolder::Pending(durable_key(e)),
        EntityHolder::Pending(k) => EntityHolder::Pending(k),
    }
}

/// Whether `restore_entity` succeeds on `h` with the key mapping `keys`.
pub open spec fn holder_resolves(h: EntityHolder, keys: Map<u64, Entity>) -> bool {
    match h {
        EntityHolder::Live(_) => true,
        EntityHolder::Pending(k) => keys.contains_key(k),
    }
}

/// The holder as it stands after a successful `restore_entity`.
pub open spec fn restored_holder(h: EntityHolder, keys: Map<u64, Entity>) -> EntityHolder {
    match h {
        EntityHolder::Live(e) => EntityHolder::Live(e),
        EntityHolder::Pending(k) => EntityHolder::Live(keys[k]),
    }
}

/// Failure of a snapshot load.
#[derive(Clone, Copy, Debug, PartialEq, Eq, Structural)]
pub enum LoadError {
    /// A component refers to a durable key that the snapshot does not define.
    UnresolvedKey(u64),
    /// The snapshot names the same durable key twice.
    DuplicateKey(u64),
    /// The snapshot's map is not a well-formed grid.
    MalformedMap,
}

/// Mapping from durable keys of a snapshot to the entities spawned for them.
pub struct KeyMap {
    pub keys: HashMap<u64, Entity>,
}

impl View for KeyMap {
    type V = Map<u64, Entity>;

    open spec fn view(&self) -> Map<u64, Entity> {
        self.keys@
    }
}

impl KeyMap {
    pub fn new() -> (r: KeyMap)
        ensures
            r@ == Map::<u64, Entity>::empty(),
    {
        KeyMap { keys: HashMap::new() }
    }

    pub fn insert(&mut self, key: u64, e: Entity)
        ensures
            final(self)@ == old(self)@.insert(key, e),
    {
        self.keys.insert(key, e);
    }

    pub fn contains(&self, key: u64) -> (r: bool)
        ensures
            r == self@.contains_key(key),
    {
        self.keys.contains_key(&key)
    }

    pub fn get(&self, key: u64) -> (r: Option<Entity>)
        ensures
            r == (if self@.contains_key(key) {
                Some(self@[key])
            } else {
                None::<Entity>
            }),
    {
        match self.keys.get(&key) {
            Some(e) => Some(*e),
            None => None,
        }
    }
}

impl EntityHolder {
    pub fn new(entity: Entity) -> (r: EntityHolder)
        ensures
            r == EntityHolder::Live(entity),
    {
        EntityHolder::Live(entity)
    }

    /// The live handle; a pending holder has none to give.
    pub fn entity(&self) -> (r: Entity)
        requires
            self is Live,
        ensures
            *self == EntityHolder::Live(r),
    {
        match self {
            EntityHolder::Live(e) => *e,
            EntityHolder::Pending(_) => vstd::pervasive::unreached(),
        }
    }

    /// Rewrites a live handle to the referent's durable key.
    pub fn store_entity_id(&mut self)
        ensures
            *final(self) == stored_holder(*old(self)),
    {
        if let EntityHolder::Live(e) = *self {
            *self = EntityHolder::Pending(e.id);
        }
    }

    /// Resolves a durable key through `keys`; fails, leaving the holder as
    /// it was, when the key is not in the mapping.
    pub fn restore_entity(&mut self, keys: &KeyMap) -> (r: Result<(), LoadError>)
        ensures
            r is Ok <==> holder_resolves(*old(self), keys@),
            r is Ok ==> *final(self) == restored_holder(*old(self), keys@),
            r is Err ==> *final(self) == *old(self),
            r matches Err(LoadError::UnresolvedKey(k)) ==> *old(self) == EntityHolder::Pending(k),
            r matches Err(e) ==> e is UnresolvedKey,
    {
        if let EntityHolder::Pending(k) = *self {
            match keys.get(k) {
                Some(e) => {
                    *self = EntityHolder::Live(e);
                    Ok(())
                },
                None => Err(LoadError::UnresolvedKey(k)),
            }
        } else {
            Ok(())
        }
    }
}

} // verus!
