use vstd::prelude::*;
use crate::components::{
    Equipped, InBackpack, SufferDamage, Viewshed, WantsToDropItem, WantsToMelee,
    WantsToPickupItem, WantsToRemoveItem, WantsToUseItem,
};
use crate::entity::{
    holder_resolves, restored_holder, stored_holder, Entity, EntityHolder, KeyMap, LoadError,
};
use crate::record::Components;

verus! {

/// `c` with `f` applied to every entity reference it holds.
pub open spec fn map_holders(c: Components, f: spec_fn(EntityHolder) -> EntityHolder) -> Components {
    Components {
        equipped: match c.equipped {
            Some(x) => Some(Equipped { owner: f(x.owner), ..x }),
            None => None,
        },
        in_backpack: match c.in_backpack {
            Some(x) => Some(InBackpack { owner: f(x.owner) }),
            None => None,
        },
        suffer_damage: match c.suffer_damage {
            Some(x) => Some(SufferDamage { victim: f(x.victim), ..x }),
            None => None,
        },
        wants_to_drop_item: match c.wants_to_drop_item {
            Some(x) => Some(WantsToDropItem { item: f(x.item) }),
            None => None,
        },
        wants_to_melee: match c.wants_to_melee {
            Some(x) => Some(WantsToMelee { target: f(x.target) }),
            None => None,
        },
        wants_to_pickup_item: match c.wants_to_pickup_item {
            Some(x) => Some(WantsToPickupItem { collected_by: f(x.collected_by), item: f(x.item) }),
            None => None,
        },
        wants_to_remove_item: match c.wants_to_remove_item {
            Some(x) => Some(WantsToRemoveItem { item: f(x.item) }),
            None => None,
        },
        wants_to_use_item: match c.wants_to_use_item {
            Some(x) => Some(WantsToUseItem { item: f(x.item), ..x }),
            None => None,
        },
        ..c
    }
}

/// Whether `p` holds of every entity reference in `c`.
pub open spec fn all_holders(c: Components, p: spec_fn(EntityHolder) -> bool) -> bool {
    &&& (c.equipped matches Some(x) ==> p(x.owner))
    &&& (c.in_backpack matches Some(x) ==> p(x.owner))
    &&& (c.suffer_damage matches Some(x) ==> p(x.victim))
    &&& (c.wants_to_drop_item matches Some(x) ==> p(x.item))
    &&& (c.wants_to_melee matches Some(x) ==> p(x.target))
    &&& (c.wants_to_pickup_item matches Some(x) ==> p(x.collected_by) && p(x.item))
    &&& (c.wants_to_remove_item matches Some(x) ==> p(x.item))
    &&& (c.wants_to_use_item matches Some(x) ==> p(x.item))
}

pub open spec fn store_fn() -> spec_fn(EntityHolder) -> EntityHolder {
    |h: EntityHolder| stored_holder(h)
}

pub open spec fn restore_fn(keys: Map<u64, Entity>) -> spec_fn(EntityHolder) -> EntityHolder {
    |h: EntityHolder| restored_holder(h, keys)
}

pub open spec fn resolves_fn(keys: Map<u64, Entity>) -> spec_fn(EntityHolder) -> bool {
    |h: EntityHolder| holder_resolves(h, keys)
}

/// Equal, with the visible tiles of a viewshed compared by their contents.
pub open spec fn equiv(a: Components, b: Components) -> bool {
    &&& Components { viewshed: None, ..a } == Components { viewshed: None, ..b }
    &&& (a.viewshed is Some <==> b.viewshed is Some)
    &&& (a.viewshed matches Some(v) ==> {
        let w = b.viewshed.unwrap();
        &&& v.visible_tiles@ == w.visible_tiles@
        &&& v.range == w.range
        &&& v.dirty == w.dirty
    })
}

impl Components {
    /// A copy of the record.
    pub fn copy(&self) -> (r: Components)
        ensures
            equiv(r, *self),
    {
        Components {
            area_of_effect: self.area_of_effect,
            blocks_tile: self.blocks_tile,
            combat_stats: self.combat_stats,
            confusion: self.confusion,
            defense_bonus: self.defense_bonus,
            equippable: self.equippable,
            equipped: self.equipped,
            in_backpack: self.in_backpack,
            inflicts_damage: self.inflicts_damage,
            melee_power_bonus: self.melee_power_bonus,
            name: match &self.name {
                Some(n) => Some(n.copy()),
                None => None,
            },
            old_entity_id: self.old_entity_id,
            player: self.player,
            position: self.position,
            provides_healing: self.provides_healing,
            ranged: self.ranged,
            renderable: self.renderable,
            suffer_damage: self.suffer_damage,
            viewshed: match &self.viewshed {
                Some(v) => Some(v.copy()),
                None => None,
            },
            wants_to_drop_item: self.wants_to_drop_item,
            wants_to_melee: self.wants_to_melee,
            wants_to_pickup_item: self.wants_to_pickup_item,
            wants_to_remove_item: self.wants_to_remove_item,
            wants_to_use_item: self.wants_to_use_item,
            tags: self.tags,
        }
    }

    /// Rewrites every entity reference to the referent's durable key.
    pub fn store_entity_ids(&mut self)
        ensures
            *final(self) == map_holders(*old(self), store_fn()),
    {
        if let Some(x) = &mut self.equipped {
            x.owner.store_entity_id();
        }
        if let Some(x) = &mut self.in_backpack {
            x.owner.store_entity_id();
        }
        if let Some(x) = &mut self.suffer_damage {
            x.victim.store_entity_id();
        }
        if let Some(x) = &mut self.wants_to_drop_item {
            x.item.store_entity_id();
        }
        if let Some(x) = &mut self.wants_to_melee {
            x.target.store_entity_id();
        }
        if let Some(x) = &mut self.wants_to_pickup_item {
            x.collected_by.store_entity_id();
            x.item.store_entity_id();
        }
        if let Some(x) = &mut self.wants_to_remove_item {
            x.item.store_entity_id();
        }
        if let Some(x) = &mut self.wants_to_use_item {
            x.item.store_entity_id();
        }
    }
}

fn resolves(h: EntityHolder, keys: &KeyMap) -> (r: bool)
    ensures
        r == holder_resolves(h, keys@),
{
    match h {
        EntityHolder::Live(_) => true,
        EntityHolder::Pending(k) => keys.contains(k),
    }
}

fn missing(h: EntityHolder, keys: &KeyMap) -> (r: Option<u64>)
    ensures
        r is None <==> holder_resolves(h, keys@),
        r matches Some(k) ==> !keys@.contains_key(k),
{
    match h {
        EntityHolder::Live(_) => None,
        EntityHolder::Pending(k) => if keys.contains(k) {
            None
        } else {
            Some(k)
        },
    }
}

fn restore(h: &mut EntityHolder, keys: &KeyMap)
    requires
        holder_resolves(*old(h), keys@),
    ensures
        *final(h) == restored_holder(*old(h), keys@),
{
    let _ = h.restore_entity(keys);
}

impl Components {
    /// Whether every entity reference resolves through `keys`.
    pub fn references_resolve(&self, keys: &KeyMap) -> (r: bool)
        ensures
            r == all_holders(*self, resolves_fn(keys@)),
    {
        (match self.equipped {
            Some(x) => resolves(x.owner, keys),
            None => true,
        }) && (match self.in_backpack {
            Some(x) => resolves(x.owner, keys),
            None => true,
        }) && (match self.suffer_damage {
            Some(x) => resolves(x.victim, keys),
            None => true,
        }) && (match self.wants_to_drop_item {
            Some(x) => resolves(x.item, keys),
            None => true,
        }) && (match self.wants_to_melee {
            Some(x) => resolves(x.target, keys),
            None => true,
        }) && (match self.wants_to_pickup_item {
            Some(x) => resolves(x.collected_by, keys) && resolves(x.item, keys),
            None => true,
        }) && (match self.wants_to_remove_item {
            Some(x) => resolves(x.item, keys),
            None => true,
        }) && (match self.wants_to_use_item {
            Some(x) => resolves(x.item, keys),
            None => true,
        })
    }

    /// Resolves every durable key through `keys`; fails, naming a key, when
    /// one is not in the mapping.
    pub fn restore_entities(&mut self, keys: &KeyMap) -> (r: Result<(), LoadError>)
        ensures
            r is Ok <==> all_holders(*old(self), resolves_fn(keys@)),
            r is Ok ==> *final(self) == map_holders(*old(self), restore_fn(keys@)),
            r is Err ==> *final(self) == *old(self),
            r matches Err(e) ==> (e matches LoadError::UnresolvedKey(k) && !keys@.contains_key(k)),
    {
        if !self.references_resolve(keys) {
            return Err(self.unresolved_key(keys));
        }
        if let Some(x) = &mut self.equipped {
            restore(&mut x.owner, keys);
        }
        if let Some(x) = &mut self.in_backpack {
            restore(&mut x.owner, keys);
        }
        if let Some(x) = &mut self.suffer_damage {
            restore(&mut x.victim, keys);
        }
        if let Some(x) = &mut self.wants_to_drop_item {
            restore(&mut x.item, keys);
        }
        if let Some(x) = &mut self.wants_to_melee {
            restore(&mut x.target, keys);
        }
        if let Some(x) = &mut self.wants_to_pickup_item {
            restore(&mut x.collected_by, keys);
            restore(&mut x.item, keys);
        }
        if let Some(x) = &mut self.wants_to_remove_item {
            restore(&mut x.item, keys);
        }
        if let Some(x) = &mut self.wants_to_use_item {
            restore(&mut x.item, keys);
        }
        Ok(())
    }

    /// A durable key of `self` that `keys` does not resolve.
    pub fn unresolved_key(&self, keys: &KeyMap) -> (r: LoadError)
        requires
            !all_holders(*self, resolves_fn(keys@)),
        ensures
            r matches LoadError::UnresolvedKey(k) && !keys@.contains_key(k),
    {
        if let Some(x) = self.equipped {
            if let Some(k) = missing(x.owner, keys) {
                return LoadError::UnresolvedKey(k);
            }
        }
        if let Some(x) = self.in_backpack {
            if let Some(k) = missing(x.owner, keys) {
                return LoadError::UnresolvedKey(k);
            }
        }
        if let Some(x) = self.suffer_damage {
            if let Some(k) = missing(x.victim, keys) {
                return LoadError::UnresolvedKey(k);
            }
        }
        if let Some(x) = self.wants_to_drop_item {
            if let Some(k) = missing(x.item, keys) {
                return LoadError::UnresolvedKey(k);
            }
        }
        if let Some(x) = self.wants_to_melee {
            if let Some(k) = missing(x.target, keys) {
                return LoadError::UnresolvedKey(k);
            }
        }
        if let Some(x) = self.wants_to_pickup_item {
            if let Some(k) = missing(x.collected_by, keys) {
                return LoadError::UnresolvedKey(k);
            }
        }
        if let Some(x) = self.wants_to_pickup_item {
            if let Some(k) = missing(x.item, keys) {
                return LoadError::UnresolvedKey(k);
            }
        }
        if let Some(x) = self.wants_to_remove_item {
            if let Some(k) = missing(x.item, keys) {
                return LoadError::UnresolvedKey(k);
            }
        }
        if let Some(x) = self.wants_to_use_item {
            if let Some(k) = missing(x.item, keys) {
                return LoadError::UnresolvedKey(k);
            }
        }
        vstd::pervasive::unreached()
    }
}

} // verus!
