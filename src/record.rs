use vstd::prelude::*;
use crate::components::{
    AreaOfEffect, BlocksTile, CombatStats, Confusion, DefenseBonus, Equippable, Equipped, InBackpack,
    InflictsDamage, MeleePowerBonus, Name, OldEntityID, Player, Position, ProvidesHealing, Ranged,
    Renderable, SufferDamage, Viewshed, WantsToDropItem, WantsToMelee, WantsToPickupItem,
    WantsToRemoveItem, WantsToUseItem,
};

verus! {

/// The kinds of component an entity can carry.
#[derive(Clone, Copy, Debug, PartialEq, Eq, Structural)]
pub enum ComponentKind {
    AreaOfEffect,
    BlocksTile,
    CombatStats,
    Confusion,
    DefenseBonus,
    Equippable,
    Equipped,
    InBackpack,
    InflictsDamage,
    MeleePowerBonus,
    Name,
    OldEntityID,
    Player,
    Position,
    ProvidesHealing,
    Ranged,
    Renderable,
    SufferDamage,
    Viewshed,
    WantsToDropItem,
    WantsToMelee,
    WantsToPickupItem,
    WantsToRemoveItem,
    WantsToUseItem,
}

/// A component value of any kind.
#[derive(Clone, Debug)]
pub enum ComponentValue {
    AreaOfEffect(AreaOfEffect),
    BlocksTile(BlocksTile),
    CombatStats(CombatStats),
    Confusion(Confusion),
    DefenseBonus(DefenseBonus),
    Equippable(Equippable),
    Equipped(Equipped),
    InBackpack(InBackpack),
    InflictsDamage(InflictsDamage),
    MeleePowerBonus(MeleePowerBonus),
    Name(Name),
    OldEntityID(OldEntityID),
    Player(Player),
    Position(Position),
    ProvidesHealing(ProvidesHealing),
    Ranged(Ranged),
    Renderable(Renderable),
    SufferDamage(SufferDamage),
    Viewshed(Viewshed),
    WantsToDropItem(WantsToDropItem),
    WantsToMelee(WantsToMelee),
    WantsToPickupItem(WantsToPickupItem),
    WantsToRemoveItem(WantsToRemoveItem),
    WantsToUseItem(WantsToUseItem),
}

/// Category markers without data.
#[derive(Clone, Copy, Debug, PartialEq, Eq, Structural)]
pub enum TagKind {
    Consumable,
    Item,
    Monster,
    SerializeMe,
}

/// The tags an entity carries.
#[derive(Clone, Copy, Debug, PartialEq, Eq, Structural)]
pub struct TagSet {
    pub consumable: bool,
    pub item: bool,
    pub monster: bool,
    pub serialize_me: bool,
}

/// Everything attached to one entity: at most one component per kind, and its tags.
#[derive(Clone, Debug)]
pub struct Components {
    pub area_of_effect: Option<AreaOfEffect>,
    pub blocks_tile: Option<BlocksTile>,
    pub combat_stats: Option<CombatStats>,
    pub confusion: Option<Confusion>,
    pub defense_bonus: Option<DefenseBonus>,
    pub equippable: Option<Equippable>,
    pub equipped: Option<Equipped>,
    pub in_backpack: Option<InBackpack>,
    pub inflicts_damage: Option<InflictsDamage>,
    pub melee_power_bonus: Option<MeleePowerBonus>,
    pub name: Option<Name>,
    pub old_entity_id: Option<OldEntityID>,
    pub player: Option<Player>,
    pub position: Option<Position>,
    pub provides_healing: Option<ProvidesHealing>,
    pub ranged: Option<Ranged>,
    pub renderable: Option<Renderable>,
    pub suffer_damage: Option<SufferDamage>,
    pub viewshed: Option<Viewshed>,
    pub wants_to_drop_item: Option<WantsToDropItem>,
    pub wants_to_melee: Option<WantsToMelee>,
    pub wants_to_pickup_item: Option<WantsToPickupItem>,
    pub wants_to_remove_item: Option<WantsToRemoveItem>,
    pub wants_to_use_item: Option<WantsToUseItem>,
    pub tags: TagSet,
}

/// The record with no component and no tag.
pub open spec fn empty_components() -> Components {
    Components {
        area_of_effect: None,
        blocks_tile: None,
        combat_stats: None,
        confusion: None,
        defense_bonus: None,
        equippable: None,
        equipped: None,
        in_backpack: None,
        inflicts_damage: None,
        melee_power_bonus: None,
        name: None,
        old_entity_id: None,
        player: None,
        position: None,
        provides_healing: None,
        ranged: None,
        renderable: None,
        suffer_damage: None,
        viewshed: None,
        wants_to_drop_item: None,
        wants_to_melee: None,
        wants_to_pickup_item: None,
        wants_to_remove_item: None,
        wants_to_use_item: None,
        tags: TagSet { consumable: false, item: false, monster: false, serialize_me: false },
    }
}

/// The kind of a component value.
pub open spec fn kind_of(v: ComponentValue) -> ComponentKind {
    match v {
        ComponentValue::AreaOfEffect(_) => ComponentKind::AreaOfEffect,
        ComponentValue::BlocksTile(_) => ComponentKind::BlocksTile,
        ComponentValue::CombatStats(_) => ComponentKind::CombatStats,
        ComponentValue::Confusion(_) => ComponentKind::Confusion,
        ComponentValue::DefenseBonus(_) => ComponentKind::DefenseBonus,
        ComponentValue::Equippable(_) => ComponentKind::Equippable,
        ComponentValue::Equipped(_) => ComponentKind::Equipped,
        ComponentValue::InBackpack(_) => ComponentKind::InBackpack,
        ComponentValue::InflictsDamage(_) => ComponentKind::InflictsDamage,
        ComponentValue::MeleePowerBonus(_) => ComponentKind::MeleePowerBonus,
        ComponentValue::Name(_) => ComponentKind::Name,
        ComponentValue::OldEntityID(_) => ComponentKind::OldEntityID,
        ComponentValue::Player(_) => ComponentKind::Player,
        ComponentValue::Position(_) => ComponentKind::Position,
        ComponentValue::ProvidesHealing(_) => ComponentKind::ProvidesHealing,
        ComponentValue::Ranged(_) => ComponentKind::Ranged,
        ComponentValue::Renderable(_) => ComponentKind::Renderable,
        ComponentValue::SufferDamage(_) => ComponentKind::SufferDamage,
        ComponentValue::Viewshed(_) => ComponentKind::Viewshed,
        ComponentValue::WantsToDropItem(_) => ComponentKind::WantsToDropItem,
        ComponentValue::WantsToMelee(_) => ComponentKind::WantsToMelee,
        ComponentValue::WantsToPickupItem(_) => ComponentKind::WantsToPickupItem,
        ComponentValue::WantsToRemoveItem(_) => ComponentKind::WantsToRemoveItem,
        ComponentValue::WantsToUseItem(_) => ComponentKind::WantsToUseItem,
    }
}

impl TagSet {
    pub open spec fn spec_has(self, t: TagKind) -> bool {
        match t {
            TagKind::Consumable => self.consumable,
            TagKind::Item => self.item,
            TagKind::Monster => self.monster,
            TagKind::SerializeMe => self.serialize_me,
        }
    }

    pub open spec fn spec_with(self, t: TagKind, on: bool) -> TagSet {
        match t {
            TagKind::Consumable => TagSet { consumable: on, ..self },
            TagKind::Item => TagSet { item: on, ..self },
            TagKind::Monster => TagSet { monster: on, ..self },
            TagKind::SerializeMe => TagSet { serialize_me: on, ..self },
        }
    }

    pub fn empty() -> (r: TagSet)
        ensures
            r == (TagSet { consumable: false, item: false, monster: false, serialize_me: false }),
    {
        TagSet { consumable: false, item: false, monster: false, serialize_me: false }
    }

    pub fn has(&self, t: TagKind) -> (r: bool)
        ensures
            r == self.spec_has(t),
    {
        match t {
            TagKind::Consumable => self.consumable,
            TagKind::Item => self.item,
            TagKind::Monster => self.monster,
            TagKind::SerializeMe => self.serialize_me,
        }
    }

    pub fn set(&mut self, t: TagKind, on: bool)
        ensures
            *final(self) == old(self).spec_with(t, on),
    {
        match t {
            TagKind::Consumable => self.consumable = on,
            TagKind::Item => self.item = on,
            TagKind::Monster => self.monster = on,
            TagKind::SerializeMe => self.serialize_me = on,
        }
    }
}

impl Components {
    /// Whether a component of kind `k` is present.
    pub open spec fn spec_has(self, k: ComponentKind) -> bool {
        match k {
            ComponentKind::AreaOfEffect => self.area_of_effect is Some,
            ComponentKind::BlocksTile => self.blocks_tile is Some,
            ComponentKind::CombatStats => self.combat_stats is Some,
            ComponentKind::Confusion => self.confusion is Some,
            ComponentKind::DefenseBonus => self.defense_bonus is Some,
            ComponentKind::Equippable => self.equippable is Some,
            ComponentKind::Equipped => self.equipped is Some,
            ComponentKind::InBackpack => self.in_backpack is Some,
            ComponentKind::InflictsDamage => self.inflicts_damage is Some,
            ComponentKind::MeleePowerBonus => self.melee_power_bonus is Some,
            ComponentKind::Name => self.name is Some,
            ComponentKind::OldEntityID => self.old_entity_id is Some,
            ComponentKind::Player => self.player is Some,
            ComponentKind::Position => self.position is Some,
            ComponentKind::ProvidesHealing => self.provides_healing is Some,
            ComponentKind::Ranged => self.ranged is Some,
            ComponentKind::Renderable => self.renderable is Some,
            ComponentKind::SufferDamage => self.suffer_damage is Some,
            ComponentKind::Viewshed => self.viewshed is Some,
            ComponentKind::WantsToDropItem => self.wants_to_drop_item is Some,
            ComponentKind::WantsToMelee => self.wants_to_melee is Some,
            ComponentKind::WantsToPickupItem => self.wants_to_pickup_item is Some,
            ComponentKind::WantsToRemoveItem => self.wants_to_remove_item is Some,
            ComponentKind::WantsToUseItem => self.wants_to_use_item is Some,
        }
    }

    /// The record with `v` attached, replacing any component of its kind.
    pub open spec fn spec_with(self, v: ComponentValue) -> Components {
        match v {
            ComponentValue::AreaOfEffect(c) => Components { area_of_effect: Some(c), ..self },
            ComponentValue::BlocksTile(c) => Components { blocks_tile: Some(c), ..self },
            ComponentValue::CombatStats(c) => Components { combat_stats: Some(c), ..self },
            ComponentValue::Confusion(c) => Components { confusion: Some(c), ..self },
            ComponentValue::DefenseBonus(c) => Components { defense_bonus: Some(c), ..self },
            ComponentValue::Equippable(c) => Components { equippable: Some(c), ..self },
            ComponentValue::Equipped(c) => Components { equipped: Some(c), ..self },
            ComponentValue::InBackpack(c) => Components { in_backpack: Some(c), ..self },
            ComponentValue::InflictsDamage(c) => Components { inflicts_damage: Some(c), ..self },
            ComponentValue::MeleePowerBonus(c) => Components { melee_power_bonus: Some(c), ..self },
            ComponentValue::Name(c) => Components { name: Some(c), ..self },
            ComponentValue::OldEntityID(c) => Components { old_entity_id: Some(c), ..self },
            ComponentValue::Player(c) => Components { player: Some(c), ..self },
            ComponentValue::Position(c) => Components { position: Some(c), ..self },
            ComponentValue::ProvidesHealing(c) => Components { provides_healing: Some(c), ..self },
            ComponentValue::Ranged(c) => Components { ranged: Some(c), ..self },
            ComponentValue::Renderable(c) => Components { renderable: Some(c), ..self },
            ComponentValue::SufferDamage(c) => Components { suffer_damage: Some(c), ..self },
            ComponentValue::Viewshed(c) => Components { viewshed: Some(c), ..self },
            ComponentValue::WantsToDropItem(c) => Components { wants_to_drop_item: Some(c), ..self },
            ComponentValue::WantsToMelee(c) => Components { wants_to_melee: Some(c), ..self },
            ComponentValue::WantsToPickupItem(c) => Components { wants_to_pickup_item: Some(c), ..self },
            ComponentValue::WantsToRemoveItem(c) => Components { wants_to_remove_item: Some(c), ..self },
            ComponentValue::WantsToUseItem(c) => Components { wants_to_use_item: Some(c), ..self },
        }
    }

    /// The record without its component of kind `k`.
    pub open spec fn spec_without(self, k: ComponentKind) -> Components {
        match k {
            ComponentKind::AreaOfEffect => Components { area_of_effect: None, ..self },
            ComponentKind::BlocksTile => Components { blocks_tile: None, ..self },
            ComponentKind::CombatStats => Components { combat_stats: None, ..self },
            ComponentKind::Confusion => Components { confusion: None, ..self },
            ComponentKind::DefenseBonus => Components { defense_bonus: None, ..self },
            ComponentKind::Equippable => Components { equippable: None, ..self },
            ComponentKind::Equipped => Components { equipped: None, ..self },
            ComponentKind::InBackpack => Components { in_backpack: None, ..self },
            ComponentKind::InflictsDamage => Components { inflicts_damage: None, ..self },
            ComponentKind::MeleePowerBonus => Components { melee_power_bonus: None, ..self },
            ComponentKind::Name => Components { name: None, ..self },
            ComponentKind::OldEntityID => Components { old_entity_id: None, ..self },
            ComponentKind::Player => Components { player: None, ..self },
            ComponentKind::Position => Components { position: None, ..self },
            ComponentKind::ProvidesHealing => Components { provides_healing: None, ..self },
            ComponentKind::Ranged => Components { ranged: None, ..self },
            ComponentKind::Renderable => Components { renderable: None, ..self },
            ComponentKind::SufferDamage => Components { suffer_damage: None, ..self },
            ComponentKind::Viewshed => Components { viewshed: None, ..self },
            ComponentKind::WantsToDropItem => Components { wants_to_drop_item: None, ..self },
            ComponentKind::WantsToMelee => Components { wants_to_melee: None, ..self },
            ComponentKind::WantsToPickupItem => Components { wants_to_pickup_item: None, ..self },
            ComponentKind::WantsToRemoveItem => Components { wants_to_remove_item: None, ..self },
            ComponentKind::WantsToUseItem => Components { wants_to_use_item: None, ..self },
        }
    }

    /// A record with no component and no tag.
    pub fn empty() -> (r: Components)
        ensures
            r == empty_components(),
    {
        Components {
            area_of_effect: None,
            blocks_tile: None,
            combat_stats: None,
            confusion: None,
            defense_bonus: None,
            equippable: None,
            equipped: None,
            in_backpack: None,
            inflicts_damage: None,
            melee_power_bonus: None,
            name: None,
            old_entity_id: None,
            player: None,
            position: None,
            provides_healing: None,
            ranged: None,
            renderable: None,
            suffer_damage: None,
            viewshed: None,
            wants_to_drop_item: None,
            wants_to_melee: None,
            wants_to_pickup_item: None,
            wants_to_remove_item: None,
            wants_to_use_item: None,
            tags: TagSet::empty(),
        }
    }

    pub fn has(&self, k: ComponentKind) -> (r: bool)
        ensures
            r == self.spec_has(k),
    {
        match k {
            ComponentKind::AreaOfEffect => self.area_of_effect.is_some(),
            ComponentKind::BlocksTile => self.blocks_tile.is_some(),
            ComponentKind::CombatStats => self.combat_stats.is_some(),
            ComponentKind::Confusion => self.confusion.is_some(),
            ComponentKind::DefenseBonus => self.defense_bonus.is_some(),
            ComponentKind::Equippable => self.equippable.is_some(),
            ComponentKind::Equipped => self.equipped.is_some(),
            ComponentKind::InBackpack => self.in_backpack.is_some(),
            ComponentKind::InflictsDamage => self.inflicts_damage.is_some(),
            ComponentKind::MeleePowerBonus => self.melee_power_bonus.is_some(),
            ComponentKind::Name => self.name.is_some(),
            ComponentKind::OldEntityID => self.old_entity_id.is_some(),
            ComponentKind::Player => self.player.is_some(),
            ComponentKind::Position => self.position.is_some(),
            ComponentKind::ProvidesHealing => self.provides_healing.is_some(),
            ComponentKind::Ranged => self.ranged.is_some(),
            ComponentKind::Renderable => self.renderable.is_some(),
            ComponentKind::SufferDamage => self.suffer_damage.is_some(),
            ComponentKind::Viewshed => self.viewshed.is_some(),
            ComponentKind::WantsToDropItem => self.wants_to_drop_item.is_some(),
            ComponentKind::WantsToMelee => self.wants_to_melee.is_some(),
            ComponentKind::WantsToPickupItem => self.wants_to_pickup_item.is_some(),
            ComponentKind::WantsToRemoveItem => self.wants_to_remove_item.is_some(),
            ComponentKind::WantsToUseItem => self.wants_to_use_item.is_some(),
        }
    }

    pub fn set(&mut self, v: ComponentValue)
        ensures
            *final(self) == old(self).spec_with(v),
    {
        match v {
            ComponentValue::AreaOfEffect(c) => self.area_of_effect = Some(c),
            ComponentValue::BlocksTile(c) => self.blocks_tile = Some(c),
            ComponentValue::CombatStats(c) => self.combat_stats = Some(c),
            ComponentValue::Confusion(c) => self.confusion = Some(c),
            ComponentValue::DefenseBonus(c) => self.defense_bonus = Some(c),
            ComponentValue::Equippable(c) => self.equippable = Some(c),
            ComponentValue::Equipped(c) => self.equipped = Some(c),
            ComponentValue::InBackpack(c) => self.in_backpack = Some(c),
            ComponentValue::InflictsDamage(c) => self.inflicts_damage = Some(c),
            ComponentValue::MeleePowerBonus(c) => self.melee_power_bonus = Some(c),
            ComponentValue::Name(c) => self.name = Some(c),
            ComponentValue::OldEntityID(c) => self.old_entity_id = Some(c),
            ComponentValue::Player(c) => self.player = Some(c),
            ComponentValue::Position(c) => self.position = Some(c),
            ComponentValue::ProvidesHealing(c) => self.provides_healing = Some(c),
            ComponentValue::Ranged(c) => self.ranged = Some(c),
            ComponentValue::Renderable(c) => self.renderable = Some(c),
            ComponentValue::SufferDamage(c) => self.suffer_damage = Some(c),
            ComponentValue::Viewshed(c) => self.viewshed = Some(c),
            ComponentValue::WantsToDropItem(c) => self.wants_to_drop_item = Some(c),
            ComponentValue::WantsToMelee(c) => self.wants_to_melee = Some(c),
            ComponentValue::WantsToPickupItem(c) => self.wants_to_pickup_item = Some(c),
            ComponentValue::WantsToRemoveItem(c) => self.wants_to_remove_item = Some(c),
            ComponentValue::WantsToUseItem(c) => self.wants_to_use_item = Some(c),
        }
    }

    pub fn remove(&mut self, k: ComponentKind)
        ensures
            *final(self) == old(self).spec_without(k),
    {
        match k {
            ComponentKind::AreaOfEffect => self.area_of_effect = None,
            ComponentKind::BlocksTile => self.blocks_tile = None,
            ComponentKind::CombatStats => self.combat_stats = None,
            ComponentKind::Confusion => self.confusion = None,
            ComponentKind::DefenseBonus => self.defense_bonus = None,
            ComponentKind::Equippable => self.equippable = None,
            ComponentKind::Equipped => self.equipped = None,
            ComponentKind::InBackpack => self.in_backpack = None,
            ComponentKind::InflictsDamage => self.inflicts_damage = None,
            ComponentKind::MeleePowerBonus => self.melee_power_bonus = None,
            ComponentKind::Name => self.name = None,
            ComponentKind::OldEntityID => self.old_entity_id = None,
            ComponentKind::Player => self.player = None,
            ComponentKind::Position => self.position = None,
            ComponentKind::ProvidesHealing => self.provides_healing = None,
            ComponentKind::Ranged => self.ranged = None,
            ComponentKind::Renderable => self.renderable = None,
            ComponentKind::SufferDamage => self.suffer_damage = None,
            ComponentKind::Viewshed => self.viewshed = None,
            ComponentKind::WantsToDropItem => self.wants_to_drop_item = None,
            ComponentKind::WantsToMelee => self.wants_to_melee = None,
            ComponentKind::WantsToPickupItem => self.wants_to_pickup_item = None,
            ComponentKind::WantsToRemoveItem => self.wants_to_remove_item = None,
            ComponentKind::WantsToUseItem => self.wants_to_use_item = None,
        }
    }
}

} // verus!
