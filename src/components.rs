use vstd::prelude::*;
use crate::entity::{Entity, EntityHolder};

verus! {

/// A map coordinate.
#[derive(Clone, Copy, Debug, PartialEq, Eq, Structural)]
pub struct Point {
    pub x: i32,
    pub y: i32,
}

impl Point {
    pub fn new(x: i32, y: i32) -> (r: Point)
        ensures
            r == (Point { x, y }),
    {
        Point { x, y }
    }
}

/// A colour with 8-bit channels.
#[derive(Clone, Copy, Debug, PartialEq, Eq, Structural)]
pub struct Rgb {
    pub r: u8,
    pub g: u8,
    pub b: u8,
}

/// Equipment slots; one item per slot and owner.
#[derive(Clone, Copy, Debug, PartialEq, Eq, Structural)]
pub enum EquipmentSlot {
    Melee,
    Shield,
}

/// An item's blast radius.
#[derive(Clone, Copy, Debug, PartialEq, Eq, Structural)]
pub struct AreaOfEffect {
    pub radius: i32,
}

impl AreaOfEffect {
    pub fn new(radius: i32) -> (r: AreaOfEffect)
        ensures
            r == (AreaOfEffect { radius }),
    {
        AreaOfEffect { radius }
    }
}

/// Marks an entity that blocks movement through its tile.
#[derive(Clone, Copy, Debug, PartialEq, Eq, Structural)]
pub struct BlocksTile {}

impl BlocksTile {
    pub fn new() -> (r: BlocksTile)
        ensures
            r == (BlocksTile {  }),
    {
        BlocksTile {  }
    }
}

/// Health and base combat numbers.
#[derive(Clone, Copy, Debug, PartialEq, Eq, Structural)]
pub struct CombatStats {
    pub max_hp: i32,
    pub hp: i32,
    pub defense: i32,
    pub power: i32,
}

impl CombatStats {
    pub fn new(max_hp: i32, hp: i32, defense: i32, power: i32) -> (r: CombatStats)
        ensures
            r == (CombatStats { max_hp, hp, defense, power }),
    {
        CombatStats { max_hp, hp, defense, power }
    }
}

/// A timed status (on a monster) or the status an item inflicts (on an item).
#[derive(Clone, Copy, Debug, PartialEq, Eq, Structural)]
pub struct Confusion {
    pub turns: i32,
}

impl Confusion {
    pub fn new(turns: i32) -> (r: Confusion)
        ensures
            r == (Confusion { turns }),
    {
        Confusion { turns }
    }
}

/// Defense added by an equipped item.
#[derive(Clone, Copy, Debug, PartialEq, Eq, Structural)]
pub struct DefenseBonus {
    pub defense: i32,
}

impl DefenseBonus {
    pub fn new(defense: i32) -> (r: DefenseBonus)
        ensures
            r == (DefenseBonus { defense }),
    {
        DefenseBonus { defense }
    }
}

/// An item that can be worn in a slot.
#[derive(Clone, Copy, Debug, PartialEq, Eq, Structural)]
pub struct Equippable {
    pub slot: EquipmentSlot,
}

impl Equippable {
    pub fn new(slot: EquipmentSlot) -> (r: Equippable)
        ensures
            r == (Equippable { slot }),
    {
        Equippable { slot }
    }
}

/// An item worn by `owner` in `slot`.
#[derive(Clone, Copy, Debug, PartialEq, Eq, Structural)]
pub struct Equipped {
    pub owner: EntityHolder,
    pub slot: EquipmentSlot,
}

impl Equipped {
    pub fn new(owner: Entity, slot: EquipmentSlot) -> (r: Equipped)
        ensures
            r == (Equipped { owner: EntityHolder::Live(owner), slot }),
    {
        Equipped { owner: EntityHolder::new(owner), slot }
    }
}

/// An item carried by `owner`.
#[derive(Clone, Copy, Debug, PartialEq, Eq, Structural)]
pub struct InBackpack {
    pub owner: EntityHolder,
}

impl InBackpack {
    pub fn new(owner: Entity) -> (r: InBackpack)
        ensures
            r == (InBackpack { owner: EntityHolder::Live(owner) }),
    {
        InBackpack { owner: EntityHolder::new(owner) }
    }
}

/// Damage an item deals to each target.
#[derive(Clone, Copy, Debug, PartialEq, Eq, Structural)]
pub struct InflictsDamage {
    pub damage: i32,
}

impl InflictsDamage {
    pub fn new(damage: i32) -> (r: InflictsDamage)
        ensures
            r == (InflictsDamage { damage }),
    {
        InflictsDamage { damage }
    }
}

/// Power added by an equipped item.
#[derive(Clone, Copy, Debug, PartialEq, Eq, Structural)]
pub struct MeleePowerBonus {
    pub power: i32,
}

impl MeleePowerBonus {
    pub fn new(power: i32) -> (r: MeleePowerBonus)
        ensures
            r == (MeleePowerBonus { power }),
    {
        MeleePowerBonus { power }
    }
}

/// Durable key an entity was spawned for while a snapshot loads.
#[derive(Clone, Copy, Debug, PartialEq, Eq, Structural)]
pub struct OldEntityID {
    pub entity_id: u64,
}

impl OldEntityID {
    pub fn new(entity_id: u64) -> (r: OldEntityID)
        ensures
            r == (OldEntityID { entity_id }),
    {
        OldEntityID { entity_id }
    }
}

/// Marks the player's entity.
#[derive(Clone, Copy, Debug, PartialEq, Eq, Structural)]
pub struct Player {}

impl Player {
    pub fn new() -> (r: Player)
        ensures
            r == (Player {  }),
    {
        Player {  }
    }
}

/// A tile position.
#[derive(Clone, Copy, Debug, PartialEq, Eq, Structural)]
pub struct Position {
    pub x: i32,
    pub y: i32,
}

impl Position {
    pub fn new(x: i32, y: i32) -> (r: Position)
        ensures
            r == (Position { x, y }),
    {
        Position { x, y }
    }
}

/// Health an item restores to each target.
#[derive(Clone, Copy, Debug, PartialEq, Eq, Structural)]
pub struct ProvidesHealing {
    pub heal_amount: i32,
}

impl ProvidesHealing {
    pub fn new(heal_amount: i32) -> (r: ProvidesHealing)
        ensures
            r == (ProvidesHealing { heal_amount }),
    {
        ProvidesHealing { heal_amount }
    }
}

/// An item used at a chosen point within `range`.
#[derive(Clone, Copy, Debug, PartialEq, Eq, Structural)]
pub struct Ranged {
    pub range: i32,
}

impl Ranged {
    pub fn new(range: i32) -> (r: Ranged)
        ensures
            r == (Ranged { range }),
    {
        Ranged { range }
    }
}

/// How an entity is drawn; a lower `render_order` draws on top.
#[derive(Clone, Copy, Debug, PartialEq, Eq, Structural)]
pub struct Renderable {
    pub glyph: u16,
    pub fg: Rgb,
    pub bg: Rgb,
    pub render_order: i32,
}

impl Renderable {
    pub fn new(glyph: u16, fg: Rgb, bg: Rgb, render_order: i32) -> (r: Renderable)
        ensures
            r == (Renderable { glyph, fg, bg, render_order }),
    {
        Renderable { glyph, fg, bg, render_order }
    }
}

/// A pending damage entry, a free-standing entity referring to its victim.
#[derive(Clone, Copy, Debug, PartialEq, Eq, Structural)]
pub struct SufferDamage {
    pub victim: EntityHolder,
    pub amount: i32,
}

impl SufferDamage {
    pub fn new(victim: Entity, amount: i32) -> (r: SufferDamage)
        ensures
            r == (SufferDamage { victim: EntityHolder::Live(victim), amount }),
    {
        SufferDamage { victim: EntityHolder::new(victim), amount }
    }
}

/// Intent to drop a carried item.
#[derive(Clone, Copy, Debug, PartialEq, Eq, Structural)]
pub struct WantsToDropItem {
    pub item: EntityHolder,
}

impl WantsToDropItem {
    pub fn new(item: Entity) -> (r: WantsToDropItem)
        ensures
            r == (WantsToDropItem { item: EntityHolder::Live(item) }),
    {
        WantsToDropItem { item: EntityHolder::new(item) }
    }
}

/// Intent to attack `target` in melee.
#[derive(Clone, Copy, Debug, PartialEq, Eq, Structural)]
pub struct WantsToMelee {
    pub target: EntityHolder,
}

impl WantsToMelee {
    pub fn new(target: Entity) -> (r: WantsToMelee)
        ensures
            r == (WantsToMelee { target: EntityHolder::Live(target) }),
    {
        WantsToMelee { target: EntityHolder::new(target) }
    }
}

/// Intent of `collected_by` to pick up `item`.
#[derive(Clone, Copy, Debug, PartialEq, Eq, Structural)]
pub struct WantsToPickupItem {
    pub collected_by: EntityHolder,
    pub item: EntityHolder,
}

impl WantsToPickupItem {
    pub fn new(collected_by: Entity, item: Entity) -> (r: WantsToPickupItem)
        ensures
            r == (WantsToPickupItem { collected_by: EntityHolder::Live(collected_by), item: EntityHolder::Live(item) }),
    {
        WantsToPickupItem { collected_by: EntityHolder::new(collected_by), item: EntityHolder::new(item) }
    }
}

/// Intent to take off an equipped item.
#[derive(Clone, Copy, Debug, PartialEq, Eq, Structural)]
pub struct WantsToRemoveItem {
    pub item: EntityHolder,
}

impl WantsToRemoveItem {
    pub fn new(item: Entity) -> (r: WantsToRemoveItem)
        ensures
            r == (WantsToRemoveItem { item: EntityHolder::Live(item) }),
    {
        WantsToRemoveItem { item: EntityHolder::new(item) }
    }
}

/// Intent to use an item, on the user or at a point.
#[derive(Clone, Copy, Debug, PartialEq, Eq, Structural)]
pub struct WantsToUseItem {
    pub item: EntityHolder,
    pub target: Option<Point>,
}

impl WantsToUseItem {
    pub fn new(item: Entity, target: Option<Point>) -> (r: WantsToUseItem)
        ensures
            r == (WantsToUseItem { item: EntityHolder::Live(item), target }),
    {
        WantsToUseItem { item: EntityHolder::new(item), target }
    }
}

/// A display name.
#[derive(Clone, Debug)]
pub struct Name {
    pub name: String,
}

impl Name {
    pub fn new(name: &str) -> (r: Name)
        ensures
            r.name@ == name@,
    {
        Name { name: name.to_owned() }
    }

    /// A copy of the name.
    pub fn copy(&self) -> (r: Name)
        ensures
            r == *self,
    {
        Name { name: self.name.clone() }
    }
}

/// What an entity can see: the tiles in view, the view range, and whether
/// the tiles must be recomputed.
#[derive(Clone, Debug)]
pub struct Viewshed {
    pub visible_tiles: Vec<Point>,
    pub range: i32,
    pub dirty: bool,
}

impl Viewshed {
    pub fn new(visible_tiles: Vec<Point>, range: i32, dirty: bool) -> (r: Viewshed)
        ensures
            r.visible_tiles@ == visible_tiles@,
            r.range == range,
            r.dirty == dirty,
    {
        Viewshed { visible_tiles, range, dirty }
    }

    /// A copy of the viewshed.
    pub fn copy(&self) -> (r: Viewshed)
        ensures
            r.visible_tiles@ == self.visible_tiles@,
            r.range == self.range,
            r.dirty == self.dirty,
    {
        let mut tiles: Vec<Point> = Vec::new();
        let mut i: usize = 0;
        while i < self.visible_tiles.len()
            invariant
                i <= self.visible_tiles.len(),
                tiles@ == self.visible_tiles@.take(i as int),
            decreases self.visible_tiles.len() - i,
        {
            tiles.push(self.visible_tiles[i]);
            i = i + 1;
            proof {
                assert(tiles@ =~= self.visible_tiles@.take(i as int));
            }
        }
        proof {
            assert(tiles@ =~= self.visible_tiles@);
        }
        Viewshed { visible_tiles: tiles, range: self.range, dirty: self.dirty }
    }
}

} // verus!
