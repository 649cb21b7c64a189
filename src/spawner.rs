use vstd::prelude::*;
use rltk::RandomNumberGenerator;
use crate::components::{
    AreaOfEffect, BlocksTile, CombatStats, Confusion, DefenseBonus, EquipmentSlot, Equippable,
    InflictsDamage, MeleePowerBonus, Name, Player, Position, ProvidesHealing, Ranged, Renderable,
    Rgb, Viewshed,
};
use crate::entity::Entity;
use crate::map::Rect;
use crate::record::Components;
use crate::world::World;
use crate::load_system::spawned_entity;

verus! {

/// rltk's random number generator, carried through unopened.
#[verifier::external_type_specification]
#[verifier::external_body]
pub struct ExRandomNumberGenerator(RandomNumberGenerator);

/// Relies on rltk's `RandomNumberGenerator::roll_dice`: the sum of `n`
/// draws from `1..=die`, so at least `n` and at most `n * die`. A die
/// below 1 would be an empty range, which panics.
#[verifier::external_body]
fn roll_dice(rng: &mut RandomNumberGenerator, n: i32, die: i32) -> (r: i32)
    requires
        0 <= n,
        1 <= die < i32::MAX,
        n * die <= i32::MAX,
    ensures
        n <= r <= n * die,
{
    rng.roll_dice(n, die)
}

/// The code-page 437 glyph rltk gives a character.
pub uninterp spec fn cp437_of(c: char) -> u16;

/// Relies on rltk's `to_cp437`: a table lookup, which maps each printable
/// ASCII character to its own code.
#[verifier::external_body]
fn glyph(c: char) -> (r: u16)
    ensures
        r == cp437_of(c),
        '!' <= c <= 'z' ==> r == c as u16,
{
    rltk::to_cp437(c)
}

pub const MAX_MONSTERS: i32 = 4;

/// What a room can hold.
#[derive(Clone, Copy, Debug, PartialEq, Eq, Structural)]
pub enum Spawnable {
    Goblin,
    Orc,
    HealthPotion,
    FireballScroll,
    ConfusionScroll,
    MagicMissileScroll,
    Dagger,
    Shield,
    Longsword,
    TowerShield,
}

pub fn black() -> (r: Rgb)
    ensures
        r == (Rgb { r: 0, g: 0, b: 0 }),
{
    Rgb { r: 0, g: 0, b: 0 }
}

fn renderable(c: char, fg: Rgb, order: i32) -> (r: Renderable)
    ensures
        r.fg == fg,
        r.bg == (Rgb { r: 0, g: 0, b: 0 }),
        r.render_order == order,
        r.glyph == cp437_of(c),
{
    Renderable { glyph: glyph(c), fg, bg: black(), render_order: order }
}

/// A new player at `(x, y)`: named "Player", full health 30 with defense
/// 2 and power 5, an empty view of range 8 waiting to be computed, and
/// persisted.
pub open spec fn fresh_player(r: Components, x: i32, y: i32) -> bool {
    &&& r.player is Some
    &&& r.position == Some(Position { x, y })
    &&& r.combat_stats == Some(CombatStats { max_hp: 30, hp: 30, defense: 2, power: 5 })
    &&& r.viewshed is Some && r.viewshed.unwrap().range == 8 && r.viewshed.unwrap().dirty
    &&& r.viewshed.unwrap().visible_tiles@.len() == 0
    &&& r.name is Some && r.name.unwrap().name@ == "Player"@
    &&& r.tags.serialize_me && !r.tags.monster && !r.tags.item
}

/// The player's components at `(x, y)`.
pub fn player_components(x: i32, y: i32) -> (r: Components)
    ensures
        fresh_player(r, x, y),
{
    let mut c = Components::empty();
    c.position = Some(Position::new(x, y));
    c.renderable = Some(renderable('@', Rgb { r: 255, g: 255, b: 0 }, 0));
    c.player = Some(Player::new());
    c.viewshed = Some(Viewshed::new(Vec::new(), 8, true));
    c.name = Some(Name::new("Player"));
    c.combat_stats = Some(CombatStats::new(30, 30, 2, 5));
    c.tags.serialize_me = true;
    c
}

/// A monster's components at `(x, y)`.
fn monster(x: i32, y: i32, c: char, name: &str) -> (r: Components)
    ensures
        r.player is None,
        r.name is Some && r.name.unwrap().name@ == name@,
        r.position == Some(Position { x, y }),
        r.combat_stats == Some(CombatStats { max_hp: 16, hp: 16, defense: 1, power: 4 }),
        r.blocks_tile is Some,
        r.tags.serialize_me && r.tags.monster,
{
    let mut m = Components::empty();
    m.position = Some(Position::new(x, y));
    m.renderable = Some(renderable(c, Rgb { r: 255, g: 0, b: 0 }, 1));
    m.viewshed = Some(Viewshed::new(Vec::new(), 8, true));
    m.name = Some(Name::new(name));
    m.blocks_tile = Some(BlocksTile::new());
    m.combat_stats = Some(CombatStats::new(16, 16, 1, 4));
    m.tags.serialize_me = true;
    m.tags.monster = true;
    m
}

fn item(x: i32, y: i32, c: char, fg: Rgb, name: &str, consumable: bool) -> (r: Components)
    ensures
        r.player is None,
        r.name is Some && r.name.unwrap().name@ == name@,
        r.position == Some(Position { x, y }),
        r.tags.serialize_me && r.tags.item && r.tags.consumable == consumable,
{
    let mut m = Components::empty();
    m.position = Some(Position::new(x, y));
    m.renderable = Some(renderable(c, fg, 2));
    m.name = Some(Name::new(name));
    m.tags.serialize_me = true;
    m.tags.item = true;
    m.tags.consumable = consumable;
    m
}

/// The name a spawn of `kind` carries.
pub open spec fn spawn_name(kind: Spawnable) -> Seq<char> {
    match kind {
        Spawnable::Goblin => "Goblin"@,
        Spawnable::Orc => "Orc"@,
        Spawnable::HealthPotion => "Health Potion"@,
        Spawnable::FireballScroll => "Fireball Scroll"@,
        Spawnable::ConfusionScroll => "Confusion Scroll"@,
        Spawnable::MagicMissileScroll => "Magic Missile Scroll"@,
        Spawnable::Dagger => "Dagger"@,
        Spawnable::Shield => "Shield"@,
        Spawnable::Longsword => "Longsword"@,
        Spawnable::TowerShield => "Tower Shield"@,
    }
}

/// The items `debug_all_item` lays out, in order.
pub open spec fn every_item() -> Seq<Spawnable> {
    seq![
        Spawnable::HealthPotion,
        Spawnable::MagicMissileScroll,
        Spawnable::FireballScroll,
        Spawnable::ConfusionScroll,
        Spawnable::Dagger,
        Spawnable::Shield,
        Spawnable::Longsword,
        Spawnable::TowerShield,
    ]
}

/// The components of a `kind` at `(x, y)`.
pub fn template(kind: Spawnable, x: i32, y: i32) -> (r: Components)
    ensures
        r.player is None,
        r.name is Some && r.name.unwrap().name@ == spawn_name(kind),
        kind != Spawnable::Goblin && kind != Spawnable::Orc ==> r.tags.item,
        r.position == Some(Position { x, y }),
        r.tags.serialize_me,
{
    let cyan = Rgb { r: 0, g: 255, b: 255 };
    let yellow = Rgb { r: 255, g: 255, b: 0 };
    match kind {
        Spawnable::Goblin => monster(x, y, 'g', "Goblin"),
        Spawnable::Orc => monster(x, y, 'o', "Orc"),
        Spawnable::HealthPotion => {
            let mut c = item(x, y, '¡', Rgb { r: 255, g: 0, b: 255 }, "Health Potion", true);
            c.provides_healing = Some(ProvidesHealing::new(8));
            c
        },
        Spawnable::MagicMissileScroll => {
            let mut c = item(x, y, ')', cyan, "Magic Missile Scroll", true);
            c.ranged = Some(Ranged::new(6));
            c.inflicts_damage = Some(InflictsDamage::new(8));
            c
        },
        Spawnable::FireballScroll => {
            let mut c = item(x, y, ')', Rgb { r: 255, g: 165, b: 0 }, "Fireball Scroll", true);
            c.ranged = Some(Ranged::new(6));
            c.inflicts_damage = Some(InflictsDamage::new(20));
            c.area_of_effect = Some(AreaOfEffect::new(3));
            c
        },
        Spawnable::ConfusionScroll => {
            let mut c = item(x, y, ')', Rgb { r: 255, g: 192, b: 203 }, "Confusion Scroll", true);
            c.ranged = Some(Ranged::new(6));
            c.confusion = Some(Confusion::new(4));
            c
        },
        Spawnable::Dagger => {
            let mut c = item(x, y, '/', cyan, "Dagger", false);
            c.equippable = Some(Equippable::new(EquipmentSlot::Melee));
            c.melee_power_bonus = Some(MeleePowerBonus::new(2));
            c
        },
        Spawnable::Shield => {
            let mut c = item(x, y, '(', cyan, "Shield", false);
            c.equippable = Some(Equippable::new(EquipmentSlot::Shield));
            c.defense_bonus = Some(DefenseBonus::new(1));
            c
        },
        Spawnable::Longsword => {
            let mut c = item(x, y, '/', yellow, "Longsword", false);
            c.equippable = Some(Equippable::new(EquipmentSlot::Melee));
            c.melee_power_bonus = Some(MeleePowerBonus::new(4));
            c
        },
        Spawnable::TowerShield => {
            let mut c = item(x, y, '(', yellow, "Tower Shield", false);
            c.equippable = Some(Equippable::new(EquipmentSlot::Shield));
            c.defense_bonus = Some(DefenseBonus::new(3));
            c
        },
    }
}

/// Spawns the player at `(x, y)`.
pub fn player(world: &mut World, x: i32, y: i32) -> (r: Entity)
    requires
        old(world).wf(),
        old(world)@.next_id < u64::MAX,
    ensures
        final(world).wf(),
        final(world)@ == old(world)@.spawned(final(world)@.data[r]),
        r.id == old(world)@.next_id,
        fresh_player(final(world)@.data[r], x, y),
{
    let c = player_components(x, y);
    world.spawn(c)
}

/// Spawns one of every item at `(x, y)`, in the order of `every_item`.
pub fn debug_all_item(world: &mut World, x: i32, y: i32)
    requires
        old(world).wf(),
        old(world)@.next_id + 8 < u64::MAX,
    ensures
        final(world).wf(),
        final(world)@.next_id == old(world)@.next_id + 8,
        forall|e: Entity| #[trigger] old(world)@.alive(e) ==> final(world)@.alive(e) && final(world)@.data[e]
            == old(world)@.data[e],
        forall|k: int|
            0 <= k < 8 ==> {
                let e = #[trigger] spawned_entity(old(world)@.next_id, k);
                &&& final(world)@.alive(e)
                &&& final(world)@.data[e].position == Some(Position { x, y })
                &&& final(world)@.data[e].name is Some
                &&& final(world)@.data[e].name.unwrap().name@ == spawn_name(every_item()[k])
                &&& final(world)@.data[e].tags.item
            },
{
    let kinds: [Spawnable; 8] = [
        Spawnable::HealthPotion,
        Spawnable::MagicMissileScroll,
        Spawnable::FireballScroll,
        Spawnable::ConfusionScroll,
        Spawnable::Dagger,
        Spawnable::Shield,
        Spawnable::Longsword,
        Spawnable::TowerShield,
    ];
    let ghost m = world@;
    let mut i: usize = 0;
    while i < 8
        invariant
            world.wf(),
            i <= 8,
            world@.next_id == m.next_id + i,
            m.next_id + 8 < u64::MAX,
            forall|e: Entity| #[trigger] m.alive(e) ==> world@.alive(e) && world@.data[e] == m.data[e],
            kinds@ == every_item(),
            forall|k: int|
                0 <= k < i ==> {
                    let e = #[trigger] spawned_entity(m.next_id, k);
                    &&& world@.alive(e)
                    &&& world@.data[e].position == Some(Position { x, y })
                    &&& world@.data[e].name is Some
                    &&& world@.data[e].name.unwrap().name@ == spawn_name(every_item()[k])
                    &&& world@.data[e].tags.item
                },
        decreases 8 - i,
    {
        let ghost before = world@;
        let kind = kinds[i];
        let c = template(kind, x, y);
        assert(kind != Spawnable::Goblin && kind != Spawnable::Orc);
        world.spawn(c);
        proof {
            assert forall|e: Entity| #[trigger] m.alive(e) implies world@.alive(e) && world@.data[e]
                == m.data[e] by {
                assert(before.alive(e));
            }
            assert forall|k: int| 0 <= k < i + 1 implies {
                let e = #[trigger] spawned_entity(m.next_id, k);
                &&& world@.alive(e)
                &&& world@.data[e].position == Some(Position { x, y })
                &&& world@.data[e].name is Some
                &&& world@.data[e].name.unwrap().name@ == spawn_name(every_item()[k])
                &&& world@.data[e].tags.item
            } by {
                let e = spawned_entity(m.next_id, k);
                if k < i {
                    assert(before.alive(e));
                }
            }
        }
        i = i + 1;
    }
}

/// A weighted entry of a spawn table.
#[derive(Clone, Copy, Debug, PartialEq, Eq, Structural)]
pub struct TableEntry {
    pub kind: Spawnable,
    pub weight: i32,
}

/// The sum of the weights.
pub open spec fn total_weight(t: Seq<TableEntry>) -> int
    decreases t.len(),
{
    if t.len() == 0 {
        0
    } else {
        total_weight(t.drop_last()) + t.last().weight
    }
}

/// The entry whose share of the weights holds `roll` (counted from 0).
pub open spec fn pick(t: Seq<TableEntry>, roll: int) -> Option<Spawnable>
    decreases t.len(),
{
    if t.len() == 0 {
        None
    } else if roll < t[0].weight {
        Some(t[0].kind)
    } else {
        pick(t.drop_first(), roll - t[0].weight)
    }
}

/// Whether every weight is positive and their sum fits an `i32`.
pub open spec fn table_ok(t: Seq<TableEntry>) -> bool {
    &&& forall|i: int| 0 <= i < t.len() ==> (#[trigger] t[i]).weight > 0
    &&& total_weight(t) < i32::MAX
}

fn add_entry(t: &mut Vec<TableEntry>, kind: Spawnable, weight: i32)
    ensures
        weight > 0 ==> final(t)@ == old(t)@.push(TableEntry { kind, weight }),
        weight <= 0 ==> final(t)@ == old(t)@,
{
    if weight > 0 {
        t.push(TableEntry { kind, weight });
    }
}

/// What rooms at `depth` may hold, and how likely each is.
pub fn room_table(depth: i32) -> (r: Vec<TableEntry>)
    requires
        1 <= depth <= MAX_DEPTH,
    ensures
        table_ok(r@),
        total_weight(r@) > 0,
{
    let mut t: Vec<TableEntry> = Vec::new();
    add_entry(&mut t, Spawnable::Goblin, 10);
    add_entry(&mut t, Spawnable::Orc, 1 + depth);
    add_entry(&mut t, Spawnable::HealthPotion, 7);
    add_entry(&mut t, Spawnable::FireballScroll, 2 + depth);
    add_entry(&mut t, Spawnable::ConfusionScroll, 2 + depth);
    add_entry(&mut t, Spawnable::MagicMissileScroll, 4);
    add_entry(&mut t, Spawnable::Dagger, 3);
    add_entry(&mut t, Spawnable::Shield, 3);
    add_entry(&mut t, Spawnable::Longsword, depth - 1);
    add_entry(&mut t, Spawnable::TowerShield, depth - 1);
    proof {
        let b = depth + 10;
        lemma_total_bound(t@, b);
        assert(b * t@.len() <= b * 10) by (nonlinear_arith)
            requires
                t@.len() <= 10,
                b >= 0,
        ;
        lemma_total_positive(t@);
    }
    t
}

proof fn lemma_total_bound(t: Seq<TableEntry>, b: int)
    requires
        forall|i: int| 0 <= i < t.len() ==> 0 < (#[trigger] t[i]).weight <= b,
    ensures
        total_weight(t) <= b * t.len(),
    decreases t.len(),
{
    if t.len() > 0 {
        lemma_total_bound(t.drop_last(), b);
        assert(b * t.len() == b * t.drop_last().len() + b) by (nonlinear_arith)
            requires
                t.drop_last().len() + 1 == t.len(),
        ;
        assert(t.last() == t[t.len() - 1]);
    }
}

proof fn lemma_total_positive(t: Seq<TableEntry>)
    requires
        t.len() > 0,
        forall|i: int| 0 <= i < t.len() ==> (#[trigger] t[i]).weight > 0,
    ensures
        total_weight(t) > 0,
    decreases t.len(),
{
    if t.len() > 1 {
        assert forall|i: int| 0 <= i < t.drop_last().len() implies (#[trigger] t.drop_last()[i]).weight > 0 by {
            assert(t.drop_last()[i] == t[i]);
        }
        lemma_total_positive(t.drop_last());
    }
    assert(t.last() == t[t.len() - 1]);
    if t.len() == 1 {
        assert(t.drop_last().len() == 0);
        assert(total_weight(t.drop_last()) == 0);
    }
}

/// The entry `roll` falls on.
pub fn pick_entry(t: &Vec<TableEntry>, roll: i32) -> (r: Option<Spawnable>)
    requires
        0 <= roll,
        table_ok(t@),
    ensures
        r == pick(t@, roll as int),
{
    let mut rest: i64 = roll as i64;
    let mut i: usize = 0;
    proof {
        assert(t@.skip(0) =~= t@);
    }
    while i < t.len()
        invariant
            table_ok(t@),
            i <= t@.len(),
            0 <= rest <= roll,
            pick(t@, roll as int) == pick(t@.skip(i as int), rest as int),
        decreases t.len() - i,
    {
        proof {
            assert(t@.skip(i as int)[0] == t@[i as int]);
            assert(t@.skip(i as int).drop_first() =~= t@.skip(i as int + 1));
        }
        if rest < t[i].weight as i64 {
            return Some(t[i].kind);
        }
        rest = rest - t[i].weight as i64;
        i = i + 1;
    }
    None
}

/// Rolls an entry of `t`, each with a chance proportional to its weight.
pub fn roll_table(t: &Vec<TableEntry>, rng: &mut RandomNumberGenerator) -> (r: Option<Spawnable>)
    requires
        table_ok(t@),
    ensures
        total_weight(t@) > 0 ==> exists|roll: int| 0 <= roll < total_weight(t@) && r == pick(t@, roll),
{
    if t.len() == 0 {
        return None;
    }
    proof {
        lemma_total_positive(t@);
    }
    let total = total_of(t);
    let roll = roll_dice(rng, 1, total) - 1;
    pick_entry(t, roll)
}

fn total_of(t: &Vec<TableEntry>) -> (r: i32)
    requires
        table_ok(t@),
    ensures
        r == total_weight(t@),
{
    let mut sum: i64 = 0;
    let mut i: usize = 0;
    while i < t.len()
        invariant
            table_ok(t@),
            i <= t@.len(),
            sum == total_weight(t@.take(i as int)),
            0 <= sum,
        decreases t.len() - i,
    {
        proof {
            assert(t@.take(i as int + 1).drop_last() =~= t@.take(i as int));
            lemma_prefix_total(t@, i as int + 1);
        }
        sum = sum + t[i].weight as i64;
        i = i + 1;
    }
    proof {
        assert(t@.take(i as int) =~= t@);
    }
    sum as i32
}

proof fn lemma_prefix_total(t: Seq<TableEntry>, k: int)
    requires
        0 <= k <= t.len(),
        forall|i: int| 0 <= i < t.len() ==> (#[trigger] t[i]).weight > 0,
    ensures
        total_weight(t.take(k)) <= total_weight(t),
    decreases t.len() - k,
{
    if k < t.len() {
        lemma_prefix_total(t, k + 1);
        assert(t.take(k + 1).drop_last() =~= t.take(k));
        assert(t.take(k + 1).last() == t[k]);
    } else {
        assert(t.take(k) =~= t);
    }
}

/// Whether `c` is a spawn of `room`: persisted, not a player, on a tile
/// inside the room's walls.
pub open spec fn spawned_in(c: Components, room: Rect) -> bool {
    &&& c.player is None
    &&& c.tags.serialize_me
    &&& c.position is Some
    &&& room.x1 < c.position.unwrap().x <= room.x2
    &&& room.y1 < c.position.unwrap().y <= room.y2
}

/// The largest depth the spawn tables support: their weights must add up
/// within an `i32`.
pub const MAX_DEPTH: i32 = 200_000_000;

/// Fills a room with at most `MAX_MONSTERS + 2 + depth` spawns from the
/// depth's table, each on its own tile inside the room.
pub fn spawn_room(
    world: &mut World,
    room: &Rect,
    depth: i32,
    rng: &mut RandomNumberGenerator,
)
    requires
        old(world).wf(),
        old(world)@.next_id + depth + 10 < u64::MAX,
        1 <= depth <= MAX_DEPTH,
        0 <= room.x1 < room.x2 < i32::MAX,
        0 <= room.y1 < room.y2 < i32::MAX,
    ensures
        final(world).wf(),
        forall|e: Entity| #[trigger] old(world)@.alive(e) ==> final(world)@.alive(e) && final(world)@.data[e]
            == old(world)@.data[e],
        old(world)@.next_id <= final(world)@.next_id <= old(world)@.next_id + MAX_MONSTERS + 2 + depth,
        forall|e: Entity| #[trigger] final(world)@.alive(e) ==> old(world)@.alive(e) || e.id >= old(world)@.next_id,
        forall|e: Entity| #[trigger] final(world)@.alive(e) && !old(world)@.alive(e) ==> spawned_in(final(world)@.data[e], *room),
        forall|a: Entity, b: Entity|
            #[trigger] final(world)@.alive(a) && #[trigger] final(world)@.alive(b) && !old(world)@.alive(a)
                && !old(world)@.alive(b) && a != b ==> final(world)@.data[a].position != final(world)@.data[b].position,
{
    let table = room_table(depth);
    let count = roll_dice(rng, 1, MAX_MONSTERS + 3) + (depth - 1);
    let mut points: Vec<(i32, i32, Spawnable)> = Vec::new();
    let mut n: i32 = 0;
    while n < count
        invariant
            table_ok(table@),
            0 <= room.x1 < room.x2 < i32::MAX,
            0 <= room.y1 < room.y2 < i32::MAX,
            points@.len() <= n,
            0 <= n,
            n <= count || count <= 0,
            count <= MAX_MONSTERS + 2 + depth,
            1 <= depth <= MAX_DEPTH,
            forall|j: int| 0 <= j < points@.len() ==> room.x1 < (#[trigger] points@[j]).0 <= room.x2 && room.y1 < points@[j].1 <= room.y2,
            forall|a: int, b: int| 0 <= a < b < points@.len() ==> (#[trigger] points@[a]).0 != (#[trigger] points@[b]).0 || points@[a].1 != points@[b].1,
        decreases count - n,
    {
        let mut tries: i32 = 0;
        let mut added = false;
        while !added && tries < 20
            invariant
                table_ok(table@),
                0 <= room.x1 < room.x2 < i32::MAX,
                0 <= room.y1 < room.y2 < i32::MAX,
                0 <= tries <= 20,
                added ==> points@.len() <= n + 1,
                !added ==> points@.len() <= n,
                forall|j: int| 0 <= j < points@.len() ==> room.x1 < (#[trigger] points@[j]).0 <= room.x2 && room.y1 < points@[j].1 <= room.y2,
                forall|a: int, b: int| 0 <= a < b < points@.len() ==> (#[trigger] points@[a]).0 != (#[trigger] points@[b]).0 || points@[a].1 != points@[b].1,
            decreases 21 - tries - (if added { 1int } else { 0int }),
        {
            let x = room.x1 + roll_dice(rng, 1, room.x2 - room.x1);
            let y = room.y1 + roll_dice(rng, 1, room.y2 - room.y1);
            let mut taken = false;
            let mut j: usize = 0;
            while j < points.len()
                invariant
                    j <= points@.len(),
                    !taken ==> forall|q: int| 0 <= q < j ==> (#[trigger] points@[q]).0 != x || points@[q].1 != y,
                decreases points.len() - j,
            {
                if points[j].0 == x && points[j].1 == y {
                    taken = true;
                }
                j = j + 1;
            }
            if !taken {
                if let Some(kind) = roll_table(&table, rng) {
                    let ghost before = points@;
                    points.push((x, y, kind));
                    proof {
                        assert forall|a: int, b: int| 0 <= a < b < points@.len() implies (#[trigger] points@[a]).0
                            != (#[trigger] points@[b]).0 || points@[a].1 != points@[b].1 by {
                            if b == before.len() {
                                assert(points@[a] == before[a]);
                            } else {
                                assert(points@[a] == before[a] && points@[b] == before[b]);
                            }
                        }
                    }
                }
                added = true;
            } else {
                tries = tries + 1;
            }
        }
        n = n + 1;
    }
    let ghost m = world@;
    let mut k: usize = 0;
    while k < points.len()
        invariant
            world.wf(),
            k <= points@.len(),
            points@.len() <= MAX_MONSTERS + 2 + depth,
            world@.next_id == m.next_id + k,
            m.next_id + depth + 10 < u64::MAX,
            forall|j: int| 0 <= j < points@.len() ==> room.x1 < (#[trigger] points@[j]).0 <= room.x2 && room.y1 < points@[j].1 <= room.y2,
            forall|a: int, b: int| 0 <= a < b < points@.len() ==> (#[trigger] points@[a]).0 != (#[trigger] points@[b]).0 || points@[a].1 != points@[b].1,
            forall|e: Entity| #[trigger] m.alive(e) ==> world@.alive(e) && world@.data[e] == m.data[e],
            forall|e: Entity| #[trigger] world@.alive(e) ==> m.alive(e) || m.next_id <= e.id < m.next_id + k,
            forall|e: Entity| #[trigger] world@.alive(e) && !m.alive(e) ==> spawned_in(world@.data[e], *room)
                && world@.data[e].position == Some(Position {
                    x: points@[e.id - m.next_id].0,
                    y: points@[e.id - m.next_id].1,
                }),
        decreases points.len() - k,
    {
        let (x, y, kind) = points[k];
        let ghost before = world@;
        world.spawn(template(kind, x, y));
        proof {
            assert forall|e: Entity| #[trigger] m.alive(e) implies world@.alive(e) && world@.data[e]
                == m.data[e] by {
                assert(before.alive(e));
            }
            assert forall|e: Entity| #[trigger] world@.alive(e) implies m.alive(e) || m.next_id <= e.id < m.next_id + k + 1 by {
                if !before.alive(e) {
                    assert(e.id == before.next_id);
                }
            }
            assert forall|e: Entity| #[trigger] world@.alive(e) && !m.alive(e) implies spawned_in(world@.data[e], *room)
                && world@.data[e].position == Some(Position {
                    x: points@[e.id - m.next_id].0,
                    y: points@[e.id - m.next_id].1,
                }) by {
                if before.alive(e) {
                } else {
                    assert(e.id == before.next_id);
                }
            }
        }
        k = k + 1;
    }
    proof {
        assert forall|a: Entity, b: Entity|
            #[trigger] world@.alive(a) && #[trigger] world@.alive(b) && !m.alive(a) && !m.alive(b) && a != b implies world@.data[a].position
                != world@.data[b].position by {
            let ia = a.id - m.next_id;
            let ib = b.id - m.next_id;
            assert(ia != ib);
            if ia < ib {
                assert(points@[ia].0 != points@[ib].0 || points@[ia].1 != points@[ib].1);
            } else {
                assert(points@[ib].0 != points@[ia].0 || points@[ib].1 != points@[ia].1);
            }
        }
    }
}

} // verus!
