use vstd::prelude::*;
use crate::command::{apply_all, apply_command, Command, CommandBuffer};
use crate::components::{CombatStats, Confusion, Equipped, InBackpack, Point, SufferDamage};
use crate::damage_system::{clamp_i32, damage_entry, saturate_i32};
use crate::entity::{Entity, EntityHolder};
use crate::fold::{concat_over, lemma_take_step};
use crate::gamelog::{GameLog, LogEntry};
use crate::map::GameMap;
use crate::record::{ComponentKind, ComponentValue, Components};
use crate::schedule::SystemId;
use crate::world::{World, WorldModel};

verus! {

/// The tiles an area-of-effect use by `user` covers, as computed by the
/// field-of-view collaborator.
pub struct AreaOfUse {
    pub user: Entity,
    pub tiles: Vec<Point>,
}

/// The covered tiles of the first area given for `user`; none if there is none.
pub open spec fn blast_of(areas: Seq<AreaOfUse>, user: Entity) -> Seq<Point>
    decreases areas.len(),
{
    if areas.len() == 0 {
        Seq::empty()
    } else if areas[0].user == user {
        areas[0].tiles@
    } else {
        blast_of(areas.drop_first(), user)
    }
}

/// Whether a tile lies strictly inside the map's border.
pub open spec fn inner_tile(map: &GameMap, p: Point) -> bool {
    0 < p.x < map.width - 1 && 0 < p.y < map.height - 1
}

/// The entities standing on tile `p`; none outside the map.
pub open spec fn content_at(map: &GameMap, p: Point) -> Seq<Entity> {
    if map.in_bounds(p.x as int, p.y as int) {
        map.tile_content@[map.idx(p.x as int, p.y as int)]@
    } else {
        Seq::empty()
    }
}

/// The entities on the inner tiles among `tiles`, tile by tile.
pub open spec fn blast_targets(map: &GameMap, tiles: Seq<Point>) -> Seq<Entity>
    decreases tiles.len(),
{
    if tiles.len() == 0 {
        Seq::empty()
    } else {
        blast_targets(map, tiles.drop_last()) + if inner_tile(map, tiles.last()) {
            content_at(map, tiles.last())
        } else {
            Seq::empty()
        }
    }
}

/// Who an item use affects: the player when no point is given; otherwise
/// the entities at the point, or, for an item with an area of effect, the
/// entities on every covered inner tile.
pub open spec fn use_targets(
    m: WorldModel,
    map: &GameMap,
    areas: Seq<AreaOfUse>,
    player: Entity,
    user: Entity,
    item: Entity,
) -> Seq<Entity> {
    match m.data[user].wants_to_use_item.unwrap().target {
        None => seq![player],
        Some(p) => match m.data[item].area_of_effect {
            None => content_at(map, p),
            Some(_) => blast_targets(map, blast_of(areas, user)),
        },
    }
}

/// Health after healing by `amount`: never above the maximum.
pub open spec fn healed_hp(s: CombatStats, amount: i32) -> int {
    clamp_i32(if s.hp + amount < s.max_hp {
        s.hp + amount
    } else {
        s.max_hp as int
    })
}

/// Heals `stats` by `amount`, capped at the maximum.
pub fn heal(stats: CombatStats, amount: i32) -> (r: CombatStats)
    ensures
        r == (CombatStats { hp: healed_hp(stats, amount) as i32, ..stats }),
        r.hp <= r.max_hp,
        stats.hp <= stats.max_hp && amount >= 0 ==> r.hp >= stats.hp,
{
    let sum = stats.hp as i64 + amount as i64;
    let capped = if sum < stats.max_hp as i64 {
        sum
    } else {
        stats.max_hp as i64
    };
    CombatStats { hp: saturate_i32(capped as i128), ..stats }
}

pub open spec fn heal_cmd(m: WorldModel, amount: i32, t: Entity) -> Seq<Command> {
    if m.alive(t) && m.data[t].combat_stats is Some {
        let s = m.data[t].combat_stats.unwrap();
        seq![
            Command::AddComponent(
                t,
                ComponentValue::CombatStats(CombatStats { hp: healed_hp(s, amount) as i32, ..s }),
            ),
        ]
    } else {
        Seq::empty()
    }
}

pub open spec fn heal_log(m: WorldModel, item: String, amount: i32, t: Entity) -> Seq<LogEntry> {
    if m.alive(t) && m.data[t].combat_stats is Some {
        seq![LogEntry::Healed { item, amount }]
    } else {
        Seq::empty()
    }
}

pub open spec fn damage_log(
    m: WorldModel,
    loud: bool,
    item: String,
    amount: i32,
    t: Entity,
) -> Seq<LogEntry> {
    if loud && m.alive(t) && m.data[t].name is Some {
        seq![LogEntry::Inflicted { item, target: m.data[t].name.unwrap().name, amount }]
    } else {
        Seq::empty()
    }
}

pub open spec fn confuse_log(m: WorldModel, loud: bool, item: String, t: Entity) -> Seq<LogEntry> {
    if loud && m.alive(t) && m.data[t].name is Some {
        seq![LogEntry::Confused { item, target: m.data[t].name.unwrap().name }]
    } else {
        Seq::empty()
    }
}

/// Whether `x` is worn by `owner` in `slot`.
pub open spec fn occupies(m: WorldModel, x: Entity, owner: Entity, slot: crate::components::EquipmentSlot) -> bool {
    m.data[x].equipped is Some && m.data[x].equipped.unwrap().owner == EntityHolder::Live(owner)
        && m.data[x].equipped.unwrap().slot == slot
}

/// Moving a slot's previous occupant `x` back to its owner's backpack.
pub open spec fn unequip_occupant_cmds(
    m: WorldModel,
    owner: Entity,
    slot: crate::components::EquipmentSlot,
    x: Entity,
) -> Seq<Command> {
    if occupies(m, x, owner, slot) {
        seq![
            Command::RemoveComponent(x, ComponentKind::Equipped),
            Command::AddComponent(
                x,
                ComponentValue::InBackpack(InBackpack { owner: EntityHolder::Live(owner) }),
            ),
        ]
    } else {
        Seq::empty()
    }
}

pub open spec fn unequip_occupant_log(
    m: WorldModel,
    loud: bool,
    owner: Entity,
    slot: crate::components::EquipmentSlot,
    x: Entity,
) -> Seq<LogEntry> {
    if loud && occupies(m, x, owner, slot) && m.data[x].name is Some {
        seq![LogEntry::Unequipped { item: m.data[x].name.unwrap().name }]
    } else {
        Seq::empty()
    }
}

/// Equipping `item` on `owner`: every previous occupant of the slot goes
/// to the backpack, then the item takes the slot and leaves the backpack.
pub open spec fn equip_cmds(
    m: WorldModel,
    item: Entity,
    owner: Entity,
    slot: crate::components::EquipmentSlot,
) -> Seq<Command> {
    concat_over(m.entities, |x: Entity| unequip_occupant_cmds(m, owner, slot, x)) + seq![
        Command::AddComponent(
            item,
            ComponentValue::Equipped(Equipped { owner: EntityHolder::Live(owner), slot }),
        ),
        Command::RemoveComponent(item, ComponentKind::InBackpack),
    ]
}

pub open spec fn equip_log(
    m: WorldModel,
    loud: bool,
    item_name: String,
    owner: Entity,
    slot: crate::components::EquipmentSlot,
) -> Seq<LogEntry> {
    concat_over(m.entities, |x: Entity| unequip_occupant_log(m, loud, owner, slot, x)) + if loud {
        seq![LogEntry::Equipped { item: item_name }]
    } else {
        Seq::empty()
    }
}

/// The item of a use intent of `user` that can be resolved.
pub open spec fn used_item(m: WorldModel, user: Entity) -> Option<Entity> {
    match m.data[user].wants_to_use_item {
        Some(u) => match u.item {
            EntityHolder::Live(item) => if m.alive(item) && m.data[item].name is Some {
                Some(item)
            } else {
                None
            },
            EntityHolder::Pending(_) => None,
        },
        None => None,
    }
}

/// Whether using `item` uses it up: single-use and not equippable.
pub open spec fn consumed(m: WorldModel, item: Entity) -> bool {
    m.data[item].tags.consumable && m.data[item].equippable is None
}

pub open spec fn heal_part(m: WorldModel, item: Entity, ts: Seq<Entity>) -> Seq<Command> {
    match m.data[item].provides_healing {
        Some(h) => concat_over(ts, |t: Entity| heal_cmd(m, h.heal_amount, t)),
        None => Seq::empty(),
    }
}

pub open spec fn damage_part(m: WorldModel, item: Entity, ts: Seq<Entity>) -> Seq<Command> {
    match m.data[item].inflicts_damage {
        Some(d) => concat_over(ts, |t: Entity| seq![Command::Spawn(damage_entry(t, d.damage))]),
        None => Seq::empty(),
    }
}

pub open spec fn confusion_part(m: WorldModel, item: Entity, ts: Seq<Entity>) -> Seq<Command> {
    match m.data[item].confusion {
        Some(cf) => concat_over(
            ts,
            |t: Entity| seq![Command::AddComponent(t, ComponentValue::Confusion(cf))],
        ),
        None => Seq::empty(),
    }
}

pub open spec fn equip_part(m: WorldModel, item: Entity, ts: Seq<Entity>) -> Seq<Command> {
    match m.data[item].equippable {
        Some(q) => if ts.len() > 0 {
            equip_cmds(m, item, ts[0], q.slot)
        } else {
            Seq::empty()
        },
        None => Seq::empty(),
    }
}

pub open spec fn consume_part(m: WorldModel, item: Entity) -> Seq<Command> {
    if consumed(m, item) {
        seq![Command::Delete(item)]
    } else {
        Seq::empty()
    }
}

/// The effects of using `item` on the targets `ts`.
pub open spec fn effect_cmds(m: WorldModel, item: Entity, ts: Seq<Entity>) -> Seq<Command> {
    heal_part(m, item, ts) + damage_part(m, item, ts) + confusion_part(m, item, ts) + equip_part(
        m,
        item,
        ts,
    ) + consume_part(m, item)
}

/// Everything resolving `user`'s use intent records: the item's effects on
/// its targets, then the removal of the intent.
pub open spec fn use_cmds(
    m: WorldModel,
    map: &GameMap,
    areas: Seq<AreaOfUse>,
    player: Entity,
    user: Entity,
) -> Seq<Command> {
    if m.data[user].wants_to_use_item is Some {
        match used_item(m, user) {
            Some(item) => effect_cmds(m, item, use_targets(m, map, areas, player, user, item))
                + seq![Command::RemoveComponent(user, ComponentKind::WantsToUseItem)],
            None => seq![Command::RemoveComponent(user, ComponentKind::WantsToUseItem)],
        }
    } else {
        Seq::empty()
    }
}

/// Everything resolving `user`'s use intent narrates.
pub open spec fn heal_log_part(m: WorldModel, name: String, item: Entity, ts: Seq<Entity>) -> Seq<LogEntry> {
    match m.data[item].provides_healing {
        Some(h) => concat_over(ts, |t: Entity| heal_log(m, name, h.heal_amount, t)),
        None => Seq::empty(),
    }
}

pub open spec fn damage_log_part(m: WorldModel, name: String, loud: bool, item: Entity, ts: Seq<Entity>) -> Seq<LogEntry> {
    match m.data[item].inflicts_damage {
        Some(d) => concat_over(
            ts,
            |t: Entity| damage_log(m, loud, name, d.damage, t),
        ),
        None => Seq::empty(),
    }
}

pub open spec fn confusion_log_part(m: WorldModel, name: String, loud: bool, item: Entity, ts: Seq<Entity>) -> Seq<LogEntry> {
    match m.data[item].confusion {
        Some(_) => concat_over(ts, |t: Entity| confuse_log(m, loud, name, t)),
        None => Seq::empty(),
    }
}

pub open spec fn equip_log_part(m: WorldModel, name: String, player: Entity, item: Entity, ts: Seq<Entity>) -> Seq<LogEntry> {
    match m.data[item].equippable {
        Some(q) => if ts.len() > 0 {
            equip_log(m, ts[0] == player, name, ts[0], q.slot)
        } else {
            Seq::empty()
        },
        None => Seq::empty(),
    }
}

/// What using `item` on the targets `ts` narrates.
pub open spec fn effect_log(m: WorldModel, player: Entity, user: Entity, item: Entity, ts: Seq<Entity>) -> Seq<LogEntry> {
    let name = m.data[item].name.unwrap().name;
    heal_log_part(m, name, item, ts) + damage_log_part(m, name, user == player, item, ts)
        + confusion_log_part(m, name, user == player, item, ts) + equip_log_part(m, name, player, item, ts)
}

pub open spec fn use_log(
    m: WorldModel,
    map: &GameMap,
    areas: Seq<AreaOfUse>,
    player: Entity,
    user: Entity,
) -> Seq<LogEntry> {
    match used_item(m, user) {
        Some(item) => effect_log(m, player, user, item, use_targets(m, map, areas, player, user, item)),
        None => Seq::empty(),
    }
}

pub fn build() -> (r: SystemId)
    ensures
        r == SystemId::ItemUse,
{
    SystemId::ItemUse
}

} // verus!

verus! {

fn append_entities(dst: &mut Vec<Entity>, src: &Vec<Entity>)
    ensures
        final(dst)@ == old(dst)@ + src@,
{
    let mut i: usize = 0;
    while i < src.len()
        invariant
            i <= src@.len(),
            dst@ == old(dst)@ + src@.take(i as int),
        decreases src.len() - i,
    {
        dst.push(src[i]);
        i = i + 1;
        proof {
            assert(dst@ =~= old(dst)@ + src@.take(i as int));
        }
    }
    proof {
        assert(src@.take(i as int) =~= src@);
    }
}

fn content_of(map: &GameMap, p: Point, out: &mut Vec<Entity>)
    requires
        map.wf(),
    ensures
        final(out)@ == old(out)@ + content_at(map, p),
{
    if 0 <= p.x && p.x < map.width && 0 <= p.y && p.y < map.height {
        let idx = map.xy_idx(p.x, p.y);
        append_entities(out, &map.tile_content[idx]);
    } else {
        proof {
            assert(old(out)@ + content_at(map, p) =~= old(out)@);
        }
    }
}

fn blast_index(areas: &Vec<AreaOfUse>, user: Entity) -> (r: Option<usize>)
    ensures
        r matches Some(i) ==> i < areas@.len() && blast_of(areas@, user) == areas@[i as int].tiles@,
        r is None ==> blast_of(areas@, user) == Seq::<Point>::empty(),
{
    let mut i: usize = 0;
    proof {
        assert(areas@.skip(0) =~= areas@);
    }
    while i < areas.len()
        invariant
            i <= areas@.len(),
            blast_of(areas@, user) == blast_of(areas@.skip(i as int), user),
        decreases areas.len() - i,
    {
        proof {
            assert(areas@.skip(i as int)[0] == areas@[i as int]);
            assert(areas@.skip(i as int).drop_first() =~= areas@.skip(i as int + 1));
        }
        if areas[i].user == user {
            return Some(i);
        }
        i = i + 1;
    }
    proof {
        assert(areas@.skip(i as int).len() == 0);
    }
    None
}

fn targets_of(
    world: &World,
    map: &GameMap,
    areas: &Vec<AreaOfUse>,
    player: Entity,
    user: Entity,
    item: Entity,
    target: Option<Point>,
) -> (r: Vec<Entity>)
    requires
        world.wf(),
        map.wf(),
        world@.alive(item),
        world@.data[user].wants_to_use_item is Some,
        world@.data[user].wants_to_use_item.unwrap().target == target,
    ensures
        r@ == use_targets(world@, map, areas@, player, user, item),
{
    let mut r: Vec<Entity> = Vec::new();
    match target {
        None => {
            r.push(player);
            proof {
                assert(r@ =~= seq![player]);
            }
        },
        Some(p) => {
            let ic = world.get(item).unwrap();
            if ic.area_of_effect.is_none() {
                content_of(map, p, &mut r);
                proof {
                    assert(r@ =~= content_at(map, p));
                }
            } else {
                if let Some(k) = blast_index(areas, user) {
                    let tiles = &areas[k].tiles;
                    let mut i: usize = 0;
                    while i < tiles.len()
                        invariant
                            map.wf(),
                            i <= tiles@.len(),
                            r@ == blast_targets(map, tiles@.take(i as int)),
                        decreases tiles.len() - i,
                    {
                        let t = tiles[i];
                        proof {
                            assert(tiles@.take(i as int + 1).drop_last() =~= tiles@.take(i as int));
                        }
                        if 0 < t.x && t.x < map.width - 1 && 0 < t.y && t.y < map.height - 1 {
                            content_of(map, t, &mut r);
                        }
                        i = i + 1;
                        proof {
                            assert(r@ =~= blast_targets(map, tiles@.take(i as int)));
                        }
                    }
                    proof {
                        assert(tiles@.take(i as int) =~= tiles@);
                    }
                }
            }
        },
    }
    r
}

fn apply_healing(
    world: &World,
    targets: &Vec<Entity>,
    item_name: &String,
    amount: i32,
    log: &mut GameLog,
    commands: &mut CommandBuffer,
)
    requires
        world.wf(),
    ensures
        final(commands)@ == old(commands)@ + concat_over(targets@, |t: Entity| heal_cmd(world@, amount, t)),
        final(log).entries@ == old(log).entries@ + concat_over(
            targets@,
            |t: Entity| heal_log(world@, *item_name, amount, t),
        ),
{
    let ghost m = world@;
    let ghost f = |t: Entity| heal_cmd(m, amount, t);
    let ghost g = |t: Entity| heal_log(m, *item_name, amount, t);
    let mut i: usize = 0;
    while i < targets.len()
        invariant
            world.wf(),
            m == world@,
            i <= targets@.len(),
            f == (|t: Entity| heal_cmd(m, amount, t)),
            g == (|t: Entity| heal_log(m, *item_name, amount, t)),
            commands@ == old(commands)@ + concat_over(targets@.take(i as int), f),
            log.entries@ == old(log).entries@ + concat_over(targets@.take(i as int), g),
        decreases targets.len() - i,
    {
        proof {
            lemma_take_step(targets@, i as int);
        }
        let t = targets[i];
        if let Some(tc) = world.get(t) {
            if let Some(s) = tc.combat_stats {
                commands.add_component(t, ComponentValue::CombatStats(heal(s, amount)));
                log.push(LogEntry::Healed { item: item_name.clone(), amount });
            }
        }
        proof {
            assert(commands@ =~= old(commands)@ + concat_over(targets@.take(i as int + 1), f));
            assert(log.entries@ =~= old(log).entries@ + concat_over(targets@.take(i as int + 1), g));
        }
        i = i + 1;
    }
    proof {
        assert(targets@.take(i as int) =~= targets@);
    }
}

fn apply_damage(
    world: &World,
    targets: &Vec<Entity>,
    loud: bool,
    item_name: &String,
    amount: i32,
    log: &mut GameLog,
    commands: &mut CommandBuffer,
)
    requires
        world.wf(),
    ensures
        final(commands)@ == old(commands)@ + concat_over(
            targets@,
            |t: Entity| seq![Command::Spawn(damage_entry(t, amount))],
        ),
        final(log).entries@ == old(log).entries@ + concat_over(
            targets@,
            |t: Entity| damage_log(world@, loud, *item_name, amount, t),
        ),
{
    let ghost m = world@;
    let ghost f = |t: Entity| seq![Command::Spawn(damage_entry(t, amount))];
    let ghost g = |t: Entity| damage_log(m, loud, *item_name, amount, t);
    let mut i: usize = 0;
    while i < targets.len()
        invariant
            world.wf(),
            m == world@,
            i <= targets@.len(),
            f == (|t: Entity| seq![Command::Spawn(damage_entry(t, amount))]),
            g == (|t: Entity| damage_log(m, loud, *item_name, amount, t)),
            commands@ == old(commands)@ + concat_over(targets@.take(i as int), f),
            log.entries@ == old(log).entries@ + concat_over(targets@.take(i as int), g),
        decreases targets.len() - i,
    {
        proof {
            lemma_take_step(targets@, i as int);
        }
        let t = targets[i];
        SufferDamage::new_damage(commands, t, amount);
        if loud {
            if let Some(tc) = world.get(t) {
                if let Some(n) = &tc.name {
                    log.push(
                        LogEntry::Inflicted { item: item_name.clone(), target: n.name.clone(), amount },
                    );
                }
            }
        }
        proof {
            assert(commands@ =~= old(commands)@ + concat_over(targets@.take(i as int + 1), f));
            assert(log.entries@ =~= old(log).entries@ + concat_over(targets@.take(i as int + 1), g));
        }
        i = i + 1;
    }
    proof {
        assert(targets@.take(i as int) =~= targets@);
    }
}

fn apply_confusion(
    world: &World,
    targets: &Vec<Entity>,
    loud: bool,
    item_name: &String,
    cf: Confusion,
    log: &mut GameLog,
    commands: &mut CommandBuffer,
)
    requires
        world.wf(),
    ensures
        final(commands)@ == old(commands)@ + concat_over(
            targets@,
            |t: Entity| seq![Command::AddComponent(t, ComponentValue::Confusion(cf))],
        ),
        final(log).entries@ == old(log).entries@ + concat_over(
            targets@,
            |t: Entity| confuse_log(world@, loud, *item_name, t),
        ),
{
    let ghost m = world@;
    let ghost f = |t: Entity| seq![Command::AddComponent(t, ComponentValue::Confusion(cf))];
    let ghost g = |t: Entity| confuse_log(m, loud, *item_name, t);
    let mut i: usize = 0;
    while i < targets.len()
        invariant
            world.wf(),
            m == world@,
            i <= targets@.len(),
            f == (|t: Entity| seq![Command::AddComponent(t, ComponentValue::Confusion(cf))]),
            g == (|t: Entity| confuse_log(m, loud, *item_name, t)),
            commands@ == old(commands)@ + concat_over(targets@.take(i as int), f),
            log.entries@ == old(log).entries@ + concat_over(targets@.take(i as int), g),
        decreases targets.len() - i,
    {
        proof {
            lemma_take_step(targets@, i as int);
        }
        let t = targets[i];
        commands.add_component(t, ComponentValue::Confusion(cf));
        if loud {
            if let Some(tc) = world.get(t) {
                if let Some(n) = &tc.name {
                    log.push(LogEntry::Confused { item: item_name.clone(), target: n.name.clone() });
                }
            }
        }
        proof {
            assert(commands@ =~= old(commands)@ + concat_over(targets@.take(i as int + 1), f));
            assert(log.entries@ =~= old(log).entries@ + concat_over(targets@.take(i as int + 1), g));
        }
        i = i + 1;
    }
    proof {
        assert(targets@.take(i as int) =~= targets@);
    }
}

/// Records equipping `item` on `owner` in `slot`, unequipping whatever
/// occupied the slot first.
pub fn equip(
    world: &World,
    item: Entity,
    owner: Entity,
    slot: crate::components::EquipmentSlot,
    loud: bool,
    item_name: &String,
    log: &mut GameLog,
    commands: &mut CommandBuffer,
)
    requires
        world.wf(),
    ensures
        final(commands)@ == old(commands)@ + equip_cmds(world@, item, owner, slot),
        final(log).entries@ == old(log).entries@ + equip_log(world@, loud, *item_name, owner, slot),
{
    let ghost m = world@;
    let ghost f = |x: Entity| unequip_occupant_cmds(m, owner, slot, x);
    let ghost g = |x: Entity| unequip_occupant_log(m, loud, owner, slot, x);
    proof {
        world.lemma_inv();
    }
    let es = world.entities();
    let mut i: usize = 0;
    while i < es.len()
        invariant
            world.wf(),
            m == world@,
            m.inv(),
            es@ == m.entities,
            i <= es@.len(),
            f == (|x: Entity| unequip_occupant_cmds(m, owner, slot, x)),
            g == (|x: Entity| unequip_occupant_log(m, loud, owner, slot, x)),
            commands@ == old(commands)@ + concat_over(es@.take(i as int), f),
            log.entries@ == old(log).entries@ + concat_over(es@.take(i as int), g),
        decreases es.len() - i,
    {
        proof {
            lemma_take_step(es@, i as int);
            assert(m.entities.contains(es@[i as int]));
        }
        let x = es[i];
        let c = world.get(x).unwrap();
        if let Some(q) = c.equipped {
            if q.owner == EntityHolder::Live(owner) && q.slot == slot {
                commands.remove_component(x, ComponentKind::Equipped);
                commands.add_component(x, ComponentValue::InBackpack(InBackpack::new(owner)));
                if loud {
                    if let Some(n) = &c.name {
                        log.push(LogEntry::Unequipped { item: n.name.clone() });
                    }
                }
            }
        }
        proof {
            assert(commands@ =~= old(commands)@ + concat_over(es@.take(i as int + 1), f));
            assert(log.entries@ =~= old(log).entries@ + concat_over(es@.take(i as int + 1), g));
        }
        i = i + 1;
    }
    proof {
        assert(es@.take(i as int) =~= es@);
    }
    commands.add_component(item, ComponentValue::Equipped(Equipped::new(owner, slot)));
    commands.remove_component(item, ComponentKind::InBackpack);
    if loud {
        log.push(LogEntry::Equipped { item: item_name.clone() });
    }
    proof {
        assert(commands@ =~= old(commands)@ + equip_cmds(m, item, owner, slot));
        assert(log.entries@ =~= old(log).entries@ + equip_log(m, loud, *item_name, owner, slot));
    }
}

} // verus!

verus! {

fn healing_step(
    world: &World,
    item: Entity,
    targets: &Vec<Entity>,
    name: &String,
    log: &mut GameLog,
    commands: &mut CommandBuffer,
)
    requires
        world.wf(),
        world@.alive(item),
    ensures
        final(commands)@ == old(commands)@ + heal_part(world@, item, targets@),
        final(log).entries@ == old(log).entries@ + heal_log_part(world@, *name, item, targets@),
{
    let ic = world.get(item).unwrap();
    if let Some(h) = ic.provides_healing {
        apply_healing(world, targets, name, h.heal_amount, log, commands);
    } else {
        assert(commands@ =~= old(commands)@ + heal_part(world@, item, targets@));
        assert(log.entries@ =~= old(log).entries@ + heal_log_part(world@, *name, item, targets@));
    }
}

fn damage_step(
    world: &World,
    item: Entity,
    targets: &Vec<Entity>,
    loud: bool,
    name: &String,
    log: &mut GameLog,
    commands: &mut CommandBuffer,
)
    requires
        world.wf(),
        world@.alive(item),
    ensures
        final(commands)@ == old(commands)@ + damage_part(world@, item, targets@),
        final(log).entries@ == old(log).entries@ + damage_log_part(world@, *name, loud, item, targets@),
{
    let ic = world.get(item).unwrap();
    if let Some(d) = ic.inflicts_damage {
        apply_damage(world, targets, loud, name, d.damage, log, commands);
    } else {
        assert(commands@ =~= old(commands)@ + damage_part(world@, item, targets@));
        assert(log.entries@ =~= old(log).entries@ + damage_log_part(world@, *name, loud, item, targets@));
    }
}

fn confusion_step(
    world: &World,
    item: Entity,
    targets: &Vec<Entity>,
    loud: bool,
    name: &String,
    log: &mut GameLog,
    commands: &mut CommandBuffer,
)
    requires
        world.wf(),
        world@.alive(item),
    ensures
        final(commands)@ == old(commands)@ + confusion_part(world@, item, targets@),
        final(log).entries@ == old(log).entries@ + confusion_log_part(world@, *name, loud, item, targets@),
{
    let ic = world.get(item).unwrap();
    if let Some(cf) = ic.confusion {
        apply_confusion(world, targets, loud, name, cf, log, commands);
    } else {
        assert(commands@ =~= old(commands)@ + confusion_part(world@, item, targets@));
        assert(log.entries@ =~= old(log).entries@ + confusion_log_part(world@, *name, loud, item, targets@));
    }
}

fn equip_step(
    world: &World,
    item: Entity,
    targets: &Vec<Entity>,
    player: Entity,
    name: &String,
    log: &mut GameLog,
    commands: &mut CommandBuffer,
)
    requires
        world.wf(),
        world@.alive(item),
    ensures
        final(commands)@ == old(commands)@ + equip_part(world@, item, targets@),
        final(log).entries@ == old(log).entries@ + equip_log_part(world@, *name, player, item, targets@),
{
    let ic = world.get(item).unwrap();
    if let Some(q) = ic.equippable {
        if targets.len() > 0 {
            let owner = targets[0];
            equip(world, item, owner, q.slot, owner == player, name, log, commands);
            return;
        }
    }
    assert(commands@ =~= old(commands)@ + equip_part(world@, item, targets@));
    assert(log.entries@ =~= old(log).entries@ + equip_log_part(world@, *name, player, item, targets@));
}

fn apply_effects(
    world: &World,
    item: Entity,
    targets: &Vec<Entity>,
    player: Entity,
    user: Entity,
    name: &String,
    log: &mut GameLog,
    commands: &mut CommandBuffer,
)
    requires
        world.wf(),
        world@.alive(item),
        world@.data[item].name is Some,
        world@.data[item].name.unwrap().name == *name,
    ensures
        final(commands)@ == old(commands)@ + effect_cmds(world@, item, targets@),
        final(log).entries@ == old(log).entries@ + effect_log(world@, player, user, item, targets@),
{
    let ghost m = world@;
    let ghost ts = targets@;
    let ghost name_s = *name;
    let ghost c0 = commands@;
    let ghost l0 = log.entries@;
    healing_step(world, item, targets, name, log, commands);
    let ghost c1 = commands@;
    let ghost l1 = log.entries@;
    damage_step(world, item, targets, user == player, name, log, commands);
    let ghost c2 = commands@;
    let ghost l2 = log.entries@;
    confusion_step(world, item, targets, user == player, name, log, commands);
    let ghost c3 = commands@;
    let ghost l3 = log.entries@;
    equip_step(world, item, targets, player, name, log, commands);
    let ghost c4 = commands@;
    let ghost l4 = log.entries@;
    let ic = world.get(item).unwrap();
    if ic.tags.consumable && ic.equippable.is_none() {
        commands.delete(item);
    }
    proof {
        let hp = heal_part(m, item, ts);
        let dp = damage_part(m, item, ts);
        let cp = confusion_part(m, item, ts);
        let ep = equip_part(m, item, ts);
        let kp = consume_part(m, item);
        assert(commands@ =~= c4 + kp);
        assert(c4 == c3 + ep);
        assert(c3 == c2 + cp);
        assert(c2 == c1 + dp);
        assert(c1 == c0 + hp);
        assert(effect_cmds(m, item, ts) == hp + dp + cp + ep + kp);
        assert(commands@ =~= c0 + (hp + dp + cp + ep + kp));
        let hl = heal_log_part(m, name_s, item, ts);
        let dl = damage_log_part(m, name_s, user == player, item, ts);
        let cl = confusion_log_part(m, name_s, user == player, item, ts);
        let el = equip_log_part(m, name_s, player, item, ts);
        assert(l4 == l3 + el);
        assert(l3 == l2 + cl);
        assert(l2 == l1 + dl);
        assert(l1 == l0 + hl);
        assert(effect_log(m, player, user, item, ts) == hl + dl + cl + el);
        assert(log.entries@ =~= l0 + (hl + dl + cl + el));
    }
}

fn resolve_use(
    world: &World,
    map: &GameMap,
    areas: &Vec<AreaOfUse>,
    player: Entity,
    user: Entity,
    log: &mut GameLog,
    commands: &mut CommandBuffer,
)
    requires
        world.wf(),
        map.wf(),
        world@.alive(user),
    ensures
        final(commands)@ == old(commands)@ + use_cmds(world@, map, areas@, player, user),
        final(log).entries@ == old(log).entries@ + use_log(world@, map, areas@, player, user),
{
    let ghost m = world@;
    let uc = world.get(user).unwrap();
    if let Some(u) = uc.wants_to_use_item {
        let mut resolved = false;
        if let EntityHolder::Live(item) = u.item {
            if let Some(ic) = world.get(item) {
                if let Some(n) = &ic.name {
                    resolved = true;
                    let name = n.name.clone();
                    let targets = targets_of(world, map, areas, player, user, item, u.target);
                    apply_effects(world, item, &targets, player, user, &name, log, commands);
                    commands.remove_component(user, ComponentKind::WantsToUseItem);
                    proof {
                        assert(commands@ =~= old(commands)@ + use_cmds(m, map, areas@, player, user));
                        assert(log.entries@ =~= old(log).entries@ + use_log(m, map, areas@, player, user));
                    }
                }
            }
        }
        if !resolved {
            commands.remove_component(user, ComponentKind::WantsToUseItem);
            proof {
                assert(commands@ =~= old(commands)@ + use_cmds(m, map, areas@, player, user));
                assert(log.entries@ =~= old(log).entries@ + use_log(m, map, areas@, player, user));
            }
        }
    } else {
        proof {
            assert(commands@ =~= old(commands)@ + use_cmds(m, map, areas@, player, user));
            assert(log.entries@ =~= old(log).entries@ + use_log(m, map, areas@, player, user));
        }
    }
}

/// Resolves every item-use intent: picks the targets, applies healing,
/// damage and timed statuses to each, equips equippable items, and uses up
/// single-use ones.
pub fn run(
    world: &World,
    map: &GameMap,
    areas: &Vec<AreaOfUse>,
    player: Entity,
    log: &mut GameLog,
    commands: &mut CommandBuffer,
)
    requires
        world.wf(),
        map.wf(),
    ensures
        final(commands)@ == old(commands)@ + concat_over(
            world@.entities,
            |u: Entity| use_cmds(world@, map, areas@, player, u),
        ),
        final(log).entries@ == old(log).entries@ + concat_over(
            world@.entities,
            |u: Entity| use_log(world@, map, areas@, player, u),
        ),
{
    let ghost m = world@;
    let ghost f = |u: Entity| use_cmds(m, map, areas@, player, u);
    let ghost g = |u: Entity| use_log(m, map, areas@, player, u);
    proof {
        world.lemma_inv();
    }
    let es = world.entities();
    let mut i: usize = 0;
    while i < es.len()
        invariant
            world.wf(),
            map.wf(),
            m == world@,
            m.inv(),
            es@ == m.entities,
            i <= es@.len(),
            f == (|u: Entity| use_cmds(m, map, areas@, player, u)),
            g == (|u: Entity| use_log(m, map, areas@, player, u)),
            commands@ == old(commands)@ + concat_over(es@.take(i as int), f),
            log.entries@ == old(log).entries@ + concat_over(es@.take(i as int), g),
        decreases es.len() - i,
    {
        proof {
            lemma_take_step(es@, i as int);
            assert(m.entities.contains(es@[i as int]));
        }
        resolve_use(world, map, areas, player, es[i], log, commands);
        proof {
            assert(commands@ =~= old(commands)@ + concat_over(es@.take(i as int + 1), f));
            assert(log.entries@ =~= old(log).entries@ + concat_over(es@.take(i as int + 1), g));
        }
        i = i + 1;
    }
    proof {
        assert(es@.take(i as int) =~= es@);
    }
}

/// A previous occupant of a slot, moved back to its owner's backpack.
pub open spec fn unequipped(c: Components, owner: Entity) -> Components {
    Components {
        equipped: None,
        in_backpack: Some(InBackpack { owner: EntityHolder::Live(owner) }),
        ..c
    }
}

proof fn lemma_apply_pair(m: WorldModel, a: Command, b: Command)
    ensures
        apply_all(m, seq![a, b]) == apply_command(apply_command(m, a), b),
{
    assert(seq![a, b].drop_last() =~= seq![a]);
    assert(seq![a].drop_last() =~= Seq::<Command>::empty());
    assert(apply_all(m, Seq::<Command>::empty()) == m);
    assert(apply_all(m, seq![a]) == apply_command(m, a));
    assert(seq![a, b].last() == b);
}

proof fn lemma_unequip_prefix(
    m: WorldModel,
    owner: Entity,
    slot: crate::components::EquipmentSlot,
    k: int,
)
    requires
        m.inv(),
        0 <= k <= m.entities.len(),
    ensures
        ({
            let r = apply_all(
                m,
                concat_over(m.entities.take(k), |x: Entity| unequip_occupant_cmds(m, owner, slot, x)),
            );
            &&& r.data.dom() == m.data.dom()
            &&& forall|x: Entity| #[trigger] m.alive(x) ==> r.data[x] == (if m.entities.take(k).contains(x)
                && occupies(m, x, owner, slot) {
                unequipped(m.data[x], owner)
            } else {
                m.data[x]
            })
        }),
    decreases k,
{
    let f = |x: Entity| unequip_occupant_cmds(m, owner, slot, x);
    if k == 0 {
        assert(m.entities.take(0) =~= Seq::<Entity>::empty());
        assert(concat_over(m.entities.take(0), f) =~= Seq::<Command>::empty());
    } else {
        lemma_unequip_prefix(m, owner, slot, k - 1);
        let p = m.entities.take(k - 1);
        let x = m.entities[k - 1];
        assert(m.entities.take(k).drop_last() =~= p);
        assert(m.entities.take(k).last() == x);
        let before = apply_all(m, concat_over(p, f));
        crate::command::lemma_flush_in_order(m, concat_over(p, f), f(x));
        assert(m.entities.contains(x));
        assert(m.alive(x));
        assert(!p.contains(x)) by {
            if p.contains(x) {
                let j = p.index_of(x);
                assert(m.entities[j] == m.entities[k - 1]);
            }
        }
        assert(before.data[x] == m.data[x]);
        let r = apply_all(m, concat_over(m.entities.take(k), f));
        if occupies(m, x, owner, slot) {
            lemma_apply_pair(
                before,
                Command::RemoveComponent(x, ComponentKind::Equipped),
                Command::AddComponent(
                    x,
                    ComponentValue::InBackpack(InBackpack { owner: EntityHolder::Live(owner) }),
                ),
            );
            assert(r.data =~= before.data.insert(x, unequipped(m.data[x], owner)));
        } else {
            assert(f(x) =~= Seq::<Command>::empty());
            assert(r == before);
        }
        assert forall|y: Entity| #[trigger] m.alive(y) implies r.data[y] == (if m.entities.take(k).contains(y)
            && occupies(m, y, owner, slot) {
            unequipped(m.data[y], owner)
        } else {
            m.data[y]
        }) by {
            if y != x {
                assert(m.entities.take(k).contains(y) == p.contains(y)) by {
                    if m.entities.take(k).contains(y) {
                        let j = m.entities.take(k).index_of(y);
                        assert(p[j] == y);
                    }
                    if p.contains(y) {
                        let j = p.index_of(y);
                        assert(m.entities.take(k)[j] == y);
                    }
                }
            } else {
                assert(m.entities.take(k)[k - 1] == x);
            }
        }
        assert(r.data.dom() =~= m.data.dom());
    }
}

/// Equipping an item into an occupied slot: every previous occupant goes
/// back to the owner's backpack, and the item is then the only one the
/// owner wears in that slot.
pub proof fn lemma_equip_single_occupant(
    m: WorldModel,
    item: Entity,
    owner: Entity,
    slot: crate::components::EquipmentSlot,
)
    requires
        m.inv(),
        m.alive(item),
    ensures
        ({
            let r = apply_all(m, equip_cmds(m, item, owner, slot));
            &&& r.data.dom() == m.data.dom()
            &&& occupies(r, item, owner, slot)
            &&& forall|x: Entity| #[trigger] r.alive(x) && x != item ==> !occupies(r, x, owner, slot)
            &&& forall|x: Entity|
                #![trigger m.data[x]]
                m.alive(x) && x != item && occupies(m, x, owner, slot) ==> r.data[x].in_backpack == Some(
                    InBackpack { owner: EntityHolder::Live(owner) },
                ) && r.data[x].equipped is None
        }),
{
    let f = |x: Entity| unequip_occupant_cmds(m, owner, slot, x);
    let n = m.entities.len() as int;
    lemma_unequip_prefix(m, owner, slot, n);
    assert(m.entities.take(n) =~= m.entities);
    let cs1 = concat_over(m.entities, f);
    let a = Command::AddComponent(
        item,
        ComponentValue::Equipped(Equipped { owner: EntityHolder::Live(owner), slot }),
    );
    let b = Command::RemoveComponent(item, ComponentKind::InBackpack);
    assert(equip_cmds(m, item, owner, slot) == cs1 + seq![a, b]);
    crate::command::lemma_flush_in_order(m, cs1, seq![a, b]);
    let mid = apply_all(m, cs1);
    lemma_apply_pair(mid, a, b);
    let r = apply_all(m, equip_cmds(m, item, owner, slot));
    assert(mid.alive(item));
    assert(r.data =~= mid.data.insert(
        item,
        mid.data[item].spec_with(a->AddComponent_1).spec_without(ComponentKind::InBackpack),
    ));
    assert(r.data.dom() =~= m.data.dom());
    assert forall|x: Entity| #[trigger] r.alive(x) && x != item implies !occupies(r, x, owner, slot) by {
        assert(m.alive(x));
        assert(r.data[x] == mid.data[x]);
    }
    assert forall|x: Entity|
        #![trigger m.data[x]]
        m.alive(x) && x != item && occupies(m, x, owner, slot) implies r.data[x].in_backpack == Some(
            InBackpack { owner: EntityHolder::Live(owner) },
        ) && r.data[x].equipped is None by {
        assert(m.entities.contains(x));
        assert(r.data[x] == mid.data[x]);
    }
}

} // verus!
