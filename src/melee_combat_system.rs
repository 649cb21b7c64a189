use vstd::prelude::*;
use crate::command::{Command, CommandBuffer};
use crate::components::SufferDamage;
use crate::damage_system::{clamp_i32, damage_entry, saturate_i32};
use crate::entity::{Entity, EntityHolder};
use crate::fold::{concat_over, lemma_sum_bound, lemma_take_step, sum_over};
use crate::gamelog::{GameLog, LogEntry};
use crate::record::ComponentKind;
use crate::schedule::SystemId;
use crate::world::{World, WorldModel};

verus! {

/// Power that item `e` adds to `owner` when equipped by it.
pub open spec fn power_bonus_of(m: WorldModel, e: Entity, owner: Entity) -> int {
    match (m.data[e].equipped, m.data[e].melee_power_bonus) {
        (Some(q), Some(b)) => if q.owner == EntityHolder::Live(owner) {
            b.power as int
        } else {
            0
        },
        _ => 0,
    }
}

/// Defense that item `e` adds to `owner` when equipped by it.
pub open spec fn defense_bonus_of(m: WorldModel, e: Entity, owner: Entity) -> int {
    match (m.data[e].equipped, m.data[e].defense_bonus) {
        (Some(q), Some(b)) => if q.owner == EntityHolder::Live(owner) {
            b.defense as int
        } else {
            0
        },
        _ => 0,
    }
}

pub open spec fn power_bonus(m: WorldModel, owner: Entity) -> int {
    sum_over(m.entities, |e: Entity| power_bonus_of(m, e, owner))
}

pub open spec fn defense_bonus(m: WorldModel, owner: Entity) -> int {
    sum_over(m.entities, |e: Entity| defense_bonus_of(m, e, owner))
}

/// Damage of an attack: offense minus defense, never below zero.
pub open spec fn melee_damage(offense: int, defense: int) -> int {
    if offense > defense {
        offense - defense
    } else {
        0
    }
}

/// The target an attacker engages: it holds an attack intent, a name and
/// live stats, and the target is alive, named and has live stats.
pub open spec fn engaged_target(m: WorldModel, a: Entity) -> Option<Entity> {
    let c = m.data[a];
    match (c.wants_to_melee, c.name, c.combat_stats) {
        (Some(w), Some(_), Some(s)) => match w.target {
            EntityHolder::Live(t) => if s.hp > 0 && m.alive(t) && m.data[t].name is Some
                && m.data[t].combat_stats is Some && m.data[t].combat_stats.unwrap().hp > 0 {
                Some(t)
            } else {
                None
            },
            EntityHolder::Pending(_) => None,
        },
        _ => None,
    }
}

/// Damage `a` deals to the target it engages.
pub open spec fn attack_damage(m: WorldModel, a: Entity, t: Entity) -> int {
    melee_damage(
        m.data[a].combat_stats.unwrap().power + power_bonus(m, a),
        m.data[t].combat_stats.unwrap().defense + defense_bonus(m, t),
    )
}

pub open spec fn is_attacker(m: WorldModel, a: Entity) -> bool {
    m.data[a].wants_to_melee is Some && m.data[a].name is Some && m.data[a].combat_stats is Some
}

/// What resolving `a`'s attack records: a damage entry when the attack
/// hurts, then the removal of the consumed intent.
pub open spec fn attack_cmds(m: WorldModel, a: Entity) -> Seq<Command> {
    if is_attacker(m, a) {
        match engaged_target(m, a) {
            Some(t) => if attack_damage(m, a, t) > 0 {
                seq![
                    Command::Spawn(damage_entry(t, clamp_i32(attack_damage(m, a, t)) as i32)),
                    Command::RemoveComponent(a, ComponentKind::WantsToMelee),
                ]
            } else {
                seq![Command::RemoveComponent(a, ComponentKind::WantsToMelee)]
            },
            None => seq![Command::RemoveComponent(a, ComponentKind::WantsToMelee)],
        }
    } else {
        Seq::empty()
    }
}

/// What resolving `a`'s attack narrates.
pub open spec fn attack_log(m: WorldModel, a: Entity) -> Seq<LogEntry> {
    if is_attacker(m, a) {
        match engaged_target(m, a) {
            Some(t) => {
                let attacker = m.data[a].name.unwrap().name;
                let target = m.data[t].name.unwrap().name;
                if attack_damage(m, a, t) > 0 {
                    seq![
                        LogEntry::Hit {
                            attacker,
                            target,
                            damage: clamp_i32(attack_damage(m, a, t)) as i32,
                        },
                    ]
                } else {
                    seq![LogEntry::UnableToHurt { attacker, target }]
                }
            },
            None => Seq::empty(),
        }
    } else {
        Seq::empty()
    }
}

pub fn build() -> (r: SystemId)
    ensures
        r == SystemId::MeleeCombat,
{
    SystemId::MeleeCombat
}

/// Sum of the bonuses of the items `owner` has equipped: power bonuses if
/// `power`, defense bonuses otherwise.
fn equipped_bonus(world: &World, es: &Vec<Entity>, owner: Entity, power: bool) -> (r: i128)
    requires
        world.wf(),
        es@ == world@.entities,
    ensures
        power ==> r == power_bonus(world@, owner),
        !power ==> r == defense_bonus(world@, owner),
        -0x1_0000_0000_0000_0000_0000_0000 <= r <= 0x1_0000_0000_0000_0000_0000_0000,
{
    let ghost m = world@;
    let ghost f = if power {
        |e: Entity| power_bonus_of(m, e, owner)
    } else {
        |e: Entity| defense_bonus_of(m, e, owner)
    };
    proof {
        world.lemma_inv();
    }
    let mut total: i128 = 0;
    let mut i: usize = 0;
    while i < es.len()
        invariant
            world.wf(),
            m == world@,
            m.inv(),
            es@ == m.entities,
            i <= es@.len(),
            power ==> f == (|e: Entity| power_bonus_of(m, e, owner)),
            !power ==> f == (|e: Entity| defense_bonus_of(m, e, owner)),
            total == sum_over(es@.take(i as int), f),
        decreases es.len() - i,
    {
        proof {
            lemma_take_step(es@, i as int);
            lemma_sum_bound(es@.take(i as int), f, i32::MAX as int + 1);
            assert(m.entities.contains(es@[i as int]));
        }
        let c = world.get(es[i]).unwrap();
        if let Some(q) = c.equipped {
            if q.owner == EntityHolder::Live(owner) {
                if power {
                    if let Some(b) = c.melee_power_bonus {
                        total = total + b.power as i128;
                    }
                } else {
                    if let Some(b) = c.defense_bonus {
                        total = total + b.defense as i128;
                    }
                }
            }
        }
        i = i + 1;
    }
    proof {
        assert(es@.take(i as int) =~= es@);
        lemma_sum_bound(es@, f, i32::MAX as int + 1);
        let n = es@.len() as int;
        assert((i32::MAX as int + 1) * n <= 0x1_0000_0000_0000_0000_0000_0000) by (nonlinear_arith)
            requires
                0 <= n <= usize::MAX,
        ;
    }
    total
}

/// Resolves `a`'s attack intent, if it has one.
fn resolve_attack(
    world: &World,
    es: &Vec<Entity>,
    a: Entity,
    log: &mut GameLog,
    commands: &mut CommandBuffer,
)
    requires
        world.wf(),
        es@ == world@.entities,
        world@.alive(a),
    ensures
        final(commands)@ == old(commands)@ + attack_cmds(world@, a),
        final(log).entries@ == old(log).entries@ + attack_log(world@, a),
{
    let ghost m = world@;
    let c = world.get(a).unwrap();
    if let (Some(w), Some(n), Some(s)) = (c.wants_to_melee, &c.name, c.combat_stats) {
        if s.hp > 0 {
            if let EntityHolder::Live(t) = w.target {
                if let Some(tc) = world.get(t) {
                    if let (Some(ts), Some(tn)) = (tc.combat_stats, &tc.name) {
                        if ts.hp > 0 {
                            let offense = s.power as i128 + equipped_bonus(world, es, a, true);
                            let defense = ts.defense as i128 + equipped_bonus(world, es, t, false);
                            let damage = if offense > defense {
                                offense - defense
                            } else {
                                0
                            };
                            if damage == 0 {
                                log.push(
                                    LogEntry::UnableToHurt {
                                        attacker: n.name.clone(),
                                        target: tn.name.clone(),
                                    },
                                );
                            } else {
                                let amount = saturate_i32(damage);
                                log.push(
                                    LogEntry::Hit {
                                        attacker: n.name.clone(),
                                        target: tn.name.clone(),
                                        damage: amount,
                                    },
                                );
                                SufferDamage::new_damage(commands, t, amount);
                            }
                        }
                    }
                }
            }
        }
        commands.remove_component(a, ComponentKind::WantsToMelee);
    }
    proof {
        assert(commands@ =~= old(commands)@ + attack_cmds(m, a));
        assert(log.entries@ =~= old(log).entries@ + attack_log(m, a));
    }
}

/// Resolves every melee intent into damage entries; equipped bonuses of
/// the attacker add to its power, those of the defender to its defense.
pub fn run(world: &World, log: &mut GameLog, commands: &mut CommandBuffer)
    requires
        world.wf(),
    ensures
        final(commands)@ == old(commands)@ + concat_over(world@.entities, |a: Entity| attack_cmds(world@, a)),
        final(log).entries@ == old(log).entries@ + concat_over(world@.entities, |a: Entity| attack_log(world@, a)),
{
    let ghost m = world@;
    let ghost f = |a: Entity| attack_cmds(m, a);
    let ghost g = |a: Entity| attack_log(m, a);
    proof {
        world.lemma_inv();
    }
    let es = world.entities();
    let mut i: usize = 0;
    while i < es.len()
        invariant
            world.wf(),
            m == world@,
            m.inv(),
            es@ == m.entities,
            i <= es@.len(),
            f == (|a: Entity| attack_cmds(m, a)),
            g == (|a: Entity| attack_log(m, a)),
            commands@ == old(commands)@ + concat_over(es@.take(i as int), f),
            log.entries@ == old(log).entries@ + concat_over(es@.take(i as int), g),
        decreases es.len() - i,
    {
        proof {
            lemma_take_step(es@, i as int);
            assert(m.entities.contains(es@[i as int]));
        }
        resolve_attack(world, &es, es[i], log, commands);
        proof {
            assert(commands@ =~= old(commands)@ + concat_over(es@.take(i as int + 1), f));
            assert(log.entries@ =~= old(log).entries@ + concat_over(es@.take(i as int + 1), g));
        }
        i = i + 1;
    }
    proof {
        assert(es@.take(i as int) =~= es@);
    }
}

} // verus!
