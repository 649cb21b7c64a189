use vstd::prelude::*;
use crate::command::{Command, CommandBuffer};
use crate::components::{CombatStats, SufferDamage};
use crate::entity::{Entity, EntityHolder};
use crate::record::{ComponentValue, Components};
use crate::world::{World, WorldModel};
use crate::fold::{concat_over, lemma_sum_bound, lemma_take_step, sum_over};
use crate::schedule::SystemId;

verus! {

/// `x` saturated to the range of `i32`.
pub open spec fn clamp_i32(x: int) -> int {
    if x > i32::MAX {
        i32::MAX as int
    } else if x < i32::MIN {
        i32::MIN as int
    } else {
        x
    }
}

pub fn saturate_i32(x: i128) -> (r: i32)
    ensures
        r == clamp_i32(x as int),
{
    if x > i32::MAX as i128 {
        i32::MAX
    } else if x < i32::MIN as i128 {
        i32::MIN
    } else {
        x as i32
    }
}

/// The free-standing entity that carries one damage entry.
pub open spec fn damage_entry(victim: Entity, amount: i32) -> Components {
    Components {
        suffer_damage: Some(SufferDamage { victim: EntityHolder::Live(victim), amount }),
        ..crate::record::empty_components()
    }
}

impl SufferDamage {
    /// Records the spawn of a damage entry against `victim`.
    pub fn new_damage(commands: &mut CommandBuffer, victim: Entity, amount: i32)
        ensures
            final(commands)@ == old(commands)@.push(Command::Spawn(damage_entry(victim, amount))),
    {
        let mut c = Components::empty();
        c.suffer_damage = Some(SufferDamage::new(victim, amount));
        commands.spawn_with(c);
    }
}

} // verus!

verus! {

/// The amount of one damage entry against `victim`, if `e` is one.
pub open spec fn entry_amount(m: WorldModel, e: Entity, victim: Entity) -> int {
    match m.data[e].suffer_damage {
        Some(d) => if d.victim == EntityHolder::Live(victim) {
            d.amount as int
        } else {
            0
        },
        None => 0,
    }
}

/// Total damage queued against `victim`.
pub open spec fn damage_total(m: WorldModel, victim: Entity) -> int {
    sum_over(m.entities, |e: Entity| entry_amount(m, e, victim))
}

/// The stats update for `v`: health lowered by its total damage.
pub open spec fn damage_stat_cmds(m: WorldModel, v: Entity) -> Seq<Command> {
    match m.data[v].combat_stats {
        Some(s) => if damage_total(m, v) != 0 {
            seq![
                Command::AddComponent(
                    v,
                    ComponentValue::CombatStats(
                        CombatStats { hp: clamp_i32(s.hp - damage_total(m, v)) as i32, ..s },
                    ),
                ),
            ]
        } else {
            Seq::empty()
        },
        None => Seq::empty(),
    }
}

/// The deletion of `e` if it is a damage entry.
pub open spec fn consume_entry_cmds(m: WorldModel, e: Entity) -> Seq<Command> {
    if m.data[e].suffer_damage is Some {
        seq![Command::Delete(e)]
    } else {
        Seq::empty()
    }
}

/// Everything the damage system records on `m`.
pub open spec fn damage_cmds(m: WorldModel) -> Seq<Command> {
    concat_over(m.entities, |v: Entity| damage_stat_cmds(m, v)) + concat_over(
        m.entities,
        |e: Entity| consume_entry_cmds(m, e),
    )
}

pub fn build() -> (r: SystemId)
    ensures
        r == SystemId::Damage,
{
    SystemId::Damage
}

fn total_against(world: &World, es: &Vec<Entity>, victim: Entity) -> (r: i128)
    requires
        world.wf(),
        es@ == world@.entities,
    ensures
        r == damage_total(world@, victim),
        -0x1_0000_0000_0000_0000_0000_0000 <= r <= 0x1_0000_0000_0000_0000_0000_0000,
{
    let ghost m = world@;
    let ghost f = |e: Entity| entry_amount(m, e, victim);
    proof {
        world.lemma_inv();
    }
    let mut total: i128 = 0;
    let mut i: usize = 0;
    while i < es.len()
        invariant
            world.wf(),
            m == world@,
            m.inv(),
            es@ == m.entities,
            i <= es@.len(),
            f == (|e: Entity| entry_amount(m, e, victim)),
            total == sum_over(es@.take(i as int), f),
        decreases es.len() - i,
    {
        proof {
            lemma_take_step(es@, i as int);
            lemma_sum_bound(es@.take(i as int), f, i32::MAX as int + 1);
            assert(m.entities.contains(es@[i as int]));
        }
        let c = world.get(es[i]).unwrap();
        if let Some(d) = c.suffer_damage {
            if d.victim == EntityHolder::Live(victim) {
                total = total + d.amount as i128;
            }
        }
        i = i + 1;
    }
    proof {
        assert(es@.take(i as int) =~= es@);
        lemma_sum_bound(es@, f, i32::MAX as int + 1);
        let n = es@.len() as int;
        assert((i32::MAX as int + 1) * n <= 0x1_0000_0000_0000_0000_0000_0000) by (nonlinear_arith)
            requires
                0 <= n <= usize::MAX,
        ;
    }
    total
}

/// Applies every queued damage entry to its victim's health and deletes
/// the consumed entries.
pub fn run(world: &World, commands: &mut CommandBuffer)
    requires
        world.wf(),
    ensures
        final(commands)@ == old(commands)@ + damage_cmds(world@),
{
    let ghost m = world@;
    let ghost f = |v: Entity| damage_stat_cmds(m, v);
    let ghost g = |e: Entity| consume_entry_cmds(m, e);
    proof {
        world.lemma_inv();
    }
    let es = world.entities();
    let mut i: usize = 0;
    while i < es.len()
        invariant
            world.wf(),
            m == world@,
            m.inv(),
            es@ == m.entities,
            i <= es@.len(),
            f == (|v: Entity| damage_stat_cmds(m, v)),
            commands@ == old(commands)@ + concat_over(es@.take(i as int), f),
        decreases es.len() - i,
    {
        proof {
            lemma_take_step(es@, i as int);
            assert(m.entities.contains(es@[i as int]));
        }
        let v = es[i];
        let c = world.get(v).unwrap();
        if let Some(s) = c.combat_stats {
            let total = total_against(world, &es, v);
            if total != 0 {
                let hp = saturate_i32(s.hp as i128 - total);
                commands.add_component(v, ComponentValue::CombatStats(CombatStats { hp, ..s }));
            }
        }
        proof {
            assert(commands@ =~= old(commands)@ + concat_over(es@.take(i as int + 1), f));
        }
        i = i + 1;
    }
    proof {
        assert(es@.take(i as int) =~= es@);
    }
    let ghost mid = commands@;
    let mut i: usize = 0;
    while i < es.len()
        invariant
            world.wf(),
            m == world@,
            m.inv(),
            es@ == m.entities,
            i <= es@.len(),
            g == (|e: Entity| consume_entry_cmds(m, e)),
            commands@ == mid + concat_over(es@.take(i as int), g),
        decreases es.len() - i,
    {
        proof {
            lemma_take_step(es@, i as int);
            assert(m.entities.contains(es@[i as int]));
        }
        let e = es[i];
        let c = world.get(e).unwrap();
        if c.suffer_damage.is_some() {
            commands.delete(e);
        }
        proof {
            assert(commands@ =~= mid + concat_over(es@.take(i as int + 1), g));
        }
        i = i + 1;
    }
    proof {
        assert(es@.take(i as int) =~= es@);
        assert(commands@ =~= old(commands)@ + damage_cmds(m));
    }
}

} // verus!
