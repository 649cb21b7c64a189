use vstd::prelude::*;
use crate::command::{Command, CommandBuffer};
use crate::components::InBackpack;
use crate::entity::{Entity, EntityHolder};
use crate::fold::{concat_over, lemma_take_step};
use crate::gamelog::{GameLog, LogEntry};
use crate::record::{ComponentKind, ComponentValue};
use crate::schedule::SystemId;
use crate::world::{World, WorldModel};

verus! {

/// A pickup request `e` moves its item off the map into the collector's
/// backpack, then is deleted.
pub open spec fn pickup_cmds(m: WorldModel, e: Entity) -> Seq<Command> {
    match m.data[e].wants_to_pickup_item {
        Some(p) => match p.item {
            EntityHolder::Live(item) => seq![
                Command::RemoveComponent(item, ComponentKind::Position),
                Command::AddComponent(
                    item,
                    ComponentValue::InBackpack(InBackpack { owner: p.collected_by }),
                ),
                Command::Delete(e),
            ],
            EntityHolder::Pending(_) => seq![Command::Delete(e)],
        },
        None => Seq::empty(),
    }
}

pub open spec fn pickup_log(m: WorldModel, player: Entity, e: Entity) -> Seq<LogEntry> {
    match m.data[e].wants_to_pickup_item {
        Some(p) => match p.item {
            EntityHolder::Live(item) => if p.collected_by == EntityHolder::Live(player) && m.alive(item)
                && m.data[item].name is Some {
                seq![LogEntry::PickedUp { item: m.data[item].name.unwrap().name }]
            } else {
                Seq::empty()
            },
            EntityHolder::Pending(_) => Seq::empty(),
        },
        None => Seq::empty(),
    }
}

pub fn build() -> (r: SystemId)
    ensures
        r == SystemId::Inventory,
{
    SystemId::Inventory
}

/// Resolves every pickup request.
pub fn run(world: &World, player: Entity, log: &mut GameLog, commands: &mut CommandBuffer)
    requires
        world.wf(),
    ensures
        final(commands)@ == old(commands)@ + concat_over(world@.entities, |e: Entity| pickup_cmds(world@, e)),
        final(log).entries@ == old(log).entries@ + concat_over(
            world@.entities,
            |e: Entity| pickup_log(world@, player, e),
        ),
{
    let ghost m = world@;
    let ghost f = |e: Entity| pickup_cmds(m, e);
    let ghost g = |e: Entity| pickup_log(m, player, e);
    proof {
        world.lemma_inv();
    }
    let es = world.entities();
    let mut i: usize = 0;
    while i < es.len()
        invariant
            world.wf(),
            m == world@,
            m.inv(),
            es@ == m.entities,
            i <= es@.len(),
            f == (|e: Entity| pickup_cmds(m, e)),
            g == (|e: Entity| pickup_log(m, player, e)),
            commands@ == old(commands)@ + concat_over(es@.take(i as int), f),
            log.entries@ == old(log).entries@ + concat_over(es@.take(i as int), g),
        decreases es.len() - i,
    {
        proof {
            lemma_take_step(es@, i as int);
            assert(m.entities.contains(es@[i as int]));
        }
        let e = es[i];
        let c = world.get(e).unwrap();
        if let Some(p) = c.wants_to_pickup_item {
            if let EntityHolder::Live(item) = p.item {
                commands.remove_component(item, ComponentKind::Position);
                commands.add_component(
                    item,
                    ComponentValue::InBackpack(InBackpack { owner: p.collected_by }),
                );
                if p.collected_by == EntityHolder::Live(player) {
                    if let Some(ic) = world.get(item) {
                        if let Some(n) = &ic.name {
                            log.push(LogEntry::PickedUp { item: n.name.clone() });
                        }
                    }
                }
            }
            commands.delete(e);
        }
        proof {
            assert(commands@ =~= old(commands)@ + concat_over(es@.take(i as int + 1), f));
            assert(log.entries@ =~= old(log).entries@ + concat_over(es@.take(i as int + 1), g));
        }
        i = i + 1;
    }
    proof {
        assert(es@.take(i as int) =~= es@);
    }
}

} // verus!
