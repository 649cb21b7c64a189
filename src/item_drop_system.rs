use vstd::prelude::*;
use crate::command::{Command, CommandBuffer};
use crate::components::Position;
use crate::entity::{Entity, EntityHolder};
use crate::fold::{concat_over, lemma_take_step};
use crate::gamelog::{GameLog, LogEntry};
use crate::record::{ComponentKind, ComponentValue};
use crate::schedule::SystemId;
use crate::world::{World, WorldModel};

verus! {

/// A drop intent of a positioned entity puts the item at the dropper's
/// position, takes it out of the backpack and consumes the intent.
pub open spec fn drop_cmds(m: WorldModel, e: Entity) -> Seq<Command> {
    match (m.data[e].wants_to_drop_item, m.data[e].position) {
        (Some(d), Some(p)) => match d.item {
            EntityHolder::Live(item) => seq![
                Command::AddComponent(item, ComponentValue::Position(p)),
                Command::RemoveComponent(item, ComponentKind::InBackpack),
                Command::RemoveComponent(e, ComponentKind::WantsToDropItem),
            ],
            EntityHolder::Pending(_) => seq![Command::RemoveComponent(e, ComponentKind::WantsToDropItem)],
        },
        _ => Seq::empty(),
    }
}

pub open spec fn drop_log(m: WorldModel, player: Entity, e: Entity) -> Seq<LogEntry> {
    match (m.data[e].wants_to_drop_item, m.data[e].position) {
        (Some(d), Some(_)) => match d.item {
            EntityHolder::Live(item) => if e == player && m.alive(item) && m.data[item].name is Some {
                seq![LogEntry::Dropped { item: m.data[item].name.unwrap().name }]
            } else {
                Seq::empty()
            },
            EntityHolder::Pending(_) => Seq::empty(),
        },
        _ => Seq::empty(),
    }
}

pub fn build() -> (r: SystemId)
    ensures
        r == SystemId::ItemDrop,
{
    SystemId::ItemDrop
}

/// Resolves every drop intent.
pub fn run(world: &World, player: Entity, log: &mut GameLog, commands: &mut CommandBuffer)
    requires
        world.wf(),
    ensures
        final(commands)@ == old(commands)@ + concat_over(world@.entities, |e: Entity| drop_cmds(world@, e)),
        final(log).entries@ == old(log).entries@ + concat_over(
            world@.entities,
            |e: Entity| drop_log(world@, player, e),
        ),
{
    let ghost m = world@;
    let ghost f = |e: Entity| drop_cmds(m, e);
    let ghost g = |e: Entity| drop_log(m, player, e);
    proof {
        world.lemma_inv();
    }
    let es = world.entities();
    let mut i: usize = 0;
    while i < es.len()
        invariant
            world.wf(),
            m == world@,
            m.inv(),
            es@ == m.entities,
            i <= es@.len(),
            f == (|e: Entity| drop_cmds(m, e)),
            g == (|e: Entity| drop_log(m, player, e)),
            commands@ == old(commands)@ + concat_over(es@.take(i as int), f),
            log.entries@ == old(log).entries@ + concat_over(es@.take(i as int), g),
        decreases es.len() - i,
    {
        proof {
            lemma_take_step(es@, i as int);
            assert(m.entities.contains(es@[i as int]));
        }
        let e = es[i];
        let c = world.get(e).unwrap();
        if let (Some(d), Some(p)) = (c.wants_to_drop_item, c.position) {
            if let EntityHolder::Live(item) = d.item {
                commands.add_component(item, ComponentValue::Position(p));
                commands.remove_component(item, ComponentKind::InBackpack);
                if e == player {
                    if let Some(ic) = world.get(item) {
                        if let Some(n) = &ic.name {
                            log.push(LogEntry::Dropped { item: n.name.clone() });
                        }
                    }
                }
            }
            commands.remove_component(e, ComponentKind::WantsToDropItem);
        }
        proof {
            assert(commands@ =~= old(commands)@ + concat_over(es@.take(i as int + 1), f));
            assert(log.entries@ =~= old(log).entries@ + concat_over(es@.take(i as int + 1), g));
        }
        i = i + 1;
    }
    proof {
        assert(es@.take(i as int) =~= es@);
    }
}

} // verus!
