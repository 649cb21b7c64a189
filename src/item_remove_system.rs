use vstd::prelude::*;
use crate::command::{Command, CommandBuffer};
use crate::components::InBackpack;
use crate::entity::{Entity, EntityHolder};
use crate::fold::{concat_over, lemma_take_step};
use crate::record::{ComponentKind, ComponentValue};
use crate::schedule::SystemId;
use crate::world::{World, WorldModel};

verus! {

/// An unequip intent moves the item from its slot to the wearer's
/// backpack and is consumed.
pub open spec fn unequip_cmds(m: WorldModel, e: Entity) -> Seq<Command> {
    match m.data[e].wants_to_remove_item {
        Some(r) => match r.item {
            EntityHolder::Live(item) => seq![
                Command::RemoveComponent(item, ComponentKind::Equipped),
                Command::AddComponent(
                    item,
                    ComponentValue::InBackpack(InBackpack { owner: EntityHolder::Live(e) }),
                ),
                Command::RemoveComponent(e, ComponentKind::WantsToRemoveItem),
            ],
            EntityHolder::Pending(_) => seq![Command::RemoveComponent(e, ComponentKind::WantsToRemoveItem)],
        },
        None => Seq::empty(),
    }
}

pub fn build() -> (r: SystemId)
    ensures
        r == SystemId::ItemRemove,
{
    SystemId::ItemRemove
}

/// Resolves every unequip intent.
pub fn run(world: &World, commands: &mut CommandBuffer)
    requires
        world.wf(),
    ensures
        final(commands)@ == old(commands)@ + concat_over(world@.entities, |e: Entity| unequip_cmds(world@, e)),
{
    let ghost m = world@;
    let ghost f = |e: Entity| unequip_cmds(m, e);
    proof {
        world.lemma_inv();
    }
    let es = world.entities();
    let mut i: usize = 0;
    while i < es.len()
        invariant
            world.wf(),
            m == world@,
            m.inv(),
            es@ == m.entities,
            i <= es@.len(),
            f == (|e: Entity| unequip_cmds(m, e)),
            commands@ == old(commands)@ + concat_over(es@.take(i as int), f),
        decreases es.len() - i,
    {
        proof {
            lemma_take_step(es@, i as int);
            assert(m.entities.contains(es@[i as int]));
        }
        let e = es[i];
        let c = world.get(e).unwrap();
        if let Some(r) = c.wants_to_remove_item {
            if let EntityHolder::Live(item) = r.item {
                commands.remove_component(item, ComponentKind::Equipped);
                commands.add_component(item, ComponentValue::InBackpack(InBackpack::new(e)));
            }
            commands.remove_component(e, ComponentKind::WantsToRemoveItem);
        }
        proof {
            assert(commands@ =~= old(commands)@ + concat_over(es@.take(i as int + 1), f));
        }
        i = i + 1;
    }
    proof {
        assert(es@.take(i as int) =~= es@);
    }
}

} // verus!
