use vstd::prelude::*;
use crate::command::{Command, CommandBuffer};
use crate::components::{Point, Position, WantsToPickupItem};
use crate::entity::{Entity, EntityHolder};
use crate::gamelog::{GameLog, LogEntry};
use crate::record::Components;
use crate::schedule::SystemId;
use crate::world::{World, WorldModel};

verus! {

/// Whether `e` is an item lying at `p`.
pub open spec fn item_at(m: WorldModel, e: Entity, p: Point) -> bool {
    m.data[e].tags.item && m.data[e].position == Some(Position { x: p.x, y: p.y })
}

/// The free-standing request of `collector` to pick up `item`.
pub open spec fn pickup_request(collector: Entity, item: Entity) -> Components {
    Components {
        wants_to_pickup_item: Some(
            WantsToPickupItem {
                collected_by: EntityHolder::Live(collector),
                item: EntityHolder::Live(item),
            },
        ),
        ..crate::record::empty_components()
    }
}

pub fn build() -> (r: SystemId)
    ensures
        r == SystemId::GetItem,
{
    SystemId::GetItem
}

/// Requests the pickup of an item at the player's position (the last one
/// spawned, if several lie there); with none, narrates that there is
/// nothing to pick up.
pub fn run(
    world: &World,
    player: Entity,
    player_pos: Point,
    log: &mut GameLog,
    commands: &mut CommandBuffer,
)
    requires
        world.wf(),
    ensures
        (exists|i: int| 0 <= i < world@.entities.len() && item_at(world@, #[trigger] world@.entities[i], player_pos))
            ==> exists|i: int|
            0 <= i < world@.entities.len() && item_at(world@, world@.entities[i], player_pos)
                && (forall|j: int|
                i < j < world@.entities.len() ==> !item_at(world@, #[trigger] world@.entities[j], player_pos))
                && final(commands)@ == old(commands)@.push(
                Command::Spawn(pickup_request(player, world@.entities[i])),
            ) && final(log).entries@ == old(log).entries@,
        !(exists|i: int| 0 <= i < world@.entities.len() && item_at(world@, #[trigger] world@.entities[i], player_pos))
            ==> final(commands)@ == old(commands)@ && final(log).entries@ == old(log).entries@.push(
            LogEntry::NothingToPickUp,
        ),
{
    let ghost m = world@;
    proof {
        world.lemma_inv();
    }
    let es = world.entities();
    let mut found: Option<usize> = None;
    let mut i: usize = 0;
    while i < es.len()
        invariant
            world.wf(),
            m == world@,
            m.inv(),
            es@ == m.entities,
            i <= es@.len(),
            found matches Some(k) ==> k < i && item_at(m, m.entities[k as int], player_pos) && (forall|j: int|
                k < j < i ==> !item_at(m, #[trigger] m.entities[j], player_pos)),
            found is None ==> forall|j: int| 0 <= j < i ==> !item_at(m, #[trigger] m.entities[j], player_pos),
        decreases es.len() - i,
    {
        proof {
            assert(m.entities.contains(es@[i as int]));
        }
        let c = world.get(es[i]).unwrap();
        if c.tags.item {
            if let Some(p) = c.position {
                if p.x == player_pos.x && p.y == player_pos.y {
                    found = Some(i);
                }
            }
        }
        i = i + 1;
    }
    match found {
        None => {
            log.push(LogEntry::NothingToPickUp);
        },
        Some(k) => {
            let mut c = Components::empty();
            c.wants_to_pickup_item = Some(WantsToPickupItem::new(player, es[k]));
            commands.spawn_with(c);
        },
    }
}

} // verus!
