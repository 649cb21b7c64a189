use vstd::prelude::*;
use crate::command::{Command, CommandBuffer};
use crate::entity::Entity;
use crate::fold::{concat_over, lemma_take_step};
use crate::gamelog::{GameLog, LogEntry};
use crate::schedule::SystemId;
use crate::state::RunState;
use crate::world::{World, WorldModel};

verus! {

/// Whether `e` has stats and its health has dropped below 1.
pub open spec fn is_dead(m: WorldModel, e: Entity) -> bool {
    m.data[e].combat_stats is Some && m.data[e].combat_stats.unwrap().hp < 1
}

/// The dead player stays; any other dead entity is deleted.
pub open spec fn reap_cmds(m: WorldModel, e: Entity) -> Seq<Command> {
    if is_dead(m, e) && m.data[e].player is None {
        seq![Command::Delete(e)]
    } else {
        Seq::empty()
    }
}

pub open spec fn reap_log(m: WorldModel, e: Entity) -> Seq<LogEntry> {
    if is_dead(m, e) && m.data[e].player is None && m.data[e].name is Some {
        seq![LogEntry::Dead { name: m.data[e].name.unwrap().name }]
    } else {
        Seq::empty()
    }
}

/// Whether some dead entity is the player.
pub open spec fn player_died(m: WorldModel) -> bool {
    exists|i: int| 0 <= i < m.entities.len() && is_dead(m, m.entities[i]) && (
    #[trigger] m.data[m.entities[i]]).player is Some
}

pub fn build() -> (r: SystemId)
    ensures
        r == SystemId::DeleteTheDead,
{
    SystemId::DeleteTheDead
}

/// Deletes every entity whose health dropped below 1, except the player,
/// whose death ends the game instead.
pub fn run(world: &World, log: &mut GameLog, runstate: &mut RunState, commands: &mut CommandBuffer)
    requires
        world.wf(),
    ensures
        final(commands)@ == old(commands)@ + concat_over(world@.entities, |e: Entity| reap_cmds(world@, e)),
        final(log).entries@ == old(log).entries@ + concat_over(world@.entities, |e: Entity| reap_log(world@, e)),
        *final(runstate) == (if player_died(world@) {
            RunState::GameOver
        } else {
            *old(runstate)
        }),
{
    let ghost m = world@;
    let ghost f = |e: Entity| reap_cmds(m, e);
    let ghost g = |e: Entity| reap_log(m, e);
    proof {
        world.lemma_inv();
    }
    let es = world.entities();
    let mut i: usize = 0;
    while i < es.len()
        invariant
            world.wf(),
            m == world@,
            m.inv(),
            es@ == m.entities,
            i <= es@.len(),
            f == (|e: Entity| reap_cmds(m, e)),
            g == (|e: Entity| reap_log(m, e)),
            commands@ == old(commands)@ + concat_over(es@.take(i as int), f),
            log.entries@ == old(log).entries@ + concat_over(es@.take(i as int), g),
            *runstate == (if exists|j: int|
                0 <= j < i && is_dead(m, m.entities[j]) && (#[trigger] m.data[m.entities[j]]).player is Some {
                RunState::GameOver
            } else {
                *old(runstate)
            }),
        decreases es.len() - i,
    {
        proof {
            lemma_take_step(es@, i as int);
            assert(m.entities.contains(es@[i as int]));
        }
        let e = es[i];
        let c = world.get(e).unwrap();
        if let Some(s) = c.combat_stats {
            if s.hp < 1 {
                if c.player.is_some() {
                    *runstate = RunState::GameOver;
                } else {
                    if let Some(n) = &c.name {
                        log.push(LogEntry::Dead { name: n.name.clone() });
                    }
                    commands.delete(e);
                }
            }
        }
        proof {
            assert(commands@ =~= old(commands)@ + concat_over(es@.take(i as int + 1), f));
            assert(log.entries@ =~= old(log).entries@ + concat_over(es@.take(i as int + 1), g));
        }
        i = i + 1;
    }
    proof {
        assert(es@.take(i as int) =~= es@);
    }
}

} // verus!
