use vstd::prelude::*;
use std::collections::VecDeque;
use crate::entity::Entity;
use crate::record::{ComponentKind, ComponentValue, Components, TagKind};
use crate::world::{World, WorldModel};
use crate::query::{lemma_query_yields_live, query_result, Query};

verus! {

/// A structural change recorded while a system iterates.
pub enum Command {
    Spawn(Components),
    Delete(Entity),
    AddComponent(Entity, ComponentValue),
    RemoveComponent(Entity, ComponentKind),
    SetTag(Entity, TagKind, bool),
}

/// The effect of one command on a world.
pub open spec fn apply_command(m: WorldModel, c: Command) -> WorldModel {
    match c {
        Command::Spawn(cs) => m.spawned(cs),
        Command::Delete(e) => m.deleted(e),
        Command::AddComponent(e, v) => m.updated(e, m.data[e].spec_with(v)),
        Command::RemoveComponent(e, k) => m.updated(e, m.data[e].spec_without(k)),
        Command::SetTag(e, t, on) => m.updated(
            e,
            Components { tags: m.data[e].tags.spec_with(t, on), ..m.data[e] },
        ),
    }
}

/// The effect of a sequence of commands, applied in order.
pub open spec fn apply_all(m: WorldModel, cs: Seq<Command>) -> WorldModel
    decreases cs.len(),
{
    if cs.len() == 0 {
        m
    } else {
        apply_command(apply_all(m, cs.drop_last()), cs.last())
    }
}

/// Commands recorded by one system, applied together at a flush.
pub struct CommandBuffer {
    commands: VecDeque<Command>,
}

impl View for CommandBuffer {
    type V = Seq<Command>;

    closed spec fn view(&self) -> Seq<Command> {
        self.commands@
    }
}

impl CommandBuffer {
    pub fn new() -> (r: CommandBuffer)
        ensures
            r@ == Seq::<Command>::empty(),
    {
        CommandBuffer { commands: VecDeque::new() }
    }

    pub fn len(&self) -> (r: usize)
        ensures
            r == self@.len(),
    {
        self.commands.len()
    }

    fn record(&mut self, c: Command)
        ensures
            final(self)@ == old(self)@.push(c),
    {
        self.commands.push_back(c);
    }

    /// Records the creation of an entity carrying `components` (tags included).
    pub fn spawn_with(&mut self, components: Components)
        ensures
            final(self)@ == old(self)@.push(Command::Spawn(components)),
    {
        self.record(Command::Spawn(components));
    }

    pub fn delete(&mut self, e: Entity)
        ensures
            final(self)@ == old(self)@.push(Command::Delete(e)),
    {
        self.record(Command::Delete(e));
    }

    pub fn add_component(&mut self, e: Entity, v: ComponentValue)
        ensures
            final(self)@ == old(self)@.push(Command::AddComponent(e, v)),
    {
        self.record(Command::AddComponent(e, v));
    }

    pub fn remove_component(&mut self, e: Entity, k: ComponentKind)
        ensures
            final(self)@ == old(self)@.push(Command::RemoveComponent(e, k)),
    {
        self.record(Command::RemoveComponent(e, k));
    }

    pub fn add_tag(&mut self, e: Entity, t: TagKind)
        ensures
            final(self)@ == old(self)@.push(Command::SetTag(e, t, true)),
    {
        self.record(Command::SetTag(e, t, true));
    }

    /// Replays the recorded commands on `world` in recording order, then
    /// empties the buffer.
    pub fn apply(&mut self, world: &mut World)
        requires
            old(world).wf(),
            old(world)@.next_id + old(self)@.len() < u64::MAX,
        ensures
            final(world).wf(),
            final(world)@ == apply_all(old(world)@, old(self)@),
            final(self)@ == Seq::<Command>::empty(),
    {
        let ghost all = self@;
        let ghost start = world@;
        let ghost mut done: int = 0;
        proof {
            lemma_next_id_bound(start, all.take(0));
            assert(all.take(0) =~= Seq::<Command>::empty());
            assert(self@ =~= all.skip(0));
        }
        while self.commands.len() > 0
            invariant
                0 <= done <= all.len(),
                self@ == all.skip(done),
                world.wf(),
                world@ == apply_all(start, all.take(done)),
                start.next_id + all.len() < u64::MAX,
            decreases self@.len(),
        {
            let c = self.commands.pop_front().unwrap();
            proof {
                assert(c == all[done]);
                lemma_next_id_bound(start, all.take(done));
            }
            match c {
                Command::Spawn(cs) => {
                    world.spawn(cs);
                },
                Command::Delete(e) => world.delete(e),
                Command::AddComponent(e, v) => world.add_component(e, v),
                Command::RemoveComponent(e, k) => world.remove_component(e, k),
                Command::SetTag(e, t, on) => world.set_tag(e, t, on),
            }
            proof {
                assert(all.take(done + 1).drop_last() =~= all.take(done));
                done = done + 1;
                assert(self@ =~= all.skip(done));
            }
        }
        proof {
            assert(all.take(done) =~= all);
        }
    }
}

/// Each command issues at most one identity.
pub proof fn lemma_next_id_bound(m: WorldModel, cs: Seq<Command>)
    ensures
        m.next_id <= apply_all(m, cs).next_id <= m.next_id + cs.len(),
    decreases cs.len(),
{
    if cs.len() > 0 {
        lemma_next_id_bound(m, cs.drop_last());
    }
}

/// Applying one group's buffers one after another is applying everything
/// they recorded, once each, in recording order.
pub proof fn lemma_flush_in_order(m: WorldModel, first: Seq<Command>, second: Seq<Command>)
    ensures
        apply_all(apply_all(m, first), second) == apply_all(m, first + second),
    decreases second.len(),
{
    if second.len() == 0 {
        assert(first + second =~= first);
    } else {
        lemma_flush_in_order(m, first, second.drop_last());
        assert((first + second).drop_last() =~= first + second.drop_last());
        assert((first + second).last() == second.last());
    }
}

/// Once deleted, an entity never comes back: whatever commands follow its
/// deletion, it is not alive, no query yields it and no lookup finds it.
pub proof fn lemma_deleted_never_returns(
    m: WorldModel,
    cs: Seq<Command>,
    i: int,
    e: Entity,
    q: Query,
)
    requires
        m.inv(),
        m.next_id + cs.len() <= u64::MAX,
        0 <= i < cs.len(),
        cs[i] == Command::Delete(e),
        e.id < m.next_id,
    ensures
        !apply_all(m, cs).alive(e),
        !apply_all(m, cs).data.contains_key(e),
        !query_result(apply_all(m, cs), q).contains(e),
    decreases cs.len(),
{
    let prev = apply_all(m, cs.drop_last());
    lemma_next_id_bound(m, cs.drop_last());
    if i < cs.len() - 1 {
        lemma_deleted_never_returns(m, cs.drop_last(), i, e, q);
    }
    lemma_apply_keeps_inv(m, cs);
    lemma_query_yields_live(apply_all(m, cs), q, e);
}

/// Commands keep the world model's invariant.
pub proof fn lemma_apply_keeps_inv(m: WorldModel, cs: Seq<Command>)
    requires
        m.inv(),
        m.next_id + cs.len() <= u64::MAX,
    ensures
        apply_all(m, cs).inv(),
    decreases cs.len(),
{
    if cs.len() > 0 {
        lemma_apply_keeps_inv(m, cs.drop_last());
        lemma_next_id_bound(m, cs.drop_last());
        lemma_command_keeps_inv(apply_all(m, cs.drop_last()), cs.last());
    }
}

proof fn lemma_command_keeps_inv(m: WorldModel, c: Command)
    requires
        m.inv(),
        m.next_id < u64::MAX,
    ensures
        apply_command(m, c).inv(),
{
    match c {
        Command::Spawn(cs) => {
            let e = Entity { id: m.next_id as u64 };
            let r = m.spawned(cs);
            if m.entities.contains(e) {
                assert(m.data.contains_key(e));
            }
            assert forall|x: Entity| #[trigger] r.data.contains_key(x) <==> r.entities.contains(x) by {
                if x != e {
                    if m.entities.contains(x) {
                        let j = m.entities.index_of(x);
                        assert(r.entities[j] == x);
                    }
                    if r.entities.contains(x) {
                        let j = r.entities.index_of(x);
                        assert(m.entities[j] == x);
                    }
                } else {
                    assert(r.entities[m.entities.len() as int] == e);
                }
            }
            assert forall|x: Entity| #[trigger] r.data.contains_key(x) implies x.id < r.next_id by {
                if x != e {
                    assert(m.data.contains_key(x));
                }
            }
        },
        Command::Delete(e) => {
            if m.alive(e) {
                let r = m.deleted(e);
                let i = m.entities.index_of(e);
                assert(m.entities.contains(e));
                assert(m.entities[i] == e);
                assert forall|x: Entity| #[trigger] r.data.contains_key(x) <==> r.entities.contains(x) by {
                    if r.entities.contains(x) {
                        let j = r.entities.index_of(x);
                        let oj = if j < i { j } else { j + 1 };
                        assert(r.entities[j] == m.entities[oj]);
                        assert(m.entities.contains(x));
                        assert(oj != i);
                    }
                    if x != e && m.entities.contains(x) {
                        let oj = m.entities.index_of(x);
                        assert(oj != i);
                        let j = if oj < i { oj } else { oj - 1 };
                        assert(r.entities[j] == x);
                    }
                }
            }
        },
        _ => {},
    }
}

} // verus!
