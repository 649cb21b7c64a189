use vstd::prelude::*;
use crate::command::{Command, CommandBuffer};
use crate::components::{Confusion, Point, Position, WantsToMelee};
use crate::entity::{Entity, EntityHolder};
use crate::fold::{concat_over, lemma_take_step};
use crate::map::GameMap;
use crate::record::{ComponentKind, ComponentValue, Components};
use crate::schedule::SystemId;
use crate::state::RunState;
use crate::world::{view_dirtied, World, WorldModel};

verus! {

/// The next step of a path from an entity towards the player, as computed
/// by the pathfinding collaborator.
pub struct PathStep {
    pub entity: Entity,
    pub to: Point,
}

/// The first step given for `e`, if any.
pub open spec fn step_of(steps: Seq<PathStep>, e: Entity) -> Option<Point>
    decreases steps.len(),
{
    if steps.len() == 0 {
        None
    } else if steps[0].entity == e {
        Some(steps[0].to)
    } else {
        step_of(steps.drop_first(), e)
    }
}

/// Whether two tiles lie within Euclidean distance 1.5 of each other.
pub open spec fn adjacent(x: i32, y: i32, p: Point) -> bool {
    -1 <= x - p.x <= 1 && -1 <= y - p.y <= 1
}

/// A monster that takes part in the monster turn.
pub open spec fn is_monster(c: Components) -> bool {
    c.tags.monster && c.viewshed is Some && c.position is Some && c.name is Some
}

/// The remaining duration after one more turn.
pub open spec fn decremented(turns: i32) -> i32 {
    if turns > i32::MIN {
        (turns - 1) as i32
    } else {
        turns
    }
}

/// What a monster decides this turn.
pub enum Decision {
    /// Confused: it loses the turn and its status runs down.
    Stunned,
    /// Next to the player: it attacks.
    Attack,
    /// Sees the player and has a step towards it: it moves there.
    Chase(Point),
    Idle,
}

pub open spec fn decide(c: Components, player_pos: Point, step: Option<Point>) -> Decision {
    if c.confusion is Some {
        Decision::Stunned
    } else if adjacent(c.position.unwrap().x, c.position.unwrap().y, player_pos) {
        Decision::Attack
    } else if c.viewshed.unwrap().visible_tiles@.contains(player_pos) && step is Some {
        Decision::Chase(step.unwrap())
    } else {
        Decision::Idle
    }
}

/// A monster's components after its turn.
pub open spec fn ai_after(c: Components, player_pos: Point, step: Option<Point>) -> Components {
    if is_monster(c) {
        match decide(c, player_pos, step) {
            Decision::Stunned => Components {
                confusion: Some(Confusion { turns: decremented(c.confusion.unwrap().turns) }),
                ..c
            },
            Decision::Chase(p) => view_dirtied(
                Components { position: Some(Position { x: p.x, y: p.y }), ..c },
            ),
            _ => c,
        }
    } else {
        c
    }
}

/// What a monster's turn records: the removal of a status that ran out,
/// or an attack on the player.
pub open spec fn ai_cmds(m: WorldModel, player: Entity, player_pos: Point, steps: Seq<PathStep>, e: Entity) -> Seq<Command> {
    let c = m.data[e];
    if is_monster(c) {
        match decide(c, player_pos, step_of(steps, e)) {
            Decision::Stunned => if decremented(c.confusion.unwrap().turns) < 1 {
                seq![Command::RemoveComponent(e, ComponentKind::Confusion)]
            } else {
                Seq::empty()
            },
            Decision::Attack => seq![
                Command::AddComponent(
                    e,
                    ComponentValue::WantsToMelee(WantsToMelee { target: EntityHolder::Live(player) }),
                ),
            ],
            _ => Seq::empty(),
        }
    } else {
        Seq::empty()
    }
}

pub fn build() -> (r: SystemId)
    ensures
        r == SystemId::MonsterAi,
{
    SystemId::MonsterAi
}

fn step_for(steps: &Vec<PathStep>, e: Entity) -> (r: Option<Point>)
    ensures
        r == step_of(steps@, e),
{
    let mut i: usize = 0;
    proof {
        assert(steps@.skip(0) =~= steps@);
    }
    while i < steps.len()
        invariant
            i <= steps@.len(),
            step_of(steps@, e) == step_of(steps@.skip(i as int), e),
        decreases steps.len() - i,
    {
        proof {
            assert(steps@.skip(i as int)[0] == steps@[i as int]);
            assert(steps@.skip(i as int).drop_first() =~= steps@.skip(i as int + 1));
        }
        if steps[i].entity == e {
            return Some(steps[i].to);
        }
        i = i + 1;
    }
    None
}

fn sees(tiles: &Vec<Point>, p: Point) -> (r: bool)
    ensures
        r == tiles@.contains(p),
{
    let mut i: usize = 0;
    while i < tiles.len()
        invariant
            i <= tiles@.len(),
            forall|j: int| 0 <= j < i ==> tiles@[j] != p,
        decreases tiles.len() - i,
    {
        if tiles[i] == p {
            return true;
        }
        i = i + 1;
    }
    false
}

/// Whether tile `t` is on the map and blocked right now.
fn tile_blocked(map: &GameMap, t: Point) -> (r: bool)
    requires
        map.wf(),
    ensures
        r == (map.in_bounds(t.x as int, t.y as int) && map.blocked@[map.idx(t.x as int, t.y as int)]),
{
    if 0 <= t.x && t.x < map.width && 0 <= t.y && t.y < map.height {
        map.blocked[map.xy_idx(t.x, t.y)]
    } else {
        false
    }
}

fn mark_blocked(map: &mut GameMap, x: i32, y: i32, on: bool)
    requires
        old(map).wf(),
    ensures
        final(map).wf(),
        final(map).tiles == old(map).tiles,
        final(map).width == old(map).width,
        final(map).height == old(map).height,
{
    if 0 <= x && x < map.width && 0 <= y && y < map.height {
        let idx = map.xy_idx(x, y);
        map.blocked.set(idx, on);
    }
}

/// One monster's turn.
fn act(
    world: &mut World,
    map: &mut GameMap,
    player: Entity,
    player_pos: Point,
    steps: &Vec<PathStep>,
    e: Entity,
    commands: &mut CommandBuffer,
)
    requires
        old(world).wf(),
        old(world)@.alive(e),
        old(map).wf(),
    ensures
        final(world).wf(),
        exists|s: Option<Point>|
            (s == step_of(steps@, e) || s is None) && final(world)@ == old(world)@.updated(
                e,
                ai_after(old(world)@.data[e], player_pos, s),
            ),
        final(commands)@ == old(commands)@ + ai_cmds(old(world)@, player, player_pos, steps@, e),
        final(map).wf(),
        final(map).tiles == old(map).tiles,
        final(map).width == old(map).width,
        final(map).height == old(map).height,
{
    let ghost m = world@;
    let c = world.get(e).unwrap();
    if !(c.tags.monster && c.viewshed.is_some() && c.position.is_some() && c.name.is_some()) {
        proof {
            assert(m.updated(e, m.data[e]).data =~= m.data);
        }
        assert(commands@ =~= old(commands)@ + ai_cmds(m, player, player_pos, steps@, e));
        return;
    }
    let pos = c.position.unwrap();
    if let Some(cf) = c.confusion {
        let turns = if cf.turns > i32::MIN {
            cf.turns - 1
        } else {
            cf.turns
        };
        world.add_component(e, ComponentValue::Confusion(Confusion { turns }));
        if turns < 1 {
            commands.remove_component(e, ComponentKind::Confusion);
        }
        proof {
            assert(world@.data =~= m.data.insert(e, ai_after(m.data[e], player_pos, step_of(steps@, e))));
            assert(world@ == m.updated(e, ai_after(m.data[e], player_pos, step_of(steps@, e))));
        }
        assert(commands@ =~= old(commands)@ + ai_cmds(m, player, player_pos, steps@, e));
        return;
    }
    let dx = pos.x as i64 - player_pos.x as i64;
    let dy = pos.y as i64 - player_pos.y as i64;
    if -1 <= dx && dx <= 1 && -1 <= dy && dy <= 1 {
        commands.add_component(e, ComponentValue::WantsToMelee(WantsToMelee::new(player)));
        proof {
            assert(m.updated(e, m.data[e]).data =~= m.data);
        }
        assert(commands@ =~= old(commands)@ + ai_cmds(m, player, player_pos, steps@, e));
        return;
    }
    let visible = sees(&c.viewshed.as_ref().unwrap().visible_tiles, player_pos);
    let planned = step_for(steps, e);
    let step = match planned {
        Some(t) => if tile_blocked(map, t) {
            None
        } else {
            Some(t)
        },
        None => None,
    };
    if visible && step.is_some() {
        let to = step.unwrap();
        mark_blocked(map, pos.x, pos.y, false);
        world.add_component(e, ComponentValue::Position(Position::new(to.x, to.y)));
        world.mark_view_dirty(e);
        mark_blocked(map, to.x, to.y, true);
        proof {
            assert(world@.data =~= m.data.insert(e, ai_after(m.data[e], player_pos, step)));
            assert(world@ == m.updated(e, ai_after(m.data[e], player_pos, step)));
        }
    } else {
        proof {
            assert(m.updated(e, m.data[e]).data =~= m.data);
            assert(ai_after(m.data[e], player_pos, step) == m.data[e]);
        }
    }
    assert(commands@ =~= old(commands)@ + ai_cmds(m, player, player_pos, steps@, e));
}

/// What the monster turn does to the world, the map and the commands.
pub open spec fn ai_ran(
    w0: WorldModel,
    m0: GameMap,
    runstate: RunState,
    player: Entity,
    player_pos: Point,
    steps: Seq<PathStep>,
    c0: Seq<Command>,
    w1: WorldModel,
    m1: GameMap,
    c1: Seq<Command>,
) -> bool {
    &&& m1.tiles == m0.tiles
    &&& m1.width == m0.width
    &&& m1.height == m0.height
    &&& w1.entities == w0.entities
    &&& w1.next_id == w0.next_id
    &&& w1.data.dom() == w0.data.dom()
    &&& runstate != RunState::MonsterTurn ==> w1 == w0 && c1 == c0
    &&& runstate == RunState::MonsterTurn ==> {
        &&& forall|e: Entity| #[trigger] w0.alive(e) ==> exists|s: Option<Point>|
            (s == step_of(steps, e) || s is None) && w1.data[e] == ai_after(w0.data[e], player_pos, s)
        &&& c1 == c0 + concat_over(w0.entities, |e: Entity| ai_cmds(w0, player, player_pos, steps, e))
    }
}

/// During the monster turn, each monster either loses the turn to a
/// status that runs down by one, attacks the player when adjacent, or
/// takes its path step towards a player it can see. Outside the monster
/// turn nothing happens.
pub fn run(
    world: &mut World,
    map: &mut GameMap,
    runstate: RunState,
    player: Entity,
    player_pos: Point,
    steps: &Vec<PathStep>,
    commands: &mut CommandBuffer,
)
    requires
        old(world).wf(),
        old(map).wf(),
    ensures
        final(world).wf(),
        final(map).wf(),
        ai_ran(old(world)@, *old(map), runstate, player, player_pos, steps@, old(commands)@, final(world)@, *final(map), final(commands)@),
{
    if runstate != RunState::MonsterTurn {
        return;
    }
    let ghost m = world@;
    let ghost f = |e: Entity| ai_cmds(m, player, player_pos, steps@, e);
    proof {
        world.lemma_inv();
    }
    let es = world.entities();
    let mut i: usize = 0;
    while i < es.len()
        invariant
            world.wf(),
            map.wf(),
            map.tiles == old(map).tiles,
            map.width == old(map).width,
            map.height == old(map).height,
            m.inv(),
            es@ == m.entities,
            i <= es@.len(),
            world@.entities == m.entities,
            world@.next_id == m.next_id,
            world@.data.dom() == m.data.dom(),
            forall|x: Entity| #[trigger] m.alive(x) ==> if es@.take(i as int).contains(x) {
                exists|s: Option<Point>| (s == step_of(steps@, x) || s is None) && world@.data[x] == ai_after(m.data[x], player_pos, s)
            } else {
                world@.data[x] == m.data[x]
            },
            f == (|e: Entity| ai_cmds(m, player, player_pos, steps@, e)),
            commands@ == old(commands)@ + concat_over(es@.take(i as int), f),
        decreases es.len() - i,
    {
        let e = es[i];
        proof {
            lemma_take_step(es@, i as int);
            assert(m.entities.contains(e));
            assert(!es@.take(i as int).contains(e)) by {
                if es@.take(i as int).contains(e) {
                    let j = es@.take(i as int).index_of(e);
                    assert(es@[j] == es@[i as int]);
                }
            }
            assert(m.data.contains_key(e));
            assert(m.alive(e));
            assert(world@.data[e] == m.data[e]);
        }
        let ghost before = world@;
        act(world, map, player, player_pos, steps, e, commands);
        proof {
            assert(es@.take(i as int + 1) =~= es@.take(i as int).push(e));
            assert forall|x: Entity| #[trigger] m.alive(x) implies if es@.take(i as int + 1).contains(x) {
                exists|s: Option<Point>| (s == step_of(steps@, x) || s is None) && world@.data[x] == ai_after(m.data[x], player_pos, s)
            } else {
                world@.data[x] == m.data[x]
            } by {
                if x != e {
                    assert(es@.take(i as int + 1).contains(x) == es@.take(i as int).contains(x));
                    assert(world@.data[x] == before.data[x]);
                } else {
                    assert(es@.take(i as int + 1)[i as int] == e);
                }
            }
            assert(world@.data.dom() =~= m.data.dom());
            assert(commands@ =~= old(commands)@ + concat_over(es@.take(i as int + 1), f));
        }
        i = i + 1;
    }
    proof {
        assert(es@.take(i as int) =~= es@);
        assert forall|x: Entity| #[trigger] m.alive(x) implies es@.contains(x) by {}
    }
}

/// A confused monster loses its turn: its status runs down by exactly one,
/// it neither moves nor attacks, and the status is removed on the turn it
/// runs out (once the turn's commands are applied).
pub proof fn lemma_confusion_runs_down(
    m: WorldModel,
    player: Entity,
    player_pos: Point,
    steps: Seq<PathStep>,
    e: Entity,
    turns: i32,
    step: Option<Point>,
)
    requires
        is_monster(m.data[e]),
        m.data[e].confusion == Some(Confusion { turns }),
        turns > i32::MIN,
    ensures
        ai_after(m.data[e], player_pos, step).confusion == Some(
            Confusion { turns: (turns - 1) as i32 },
        ),
        ai_after(m.data[e], player_pos, step).position == m.data[e].position,
        ai_after(m.data[e], player_pos, step).viewshed == m.data[e].viewshed,
        turns - 1 < 1 ==> ai_cmds(m, player, player_pos, steps, e) == seq![
            Command::RemoveComponent(e, ComponentKind::Confusion),
        ],
        turns - 1 >= 1 ==> ai_cmds(m, player, player_pos, steps, e) == Seq::<Command>::empty(),
        turns - 1 < 1 ==> ai_after(m.data[e], player_pos, step).spec_without(
            ComponentKind::Confusion,
        ).confusion is None,
{
}

} // verus!
