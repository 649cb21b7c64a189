use vstd::prelude::*;
use crate::command::{apply_all, Command, CommandBuffer};
use crate::damage_system::damage_cmds;
use crate::delete_the_dead_system::{player_died, reap_cmds, reap_log};
use crate::fold::concat_over;
use crate::get_item_system::{item_at, pickup_request};
use crate::inventory_system::{pickup_cmds, pickup_log};
use crate::item_drop_system::{drop_cmds, drop_log};
use crate::item_remove_system::unequip_cmds;
use crate::item_use_system::{use_cmds, use_log};
use crate::map_indexing_system::indexing_ran;
use crate::melee_combat_system::{attack_cmds, attack_log};
use crate::monster_ai_system::ai_ran;
use crate::move_system::move_ran;
use crate::visibility_system::visibility_ran;
use crate::components::{CombatStats, Point, Position, WantsToDropItem, WantsToRemoveItem, WantsToUseItem};
use crate::entity::{Entity, EntityHolder};
use crate::gamelog::{GameLog, LogEntry};
use crate::item_use_system::{content_at, healed_hp};
use crate::item_use_system::AreaOfUse;
use crate::map::{GameMap, TileType};
use crate::monster_ai_system::PathStep;
use crate::record::{ComponentValue, Components};
use crate::spawner::fresh_player;
use crate::schedule::{main_pipeline, Schedule, Schedules, SystemId};
use crate::state::{
    next_state, transition, Event, Intent, ItemMenuResult, MainMenuResult, MainMenuSelection, RunState,
    TargetResult,
};
use crate::visibility_system::FieldOfView;
use crate::world::{view_dirtied, World, WorldModel};

verus! {

broadcast use vstd::seq_lib::group_seq_properties;

/// What the outside collaborators computed for this tick: fields of view,
/// path steps, areas of effect, and the player's requested step.
pub struct Outside {
    pub fovs: Vec<FieldOfView>,
    pub steps: Vec<PathStep>,
    pub areas: Vec<AreaOfUse>,
    pub dx: i32,
    pub dy: i32,
}

/// The process-wide resources the systems share.
pub struct Resources {
    pub map: GameMap,
    pub log: GameLog,
    pub player: Entity,
    pub player_pos: Point,
    pub runstate: RunState,
}

/// The resources besides the log are as they were.
pub open spec fn same_but_log(r0: Resources, r1: Resources) -> bool {
    &&& r1.map == r0.map
    &&& r1.player == r0.player
    &&& r1.player_pos == r0.player_pos
    &&& r1.runstate == r0.runstate
}

/// The resources besides the map are as they were.
pub open spec fn same_but_map(r0: Resources, r1: Resources) -> bool {
    &&& r1.log == r0.log
    &&& r1.player == r0.player
    &&& r1.player_pos == r0.player_pos
    &&& r1.runstate == r0.runstate
}

/// What running system `id` once does, from world `w0` and resources `r0`
/// to `w1` and `r1`, recording `cs` into its own buffer.
pub open spec fn system_ran(
    id: SystemId,
    w0: WorldModel,
    r0: Resources,
    o: Outside,
    w1: WorldModel,
    r1: Resources,
    cs: Seq<Command>,
) -> bool {
    match id {
        SystemId::Visibility => visibility_ran(w0, r0.map, o.fovs@, w1, r1.map) && same_but_map(r0, r1)
            && cs.len() == 0,
        SystemId::MonsterAi => ai_ran(
            w0,
            r0.map,
            r0.runstate,
            r0.player,
            r0.player_pos,
            o.steps@,
            Seq::empty(),
            w1,
            r1.map,
            cs,
        ) && same_but_map(r0, r1),
        SystemId::MapIndexing => w1 == w0 && indexing_ran(w0, r0.map, r1.map) && same_but_map(r0, r1)
            && cs.len() == 0,
        SystemId::MeleeCombat => {
            &&& w1 == w0
            &&& same_but_log(r0, r1)
            &&& r1.log.entries@ == r0.log.entries@ + concat_over(w0.entities, |a: Entity| attack_log(w0, a))
            &&& cs == concat_over(w0.entities, |a: Entity| attack_cmds(w0, a))
        },
        SystemId::Damage => w1 == w0 && r1 == r0 && cs == damage_cmds(w0),
        SystemId::Inventory => {
            &&& w1 == w0
            &&& same_but_log(r0, r1)
            &&& r1.log.entries@ == r0.log.entries@ + concat_over(
                w0.entities,
                |e: Entity| pickup_log(w0, r0.player, e),
            )
            &&& cs == concat_over(w0.entities, |e: Entity| pickup_cmds(w0, e))
        },
        SystemId::ItemUse => {
            &&& w1 == w0
            &&& same_but_log(r0, r1)
            &&& r1.log.entries@ == r0.log.entries@ + concat_over(
                w0.entities,
                |u: Entity| use_log(w0, &r0.map, o.areas@, r0.player, u),
            )
            &&& cs == concat_over(w0.entities, |u: Entity| use_cmds(w0, &r0.map, o.areas@, r0.player, u))
        },
        SystemId::ItemDrop => {
            &&& w1 == w0
            &&& same_but_log(r0, r1)
            &&& r1.log.entries@ == r0.log.entries@ + concat_over(w0.entities, |e: Entity| drop_log(w0, r0.player, e))
            &&& cs == concat_over(w0.entities, |e: Entity| drop_cmds(w0, e))
        },
        SystemId::ItemRemove => w1 == w0 && r1 == r0 && cs == concat_over(
            w0.entities,
            |e: Entity| unequip_cmds(w0, e),
        ),
        SystemId::DeleteTheDead => {
            &&& w1 == w0
            &&& r1.map == r0.map
            &&& r1.player == r0.player
            &&& r1.player_pos == r0.player_pos
            &&& r1.runstate == (if player_died(w0) {
                RunState::GameOver
            } else {
                r0.runstate
            })
            &&& r1.log.entries@ == r0.log.entries@ + concat_over(w0.entities, |e: Entity| reap_log(w0, e))
            &&& cs == concat_over(w0.entities, |e: Entity| reap_cmds(w0, e))
        },
        SystemId::PlayerMove => if -1 <= o.dx <= 1 && -1 <= o.dy <= 1 {
            exists|p: Option<Point>|
                move_ran(w0, r0.map, r0.player, o.dx, o.dy, Seq::empty(), w1, cs, p) && r1 == (Resources {
                    player_pos: match p {
                        Some(q) => q,
                        None => r0.player_pos,
                    },
                    ..r0
                })
        } else {
            w1 == w0 && r1 == r0 && cs.len() == 0
        },
        SystemId::GetItem => {
            &&& w1 == w0
            &&& same_but_log(r0, r1)
            &&& if exists|i: int| 0 <= i < w0.entities.len() && item_at(w0, #[trigger] w0.entities[i], r0.player_pos) {
                exists|i: int|
                    0 <= i < w0.entities.len() && item_at(w0, w0.entities[i], r0.player_pos) && (forall|j: int|
                        i < j < w0.entities.len() ==> !item_at(w0, #[trigger] w0.entities[j], r0.player_pos))
                        && cs == seq![Command::Spawn(pickup_request(r0.player, w0.entities[i]))]
                        && r1.log.entries@ == r0.log.entries@
            } else {
                cs.len() == 0 && r1.log.entries@ == r0.log.entries@.push(LogEntry::NothingToPickUp)
            }
        },
    }
}

/// The commands of several buffers, one after the other.
pub open spec fn flatten(cs: Seq<Seq<Command>>) -> Seq<Command>
    decreases cs.len(),
{
    if cs.len() == 0 {
        Seq::empty()
    } else {
        flatten(cs.drop_last()) + cs.last()
    }
}

/// The systems of a group ran in order, each with its own buffer `cs[i]`,
/// before the group's flush.
pub open spec fn group_systems_ran(
    group: Seq<SystemId>,
    w0: WorldModel,
    r0: Resources,
    o: Outside,
    w1: WorldModel,
    r1: Resources,
    cs: Seq<Seq<Command>>,
) -> bool
    decreases group.len(),
{
    if group.len() == 0 {
        w1 == w0 && r1 == r0 && cs.len() == 0
    } else {
        &&& cs.len() == group.len()
        &&& exists|wm: WorldModel, rm: Resources|
            group_systems_ran(group.drop_last(), w0, r0, o, wm, rm, cs.drop_last()) && system_ran(
                group.last(),
                wm,
                rm,
                o,
                w1,
                r1,
                cs.last(),
            )
    }
}

/// A group ran and was flushed: its buffers were applied in group order,
/// each command once.
pub open spec fn group_ran(group: Seq<SystemId>, w0: WorldModel, r0: Resources, o: Outside, w1: WorldModel, r1: Resources) -> bool {
    exists|wn: WorldModel, cs: Seq<Seq<Command>>|
        group_systems_ran(group, w0, r0, o, wn, r1, cs) && wn.next_id + flatten(cs).len() < u64::MAX && w1
            == apply_all(wn, flatten(cs))
}

/// A group ran, but its flush would have run out of identities, so none
/// of its buffers was applied.
pub open spec fn group_stuck(group: Seq<SystemId>, w0: WorldModel, r0: Resources, o: Outside, w1: WorldModel, r1: Resources) -> bool {
    exists|cs: Seq<Seq<Command>>|
        group_systems_ran(group, w0, r0, o, w1, r1, cs) && w1.next_id + flatten(cs).len() >= u64::MAX
}

/// Every group of `gs` ran and was flushed, in order.
pub open spec fn schedule_ran(gs: Seq<Seq<SystemId>>, w0: WorldModel, r0: Resources, o: Outside, w1: WorldModel, r1: Resources) -> bool
    decreases gs.len(),
{
    if gs.len() == 0 {
        w1 == w0 && r1 == r0
    } else {
        exists|wm: WorldModel, rm: Resources|
            schedule_ran(gs.drop_last(), w0, r0, o, wm, rm) && group_ran(gs.last(), wm, rm, o, w1, r1)
    }
}

/// A schedule was executed: completely when `ok`; otherwise up to a group
/// whose flush would have run out of identities, and no further.
pub open spec fn executed(
    gs: Seq<Seq<SystemId>>,
    w0: WorldModel,
    r0: Resources,
    o: Outside,
    w1: WorldModel,
    r1: Resources,
    ok: bool,
) -> bool {
    if ok {
        schedule_ran(gs, w0, r0, o, w1, r1)
    } else {
        exists|k: int, wm: WorldModel, rm: Resources|
            0 <= k < gs.len() && schedule_ran(gs.take(k), w0, r0, o, wm, rm) && group_stuck(gs[k], wm, rm, o, w1, r1)
    }
}

proof fn lemma_flatten_prefix(cs: Seq<Seq<Command>>, k: int)
    requires
        0 <= k < cs.len(),
    ensures
        flatten(cs.take(k + 1)) == flatten(cs.take(k)) + cs[k],
        flatten(cs.take(k + 1)).len() <= flatten(cs).len(),
    decreases cs.len() - k,
{
    assert(cs.take(k + 1).drop_last() =~= cs.take(k));
    if k + 1 < cs.len() {
        lemma_flatten_prefix(cs, k + 1);
    } else {
        assert(cs.take(k + 1) =~= cs);
    }
}

/// Runs one system against the world, recording into `commands`.
fn run_system(
    id: SystemId,
    world: &mut World,
    res: &mut Resources,
    outside: &Outside,
    commands: &mut CommandBuffer,
)
    requires
        old(world).wf(),
        old(res).map.wf(),
        old(commands)@ == Seq::<Command>::empty(),
    ensures
        final(world).wf(),
        final(res).map.wf(),
        system_ran(id, old(world)@, *old(res), *outside, final(world)@, *final(res), final(commands)@),
{
    let ghost r0 = *res;
    match id {
        SystemId::Visibility => crate::visibility_system::run(world, &mut res.map, &outside.fovs),
        SystemId::MonsterAi => crate::monster_ai_system::run(
            world,
            &mut res.map,
            res.runstate,
            res.player,
            res.player_pos,
            &outside.steps,
            commands,
        ),
        SystemId::MapIndexing => crate::map_indexing_system::run(world, &mut res.map),
        SystemId::MeleeCombat => crate::melee_combat_system::run(world, &mut res.log, commands),
        SystemId::Damage => crate::damage_system::run(world, commands),
        SystemId::Inventory => crate::inventory_system::run(world, res.player, &mut res.log, commands),
        SystemId::ItemUse => crate::item_use_system::run(
            world,
            &res.map,
            &outside.areas,
            res.player,
            &mut res.log,
            commands,
        ),
        SystemId::ItemDrop => crate::item_drop_system::run(world, res.player, &mut res.log, commands),
        SystemId::ItemRemove => crate::item_remove_system::run(world, commands),
        SystemId::DeleteTheDead => crate::delete_the_dead_system::run(
            world,
            &mut res.log,
            &mut res.runstate,
            commands,
        ),
        SystemId::PlayerMove => {
            if -1 <= outside.dx && outside.dx <= 1 && -1 <= outside.dy && outside.dy <= 1 {
                let p = crate::move_system::run(world, &res.map, res.player, outside.dx, outside.dy, commands);
                if let Some(q) = p {
                    res.player_pos = q;
                }
                assert(*res == (Resources {
                    player_pos: match p {
                        Some(q) => q,
                        None => r0.player_pos,
                    },
                    ..r0
                }));
            }
        },
        SystemId::GetItem => crate::get_item_system::run(
            world,
            res.player,
            res.player_pos,
            &mut res.log,
            commands,
        ),
    }
}

/// Runs a schedule: within a group each system records into its own
/// buffer; at the group's flush every buffer is applied, in group order.
/// Returns false, stopping before a flush, when that flush would run out of
/// entity identities; a buffer is never applied in part.
pub fn execute(schedule: &Schedule, world: &mut World, res: &mut Resources, outside: &Outside) -> (r: bool)
    requires
        old(world).wf(),
        old(res).map.wf(),
    ensures
        final(world).wf(),
        final(res).map.wf(),
        executed(schedule.spec_groups(), old(world)@, *old(res), *outside, final(world)@, *final(res), r),
{
    let ghost gs = schedule.spec_groups();
    let ghost w0 = world@;
    let ghost r0 = *res;
    let mut g: usize = 0;
    proof {
        assert(gs.take(0) =~= Seq::<Seq<SystemId>>::empty());
    }
    while g < schedule.groups.len()
        invariant
            world.wf(),
            res.map.wf(),
            gs == schedule.spec_groups(),
            w0 == old(world)@,
            r0 == *old(res),
            g <= gs.len(),
            schedule_ran(gs.take(g as int), w0, r0, *outside, world@, *res),
        decreases schedule.groups.len() - g,
    {
        let ghost wg = world@;
        let ghost rg = *res;
        let systems = &schedule.groups[g];
        let ghost group = systems@;
        assert(group == gs[g as int]);
        let mut buffers: Vec<CommandBuffer> = Vec::new();
        let ghost mut cs: Seq<Seq<Command>> = Seq::empty();
        let mut s: usize = 0;
        proof {
            assert(group.take(0) =~= Seq::<SystemId>::empty());
        }
        while s < systems.len()
            invariant
                world.wf(),
                res.map.wf(),
                group == systems@,
                s <= group.len(),
                buffers@.len() == s,
                cs.len() == s,
                forall|j: int| 0 <= j < s ==> (#[trigger] buffers@[j])@ == cs[j],
                group_systems_ran(group.take(s as int), wg, rg, *outside, world@, *res, cs),
            decreases systems.len() - s,
        {
            let ghost wm = world@;
            let ghost rm = *res;
            let mut commands = CommandBuffer::new();
            run_system(systems[s], world, res, outside, &mut commands);
            let ghost c = commands@;
            buffers.push(commands);
            proof {
                let cs2 = cs.push(c);
                assert(group.take(s as int + 1).drop_last() =~= group.take(s as int));
                assert(group.take(s as int + 1).last() == group[s as int]);
                assert(cs2.drop_last() =~= cs);
                assert(cs2.last() == c);
                assert(cs2.len() == group.take(s as int + 1).len());
                assert(group_systems_ran(group.take(s as int), wg, rg, *outside, wm, rm, cs2.drop_last()));
                assert(system_ran(group.take(s as int + 1).last(), wm, rm, *outside, world@, *res, cs2.last()));
                assert(group_systems_ran(group.take(s as int + 1), wg, rg, *outside, world@, *res, cs2));
                cs = cs2;
            }
            s = s + 1;
        }
        proof {
            assert(group.take(s as int) =~= group);
        }
        let ghost wn = world@;
        let mut total: u128 = 0;
        let mut b: usize = 0;
        proof {
            assert(cs.take(0) =~= Seq::<Seq<Command>>::empty());
        }
        while b < buffers.len()
            invariant
                b <= buffers@.len(),
                buffers@.len() == cs.len(),
                forall|j: int| 0 <= j < cs.len() ==> (#[trigger] buffers@[j])@ == cs[j],
                total == flatten(cs.take(b as int)).len(),
                total <= b * 0x1_0000_0000_0000_0000,
            decreases buffers.len() - b,
        {
            proof {
                lemma_flatten_prefix(cs, b as int);
            }
            total = total + buffers[b].len() as u128;
            b = b + 1;
        }
        proof {
            assert(cs.take(b as int) =~= cs);
        }
        if (world.next_id() as u128) + total >= u64::MAX as u128 {
            proof {
                assert(group_stuck(gs[g as int], wg, rg, *outside, world@, *res));
                let k = g as int;
                assert(0 <= k < gs.len() && schedule_ran(gs.take(k), w0, r0, *outside, wg, rg) && group_stuck(
                    gs[k],
                    wg,
                    rg,
                    *outside,
                    world@,
                    *res,
                ));
                assert(executed(gs, w0, r0, *outside, world@, *res, false));
            }
            return false;
        }
        let mut b: usize = 0;
        while b < buffers.len()
            invariant
                world.wf(),
                b <= buffers@.len(),
                buffers@.len() == cs.len(),
                forall|j: int| b <= j < cs.len() ==> (#[trigger] buffers@[j])@ == cs[j],
                wn.next_id + flatten(cs).len() < u64::MAX,
                world@ == apply_all(wn, flatten(cs.take(b as int))),
            decreases buffers.len() - b,
        {
            proof {
                lemma_flatten_prefix(cs, b as int);
                crate::command::lemma_next_id_bound(wn, flatten(cs.take(b as int)));
                crate::command::lemma_flush_in_order(wn, flatten(cs.take(b as int)), cs[b as int]);
            }
            buffers[b].apply(world);
            b = b + 1;
        }
        proof {
            assert(cs.take(b as int) =~= cs);
            assert(group_ran(gs[g as int], wg, rg, *outside, world@, *res));
            assert(gs.take(g as int + 1).drop_last() =~= gs.take(g as int));
            assert(gs.take(g as int + 1).last() == gs[g as int]);
        }
        g = g + 1;
    }
    proof {
        assert(gs.take(g as int) =~= gs);
    }
    true
}

} // verus!

verus! {

/// Whether `e` survives a level change: the player, and what the player
/// carries or wears.
pub open spec fn kept_on_level_change(m: WorldModel, player: Entity, e: Entity) -> bool {
    ||| e == player
    ||| (m.data[e].in_backpack matches Some(b) && b.owner == EntityHolder::Live(player))
    ||| (m.data[e].equipped matches Some(q) && q.owner == EntityHolder::Live(player))
}

pub open spec fn doomed_pred(m: WorldModel, player: Entity) -> spec_fn(Entity) -> bool {
    |e: Entity| !kept_on_level_change(m, player, e)
}

/// Whether a monster stands on tile `p`.
pub open spec fn monster_at(m: WorldModel, map: &GameMap, p: Point) -> bool {
    exists|j: int|
        0 <= j < content_at(map, p).len() && m.alive(#[trigger] content_at(map, p)[j])
            && m.data[content_at(map, p)[j]].tags.monster
}

/// Whether a monster stands on one of `tiles`.
pub open spec fn sees_monster_among(m: WorldModel, map: &GameMap, tiles: Seq<Point>) -> bool
    decreases tiles.len(),
{
    if tiles.len() == 0 {
        false
    } else {
        sees_monster_among(m, map, tiles.drop_last()) || monster_at(m, map, tiles.last())
    }
}

/// The next phase after `s` with input `ev`, on world `w` and resources `r`.
pub open spec fn phase_after(s: RunState, ev: Event, w: WorldModel, r: Resources) -> RunState {
    next_state(
        s,
        ev,
        match ev {
            Event::ItemMenu(ItemMenuResult::Selected(item)) => range_of(w, item),
            _ => None,
        },
        on_stairs(&r.map, r.player_pos),
    )
}

/// `r` in phase `s`.
pub open spec fn with_phase(r: Resources, s: RunState) -> Resources {
    Resources { runstate: s, ..r }
}

/// The world after the player waits a turn.
pub open spec fn waited(w: WorldModel, map: &GameMap, player: Entity) -> WorldModel {
    if rests(w, map, player) {
        let c = w.data[player];
        w.updated(
            player,
            Components {
                combat_stats: Some(CombatStats { hp: healed_hp(c.combat_stats.unwrap(), 1) as i32, ..c.combat_stats.unwrap() }),
                ..c
            },
        )
    } else {
        w
    }
}

/// `w` with `v` attached to `e`.
pub open spec fn with_intent(w: WorldModel, e: Entity, v: ComponentValue) -> WorldModel {
    w.updated(e, w.data[e].spec_with(v))
}

/// What the phase `s` does with `ev` before the phase changes: the world
/// and resources it leaves (`w1`, `r1`) and the request it returns.
pub open spec fn tick_phase(
    s: RunState,
    ev: Event,
    w0: WorldModel,
    r0: Resources,
    o: Outside,
    w1: WorldModel,
    r1: Resources,
    req: Request,
) -> bool {
    let player = r0.player;
    match s {
        RunState::PreRun | RunState::PlayerTurn | RunState::MonsterTurn => req == Request::Nothing && exists|ok: bool|
            executed(main_pipeline(), w0, r0, o, w1, r1, ok),
        RunState::AwaitingInput => req == Request::Nothing && match ev {
            Event::Key(Some(Intent::Move { dx, dy })) => exists|o2: Outside, ok: bool|
                o2.dx == dx && o2.dy == dy && executed(seq![seq![SystemId::PlayerMove]], w0, r0, o2, w1, r1, ok),
            Event::Key(Some(Intent::PickUp)) => exists|ok: bool|
                executed(seq![seq![SystemId::GetItem]], w0, r0, o, w1, r1, ok),
            Event::Key(Some(Intent::Wait)) => w1 == waited(w0, &r0.map, player) && r1 == r0,
            Event::Key(Some(Intent::Descend)) => w1 == w0 && if on_stairs(&r0.map, r0.player_pos) {
                r1 == r0
            } else {
                same_but_log(r0, r1) && r1.log.entries@ == r0.log.entries@.push(LogEntry::NoWayDown)
            },
            _ => w1 == w0 && r1 == r0,
        },
        RunState::ShowInventory => req == Request::Nothing && r1 == r0 && w1 == match ev {
            Event::ItemMenu(ItemMenuResult::Selected(item)) => if range_of(w0, item) is None {
                with_intent(
                    w0,
                    player,
                    ComponentValue::WantsToUseItem(WantsToUseItem { item: EntityHolder::Live(item), target: None }),
                )
            } else {
                w0
            },
            _ => w0,
        },
        RunState::ShowDropItem => req == Request::Nothing && r1 == r0 && w1 == match ev {
            Event::ItemMenu(ItemMenuResult::Selected(item)) => with_intent(
                w0,
                player,
                ComponentValue::WantsToDropItem(WantsToDropItem { item: EntityHolder::Live(item) }),
            ),
            _ => w0,
        },
        RunState::ShowRemoveItem => req == Request::Nothing && r1 == r0 && w1 == match ev {
            Event::ItemMenu(ItemMenuResult::Selected(item)) => with_intent(
                w0,
                player,
                ComponentValue::WantsToRemoveItem(WantsToRemoveItem { item: EntityHolder::Live(item) }),
            ),
            _ => w0,
        },
        RunState::ShowTargeting { range: _, item } => req == Request::Nothing && r1 == r0 && w1 == match ev {
            Event::Target(TargetResult::Selected(x, y)) => with_intent(
                w0,
                player,
                ComponentValue::WantsToUseItem(
                    WantsToUseItem { item: EntityHolder::Live(item), target: Some(Point { x, y }) },
                ),
            ),
            _ => w0,
        },
        RunState::MainMenu { .. } => w1 == w0 && r1 == r0 && req == match ev {
            Event::MainMenu(MainMenuResult::Selected { selected: MainMenuSelection::LoadGame }) => Request::Load,
            Event::MainMenu(MainMenuResult::Selected { selected: MainMenuSelection::Quit }) => Request::Quit,
            _ => Request::Nothing,
        },
        RunState::SaveGame => w1 == w0 && r1 == r0 && req == Request::Save,
        RunState::NextLevel => w1 == w0 && r1 == r0 && req == Request::NewLevel,
        RunState::GameOver => w1 == w0 && r1 == r0 && req == if ev == Event::GameOver(true) {
            Request::Restart
        } else {
            Request::Nothing
        },
    }
}

/// Whether waiting heals the player: it has stats and no monster in view.
pub open spec fn rests(m: WorldModel, map: &GameMap, player: Entity) -> bool {
    &&& m.alive(player)
    &&& m.data[player].combat_stats is Some
    &&& !(m.data[player].viewshed is Some && sees_monster_among(
        m,
        map,
        m.data[player].viewshed.unwrap().visible_tiles@,
    ))
}

fn monster_on(world: &World, map: &GameMap, p: Point) -> (r: bool)
    requires
        world.wf(),
        map.wf(),
    ensures
        r == monster_at(world@, map, p),
{
    if !(0 <= p.x && p.x < map.width && 0 <= p.y && p.y < map.height) {
        return false;
    }
    let cell = &map.tile_content[map.xy_idx(p.x, p.y)];
    let mut j: usize = 0;
    while j < cell.len()
        invariant
            world.wf(),
            j <= cell@.len(),
            cell@ == content_at(map, p),
            forall|k: int| 0 <= k < j ==> !(world@.alive(#[trigger] cell@[k]) && world@.data[cell@[k]].tags.monster),
        decreases cell.len() - j,
    {
        if let Some(o) = world.get(cell[j]) {
            if o.tags.monster {
                return true;
            }
        }
        j = j + 1;
    }
    false
}

/// Half of `v`, rounded towards zero as integer division does.
pub open spec fn half(v: i32) -> i32 {
    if v >= 0 {
        (v / 2) as i32
    } else {
        (-((-v) / 2)) as i32
    }
}

/// Half of `v`, rounded towards zero.
pub fn halve(v: i32) -> (r: i32)
    ensures
        r == half(v),
{
    if v >= 0 {
        v / 2
    } else {
        let m = -(v as i64);
        (-(m / 2)) as i32
    }
}

/// Health after descending: at least half the maximum, never lowered.
pub open spec fn rested_hp(s: CombatStats) -> i32 {
    if s.hp < half(s.max_hp) {
        half(s.max_hp)
    } else {
        s.hp
    }
}

/// Descending never lowers health, and leaves at least half the maximum.
pub proof fn lemma_rest_never_lowers(s: CombatStats)
    ensures
        rested_hp(s) >= s.hp,
        rested_hp(s) >= half(s.max_hp),
        rested_hp(s) == s.hp || rested_hp(s) == half(s.max_hp),
{
}

/// The player's components on arrival at `(x, y)`.
pub open spec fn arrived(c: Components, x: i32, y: i32) -> Components {
    view_dirtied(
        Components {
            position: Some(Position { x, y }),
            combat_stats: match c.combat_stats {
                Some(s) => Some(CombatStats { hp: rested_hp(s), ..s }),
                None => None,
            },
            ..c
        },
    )
}

/// The entities a level change removes, in spawn order.
fn doomed_on_level_change(world: &World, player: Entity) -> (r: Vec<Entity>)
    requires
        world.wf(),
    ensures
        r@ == world@.entities.filter(doomed_pred(world@, player)),
{
    let ghost m = world@;
    let ghost pred = doomed_pred(m, player);
    proof {
        world.lemma_inv();
    }
    let es = world.entities();
    let mut out: Vec<Entity> = Vec::new();
    let mut i: usize = 0;
    while i < es.len()
        invariant
            world.wf(),
            m == world@,
            m.inv(),
            es@ == m.entities,
            i <= es@.len(),
            pred == doomed_pred(m, player),
            out@ == es@.take(i as int).filter(pred),
        decreases es.len() - i,
    {
        let e = es[i];
        proof {
            assert(m.entities.contains(e));
            assert(es@.take(i as int + 1) =~= es@.take(i as int).push(e));
            es@.take(i as int).lemma_filter_push(e, pred);
        }
        let c = world.get(e).unwrap();
        let carried = match c.in_backpack {
            Some(b) => b.owner == EntityHolder::Live(player),
            None => false,
        };
        let worn = match c.equipped {
            Some(q) => q.owner == EntityHolder::Live(player),
            None => false,
        };
        if !(e == player || carried || worn) {
            out.push(e);
        }
        i = i + 1;
    }
    proof {
        assert(es@.take(i as int) =~= es@);
    }
    out
}

/// Deletes every entity in `doomed`.
pub fn delete_all(world: &mut World, doomed: &Vec<Entity>)
    requires
        old(world).wf(),
    ensures
        final(world).wf(),
        final(world)@.next_id == old(world)@.next_id,
        forall|e: Entity| #[trigger] final(world)@.alive(e) <==> old(world)@.alive(e) && !doomed@.contains(e),
        forall|e: Entity| #[trigger] final(world)@.alive(e) ==> final(world)@.data[e] == old(world)@.data[e],
{
    let ghost m = world@;
    let mut i: usize = 0;
    while i < doomed.len()
        invariant
            world.wf(),
            i <= doomed@.len(),
            world@.next_id == m.next_id,
            forall|e: Entity| #[trigger] world@.alive(e) <==> m.alive(e) && !doomed@.take(i as int).contains(e),
            forall|e: Entity| #[trigger] world@.alive(e) ==> world@.data[e] == m.data[e],
        decreases doomed.len() - i,
    {
        let d = doomed[i];
        let ghost before = world@;
        world.delete(d);
        proof {
            let s0 = doomed@.take(i as int);
            let s1 = doomed@.take(i as int + 1);
            assert(s1 =~= s0.push(d));
            assert forall|e: Entity| #[trigger] world@.alive(e) <==> m.alive(e) && !s1.contains(e) by {
                assert(before.alive(e) <==> m.alive(e) && !s0.contains(e));
                if s1.contains(e) {
                    let j = s1.index_of(e);
                    if j < s0.len() {
                        assert(s0[j] == e);
                    }
                }
                if s0.contains(e) {
                    let j = s0.index_of(e);
                    assert(s1[j] == e);
                }
                if e == d {
                    assert(s1[s0.len() as int] == d);
                }
            }
            assert forall|e: Entity| #[trigger] world@.alive(e) implies world@.data[e] == m.data[e] by {
                assert(before.alive(e));
            }
        }
        i = i + 1;
    }
    proof {
        assert(doomed@.take(i as int) =~= doomed@);
    }
}

/// Moves the player to `(x, y)`, flags its view, and lets it rest to at
/// least half its maximum health.
fn arrive(world: &mut World, player: Entity, x: i32, y: i32)
    requires
        old(world).wf(),
    ensures
        final(world).wf(),
        final(world)@ == old(world)@.updated(player, arrived(old(world)@.data[player], x, y)),
{
    let ghost m = world@;
    if let Some(c) = world.get(player) {
        let stats = c.combat_stats;
        world.add_component(player, ComponentValue::Position(Position::new(x, y)));
        if let Some(s) = stats {
            let h = halve(s.max_hp);
            let hp = if s.hp < h {
                h
            } else {
                s.hp
            };
            world.add_component(player, ComponentValue::CombatStats(CombatStats { hp, ..s }));
        }
        world.mark_view_dirty(player);
        proof {
            assert(world@.data =~= m.data.insert(player, arrived(m.data[player], x, y)));
        }
    }
}

/// The whole game state: the world, its resources, and its schedules.
pub struct State {
    pub world: World,
    pub res: Resources,
    pub schedules: Schedules,
}

impl State {
    pub open spec fn wf(&self) -> bool {
        &&& self.world.wf()
        &&& self.res.map.wf()
        &&& self.schedules.main.spec_groups() == main_pipeline()
        &&& self.schedules.delete_the_dead.spec_groups() == seq![seq![SystemId::DeleteTheDead]]
        &&& self.schedules.player.player_move.spec_groups() == seq![seq![SystemId::PlayerMove]]
        &&& self.schedules.player.get_item.spec_groups() == seq![seq![SystemId::GetItem]]
    }

    /// The entities a level change removes: all but the player and what it
    /// carries or wears, in spawn order.
    pub fn entities_to_remove_on_level_change(&self) -> (r: Vec<Entity>)
        requires
            self.world.wf(),
        ensures
            r@ == self.world@.entities.filter(doomed_pred(self.world@, self.res.player)),
    {
        doomed_on_level_change(&self.world, self.res.player)
    }

    /// Moves the player by one step, or attacks what stands there: runs
    /// the player-move schedule once.
    pub fn try_move_player(&mut self, dx: i32, dy: i32) -> (r: bool)
        requires
            old(self).wf(),
        ensures
            final(self).wf(),
            final(self).schedules == old(self).schedules,
            exists|o: Outside|
                o.dx == dx && o.dy == dy && executed(
                    seq![seq![SystemId::PlayerMove]],
                    old(self).world@,
                    old(self).res,
                    o,
                    final(self).world@,
                    final(self).res,
                    r,
                ),
    {
        let step = Outside { fovs: Vec::new(), steps: Vec::new(), areas: Vec::new(), dx, dy };
        execute(&self.schedules.player.player_move, &mut self.world, &mut self.res, &step)
    }

    /// Asks for the pickup of an item at the player's position: runs the
    /// pick-up schedule once.
    pub fn get_item(&mut self, outside: &Outside) -> (r: bool)
        requires
            old(self).wf(),
        ensures
            final(self).wf(),
            final(self).schedules == old(self).schedules,
            executed(
                seq![seq![SystemId::GetItem]],
                old(self).world@,
                old(self).res,
                *outside,
                final(self).world@,
                final(self).res,
                r,
            ),
    {
        execute(&self.schedules.player.get_item, &mut self.world, &mut self.res, outside)
    }

    /// Runs the turn-resolution pipeline once.
    pub fn run_systems(&mut self, outside: &Outside) -> (r: bool)
        requires
            old(self).wf(),
        ensures
            final(self).wf(),
            final(self).schedules == old(self).schedules,
            executed(main_pipeline(), old(self).world@, old(self).res, *outside, final(self).world@, final(self).res, r),
    {
        execute(&self.schedules.main, &mut self.world, &mut self.res, outside)
    }

    /// Descends to `new_map`: every entity but the player and what it
    /// carries or wears is removed; the player keeps its components, moves
    /// to the centre of the first room and rests to at least half its
    /// maximum health.
    pub fn goto_next_level(&mut self, new_map: GameMap)
        requires
            old(self).wf(),
            startable(&new_map),
            new_map.depth == old(self).res.map.depth + 1,
        ensures
            final(self).res.map.depth == old(self).res.map.depth + 1,
            final(self).wf(),
            final(self).res.map == new_map,
            final(self).res.player == old(self).res.player,
            final(self).res.log.entries@ == old(self).res.log.entries@.push(LogEntry::Descended),
            forall|e: Entity| #[trigger] final(self).world@.alive(e) ==> old(self).world@.alive(e),
            forall|e: Entity| #[trigger] old(self).world@.alive(e) ==> (final(self).world@.alive(e)
                <==> kept_on_level_change(old(self).world@, old(self).res.player, e)),
            forall|e: Entity| #[trigger] final(self).world@.alive(e) && e != old(self).res.player
                ==> final(self).world@.data[e] == old(self).world@.data[e],
            old(self).world@.alive(old(self).res.player) ==> final(self).world@.data[old(self).res.player]
                == arrived(
                old(self).world@.data[old(self).res.player],
                final(self).res.player_pos.x,
                final(self).res.player_pos.y,
            ),
            final(self).res.player_pos.x == (new_map.rooms@[0].x1 + new_map.rooms@[0].x2) / 2,
            final(self).res.player_pos.y == (new_map.rooms@[0].y1 + new_map.rooms@[0].y2) / 2,
    {
        let player = self.res.player;
        let ghost m = self.world@;
        let doomed = self.entities_to_remove_on_level_change();
        proof {
            self.world.lemma_inv();
            assert forall|e: Entity| m.alive(e) implies (doomed@.contains(e) <==> !kept_on_level_change(m, player, e)) by {
                assert(m.entities.contains(e));
                if doomed@.contains(e) {
                    let j = doomed@.index_of(e);
                    m.entities.lemma_filter_pred(doomed_pred(m, player), j);
                }
                if !kept_on_level_change(m, player, e) {
                    let j = m.entities.index_of(e);
                    m.entities.lemma_filter_contains(doomed_pred(m, player), j);
                }
            }
        }
        delete_all(&mut self.world, &doomed);
        let ghost mid = self.world@;
        let (x, y) = new_map.rooms[0].center();
        self.res.map = new_map;
        self.res.player_pos = Point::new(x, y);
        self.res.log.push(LogEntry::Descended);
        arrive(&mut self.world, player, x, y);
        proof {
            assert forall|e: Entity| #[trigger] self.world@.alive(e) implies m.alive(e) by {
                assert(mid.alive(e));
            }
            assert forall|e: Entity| #[trigger] m.alive(e) implies (self.world@.alive(e)
                <==> kept_on_level_change(m, player, e)) by {
                assert(mid.alive(e) <==> m.alive(e) && !doomed@.contains(e));
                assert(self.world@.alive(e) <==> mid.alive(e));
            }
            assert forall|e: Entity| #[trigger] self.world@.alive(e) && e != player implies self.world@.data[e]
                == m.data[e] by {
                assert(mid.alive(e));
            }
        }
    }
}

/// Work a tick leaves to the outside: file I/O, level generation, exit.
#[derive(Clone, Copy, Debug, PartialEq, Eq, Structural)]
pub enum Request {
    Nothing,
    /// Write a snapshot (see `save_system::save`).
    Save,
    /// Read the snapshot and load it (see `State::load`).
    Load,
    Quit,
    /// Generate the next level and descend (see `State::goto_next_level`).
    NewLevel,
    /// Generate a first level and start over (see `State::game_over_cleanup`).
    Restart,
}

/// Whether the tile at `p` is a way down.
pub open spec fn on_stairs(map: &GameMap, p: Point) -> bool {
    map.in_bounds(p.x as int, p.y as int) && map.tiles@[map.idx(p.x as int, p.y as int)] == TileType::DownStairs
}

/// The range of an item used at a distance.
pub open spec fn range_of(m: WorldModel, item: Entity) -> Option<i32> {
    if m.alive(item) && m.data[item].ranged is Some {
        Some(m.data[item].ranged.unwrap().range)
    } else {
        None
    }
}

fn stairs_under(map: &GameMap, p: Point) -> (r: bool)
    requires
        map.wf(),
    ensures
        r == on_stairs(map, p),
{
    if 0 <= p.x && p.x < map.width && 0 <= p.y && p.y < map.height {
        map.tiles[map.xy_idx(p.x, p.y)] == TileType::DownStairs
    } else {
        false
    }
}

fn item_range(world: &World, item: Entity) -> (r: Option<i32>)
    requires
        world.wf(),
    ensures
        r == range_of(world@, item),
{
    match world.get(item) {
        Some(c) => match c.ranged {
            Some(rg) => Some(rg.range),
            None => None,
        },
        None => None,
    }
}

impl State {
    /// Whether the player may descend; narrates when there is no way down.
    pub fn try_next_level(&mut self) -> (r: bool)
        requires
            old(self).wf(),
        ensures
            final(self).wf(),
            final(self).world == old(self).world,
            r == on_stairs(&old(self).res.map, old(self).res.player_pos),
            r ==> final(self).res.log.entries@ == old(self).res.log.entries@,
            !r ==> final(self).res.log.entries@ == old(self).res.log.entries@.push(LogEntry::NoWayDown),
    {
        let r = stairs_under(&self.res.map, self.res.player_pos);
        if !r {
            self.res.log.push(LogEntry::NoWayDown);
        }
        r
    }

    /// Waits a turn: the player recovers one point of health, up to its
    /// maximum, unless it sees a monster.
    pub fn skip_turn(&mut self) -> (r: RunState)
        requires
            old(self).wf(),
        ensures
            final(self).wf(),
            r == RunState::PlayerTurn,
            final(self).res == old(self).res,
            final(self).world@ == waited(old(self).world@, &old(self).res.map, old(self).res.player),
            final(self).schedules == old(self).schedules,
    {
        let player = self.res.player;
        let ghost m = self.world@;
        let mut can_heal = true;
        if let Some(c) = self.world.get(player) {
            if let Some(v) = &c.viewshed {
                let ghost tiles = v.visible_tiles@;
                let mut i: usize = 0;
                while i < v.visible_tiles.len()
                    invariant
                        self.world.wf(),
                        self.res.map.wf(),
                        self.world@ == m,
                        tiles == v.visible_tiles@,
                        i <= tiles.len(),
                        can_heal == !sees_monster_among(m, &self.res.map, tiles.take(i as int)),
                    decreases v.visible_tiles.len() - i,
                {
                    let t = v.visible_tiles[i];
                    proof {
                        assert(tiles.take(i as int + 1).drop_last() =~= tiles.take(i as int));
                        assert(tiles.take(i as int + 1).last() == t);
                    }
                    let found = monster_on(&self.world, &self.res.map, t);
                    if found {
                        can_heal = false;
                    }
                    i = i + 1;
                }
                proof {
                    assert(tiles.take(i as int) =~= tiles);
                }
            }
            if can_heal {
                if let Some(s) = c.combat_stats {
                    let healed = crate::item_use_system::heal(s, 1);
                    self.world.add_component(player, ComponentValue::CombatStats(healed));
                }
            }
        }
        RunState::PlayerTurn
    }

    /// Runs one tick: acts on the current phase and the classified input,
    /// moves to the next phase, and lets the dead be removed. What only the
    /// outside can do comes back as a request.
    pub fn tick(&mut self, event: Event, outside: &Outside) -> (r: Request)
        requires
            old(self).wf(),
        ensures
            final(self).wf(),
            final(self).schedules == old(self).schedules,
            exists|w1: WorldModel, r1: Resources, ok: bool|
                #[trigger] tick_phase(old(self).res.runstate, event, old(self).world@, old(self).res, *outside, w1, r1, r)
                    && #[trigger] executed(
                    seq![seq![SystemId::DeleteTheDead]],
                    w1,
                    with_phase(r1, phase_after(old(self).res.runstate, event, old(self).world@, old(self).res)),
                    *outside,
                    final(self).world@,
                    final(self).res,
                    ok,
                ),
    {
        let ghost w0 = self.world@;
        let ghost r0 = self.res;
        let state = self.res.runstate;
        let player = self.res.player;
        let ranged = match event {
            Event::ItemMenu(ItemMenuResult::Selected(item)) => item_range(&self.world, item),
            _ => None,
        };
        let stairs = stairs_under(&self.res.map, self.res.player_pos);
        let next = transition(state, event, ranged, stairs);
        let mut request = Request::Nothing;
        match state {
            RunState::PreRun | RunState::PlayerTurn | RunState::MonsterTurn => {
                let ok = self.run_systems(outside);
                proof {
                    assert(executed(main_pipeline(), w0, r0, *outside, self.world@, self.res, ok));
                }
            },
            RunState::AwaitingInput => {
                if let Event::Key(Some(intent)) = event {
                    match intent {
                        Intent::Move { dx, dy } => {
                            let ok = self.try_move_player(dx, dy);
                        },
                        Intent::PickUp => {
                            let ok = self.get_item(outside);
                            proof {
                                assert(executed(seq![seq![SystemId::GetItem]], w0, r0, *outside, self.world@, self.res, ok));
                            }
                        },
                        Intent::Wait => {
                            self.skip_turn();
                        },
                        Intent::Descend => {
                            if !stairs {
                                self.res.log.push(LogEntry::NoWayDown);
                            }
                        },
                        _ => {},
                    }
                }
            },
            RunState::ShowInventory => {
                if let Event::ItemMenu(ItemMenuResult::Selected(item)) = event {
                    if ranged.is_none() {
                        self.world.add_component(
                            player,
                            ComponentValue::WantsToUseItem(WantsToUseItem::new(item, None)),
                        );
                    }
                }
            },
            RunState::ShowDropItem => {
                if let Event::ItemMenu(ItemMenuResult::Selected(item)) = event {
                    self.world.add_component(player, ComponentValue::WantsToDropItem(WantsToDropItem::new(item)));
                }
            },
            RunState::ShowRemoveItem => {
                if let Event::ItemMenu(ItemMenuResult::Selected(item)) = event {
                    self.world.add_component(
                        player,
                        ComponentValue::WantsToRemoveItem(WantsToRemoveItem::new(item)),
                    );
                }
            },
            RunState::ShowTargeting { range: _, item } => {
                if let Event::Target(TargetResult::Selected(x, y)) = event {
                    self.world.add_component(
                        player,
                        ComponentValue::WantsToUseItem(WantsToUseItem::new(item, Some(Point::new(x, y)))),
                    );
                }
            },
            RunState::MainMenu { .. } => {
                if let Event::MainMenu(MainMenuResult::Selected { selected }) = event {
                    match selected {
                        MainMenuSelection::LoadGame => request = Request::Load,
                        MainMenuSelection::Quit => request = Request::Quit,
                        MainMenuSelection::NewGame => {},
                    }
                }
            },
            RunState::SaveGame => request = Request::Save,
            RunState::NextLevel => request = Request::NewLevel,
            RunState::GameOver => {
                if let Event::GameOver(true) = event {
                    request = Request::Restart;
                }
            },
        }
        let ghost w1 = self.world@;
        let ghost r1 = self.res;
        proof {
            assert(tick_phase(state, event, w0, r0, *outside, w1, r1, request));
        }
        proof {
            assert(next == phase_after(state, event, w0, r0));
        }
        self.res.runstate = next;
        proof {
            assert(self.res == with_phase(r1, next));
        }
        let ok = execute(&self.schedules.delete_the_dead, &mut self.world, &mut self.res, outside);
        proof {
            assert(executed(
                seq![seq![SystemId::DeleteTheDead]],
                w1,
                with_phase(r1, phase_after(state, event, w0, r0)),
                *outside,
                self.world@,
                self.res,
                ok,
            ));
        }
        request
    }
}

/// Whether every room of `map` has its corners in order, off the negative
/// coordinates.
pub open spec fn rooms_fit(map: &GameMap) -> bool {
    forall|i: int|
        0 <= i < map.rooms@.len() ==> 0 <= (#[trigger] map.rooms@[i]).x1 < map.rooms@[i].x2 < map.width && 0
            <= map.rooms@[i].y1 < map.rooms@[i].y2 < map.height
}

/// Fills every room but the first with spawns for `depth`. A room is left
/// empty only once entity identities would run out.
fn populate_rooms(world: &mut World, map: &GameMap, depth: i32, rng: &mut rltk::RandomNumberGenerator)
    requires
        old(world).wf(),
        rooms_fit(map),
        1 <= depth <= crate::spawner::MAX_DEPTH,
    ensures
        final(world).wf(),
        forall|e: Entity| #[trigger] old(world)@.alive(e) ==> final(world)@.alive(e) && final(world)@.data[e]
            == old(world)@.data[e],
        forall|e: Entity| #[trigger] final(world)@.alive(e) ==> old(world)@.alive(e) || e.id >= old(world)@.next_id,
        forall|e: Entity| #[trigger] final(world)@.alive(e) && !old(world)@.alive(e) ==> final(world)@.data[e].player is None,
{
    let ghost m = world@;
    let mut i: usize = 1;
    while i < map.rooms.len()
        invariant
            world.wf(),
            rooms_fit(map),
            1 <= depth <= crate::spawner::MAX_DEPTH,
            forall|e: Entity| #[trigger] m.alive(e) ==> world@.alive(e) && world@.data[e] == m.data[e],
            world@.next_id >= m.next_id,
            forall|e: Entity| #[trigger] world@.alive(e) ==> m.alive(e) || e.id >= m.next_id,
            forall|e: Entity| #[trigger] world@.alive(e) && !m.alive(e) ==> world@.data[e].player is None,
        decreases map.rooms.len() - i,
    {
        let room = map.rooms[i];
        proof {
            assert(map.rooms@[i as int] == room);
        }
        if (world.next_id() as u128) + (depth as u128) + 10 < u64::MAX as u128 {
            let ghost before = world@;
            crate::spawner::spawn_room(world, &room, depth, rng);
            proof {
                assert forall|e: Entity| #[trigger] m.alive(e) implies world@.alive(e) && world@.data[e]
                    == m.data[e] by {
                    assert(before.alive(e));
                }
                assert forall|e: Entity| #[trigger] world@.alive(e) implies m.alive(e) || e.id >= m.next_id by {
                    if before.alive(e) {
                    } else {
                        assert(e.id >= before.next_id);
                    }
                }
                assert forall|e: Entity| #[trigger] world@.alive(e) && !m.alive(e) implies world@.data[e].player is None by {
                    if before.alive(e) {
                        assert(!m.alive(e));
                    }
                }
            }
        }
        i = i + 1;
    }
}

/// Whether the first room of `map` can host the player.
pub open spec fn startable(map: &GameMap) -> bool {
    &&& map.wf()
    &&& rooms_fit(map)
    &&& 1 <= map.depth <= crate::spawner::MAX_DEPTH
    &&& map.rooms@.len() > 0
    &&& 0 <= map.rooms@[0].x1
    &&& 0 <= map.rooms@[0].x2
    &&& 0 <= map.rooms@[0].y1
    &&& 0 <= map.rooms@[0].y2
}

/// Whether `map` is well formed.
pub fn map_fits(map: &GameMap) -> (r: bool)
    ensures
        r == map.wf(),
{
    if map.width <= 0 || map.height <= 0 {
        return false;
    }
    let w = map.width as i64;
    let h = map.height as i64;
    proof {
        assert(0 < w * h <= 0x4000_0000_0000_0000) by (nonlinear_arith)
            requires
                0 < w <= 0x8000_0000,
                0 < h <= 0x8000_0000,
        ;
    }
    let size = w * h;
    if size > i32::MAX as i64 {
        return false;
    }
    let n = size as usize;
    map.tiles.len() == n && map.revealed_tiles.len() == n && map.visible_tiles.len() == n
        && map.blocked.len() == n && map.tile_content.len() == n
}

/// Whether the first room of `map` can host the player.
pub fn map_startable(map: &GameMap) -> (r: bool)
    ensures
        r == startable(map),
{
    if !(map_fits(map) && map.rooms.len() > 0 && 1 <= map.depth && map.depth <= crate::spawner::MAX_DEPTH) {
        return false;
    }
    let mut i: usize = 0;
    while i < map.rooms.len()
        invariant
            i <= map.rooms@.len(),
            forall|j: int|
                0 <= j < i ==> 0 <= (#[trigger] map.rooms@[j]).x1 < map.rooms@[j].x2 < map.width && 0
                    <= map.rooms@[j].y1 < map.rooms@[j].y2 < map.height,
        decreases map.rooms.len() - i,
    {
        let r = map.rooms[i];
        if !(0 <= r.x1 && r.x1 < r.x2 && r.x2 < map.width && 0 <= r.y1 && r.y1 < r.y2 && r.y2 < map.height) {
            return false;
        }
        i = i + 1;
    }
    true
}

impl State {
    /// Fills every room of the current level but the first with spawns for
    /// its depth; what exists stays as it is.
    pub fn populate_level(&mut self, rng: &mut rltk::RandomNumberGenerator)
        requires
            old(self).wf(),
            startable(&old(self).res.map),
        ensures
            final(self).wf(),
            forall|e: Entity| #[trigger] old(self).world@.alive(e) ==> final(self).world@.alive(e)
                && final(self).world@.data[e] == old(self).world@.data[e],
    {
        let depth = self.res.map.depth;
        populate_rooms(&mut self.world, &self.res.map, depth, rng);
    }

    /// A new game on `map`: the rooms are filled, the player starts in
    /// the centre of the first room with one of every item at its feet, and
    /// the main menu is shown.
    pub fn new_game(map: GameMap, rng: &mut rltk::RandomNumberGenerator) -> (r: State)
        requires
            startable(&map),
        ensures
            r.wf(),
            r.res.runstate == (RunState::MainMenu { menu_selection: MainMenuSelection::NewGame }),
            r.world@.alive(r.res.player),
            r.world@.data[r.res.player].player is Some,
    {
        let mut world = World::new();
        let (x, y) = map.rooms[0].center();
        let player = crate::spawner::player(&mut world, x, y);
        let ghost w1 = world@;
        crate::spawner::debug_all_item(&mut world, x, y);
        let ghost w2 = world@;
        populate_rooms(&mut world, &map, 1, rng);
        proof {
            assert(w1.alive(player));
            assert(w2.alive(player));
        }
        State {
            world,
            res: Resources {
                map,
                log: GameLog::new(),
                player,
                player_pos: Point::new(x, y),
                runstate: RunState::MainMenu { menu_selection: MainMenuSelection::NewGame },
            },
            schedules: crate::schedule::build_schedules(),
        }
    }

    /// A snapshot of the persisted entities and the map.
    pub fn save(&self) -> (r: crate::save_system::SaveData)
        requires
            self.wf(),
        ensures
            crate::save_system::map_copied(&r.map, &self.res.map),
            r.entities@.len() == crate::save_system::persisted(self.world@).len(),
            forall|i: int|
                0 <= i < r.entities@.len() ==> (#[trigger] r.entities@[i]).key
                    == crate::save_system::persisted(self.world@)[i].id && crate::snapshot::equiv(
                    r.entities@[i].components,
                    crate::snapshot::map_holders(
                        self.world@.data[crate::save_system::persisted(self.world@)[i]],
                        crate::snapshot::store_fn(),
                    ),
                ),
    {
        crate::save_system::save(&self.world, &self.res.map)
    }

    /// Loads a snapshot: replaces the persisted entities and the map, and
    /// finds the player again by its marker and position. A corrupt
    /// snapshot (a malformed map, a key given twice, a reference to an
    /// unknown key) changes nothing.
    pub fn load(&mut self, sd: crate::save_system::SaveData) -> (r: Result<(), crate::entity::LoadError>)
        requires
            old(self).wf(),
            old(self).world@.next_id + crate::save_system::persisted(old(self).world@).len()
                + sd.entities@.len() < u64::MAX,
        ensures
            final(self).wf(),
            r is Err ==> final(self).world@ == old(self).world@ && final(self).res == old(self).res,
            r matches Err(e) ==> (e is MalformedMap <==> !sd.map.wf()),
            r is Ok <==> sd.map.wf() && crate::load_system::keys_unique(sd.entities@)
                && crate::load_system::refs_resolve(
                sd.entities@,
                crate::load_system::key_map(sd.entities@, old(self).world@.next_id),
            ),
            r is Ok ==> final(self).world@ == crate::command::apply_all(
                old(self).world@,
                crate::load_system::load_cmds(old(self).world@, sd.entities@),
            ),
            r is Ok ==> {
                let map = final(self).res.map;
                &&& map.tiles@ == sd.map.tiles@
                &&& map.rooms@ == sd.map.rooms@
                &&& map.width == sd.map.width
                &&& map.height == sd.map.height
                &&& map.depth == sd.map.depth
                &&& map.revealed_tiles@ == sd.map.revealed_tiles@
                &&& map.visible_tiles@ == sd.map.visible_tiles@
                &&& map.blocked@ == sd.map.blocked@
                &&& forall|i: int| 0 <= i < map.tile_content@.len() ==> (#[trigger] map.tile_content@[i])@.len() == 0
            },
            r is Ok ==> final(self).res.log == old(self).res.log && final(self).res.runstate == old(
                self,
            ).res.runstate,
            r is Ok ==> ({
                let w = final(self).world@;
                let p = final(self).res.player;
                let pos = final(self).res.player_pos;
                ||| w.alive(p) && w.data[p].player is Some && w.data[p].position == Some(
                    Position { x: pos.x, y: pos.y },
                )
                ||| (p == old(self).res.player && pos == old(self).res.player_pos && forall|e: Entity|
                    #[trigger] w.alive(e) ==> w.data[e].player is None || w.data[e].position is None)
            }),
    {
        if !map_fits(&sd.map) {
            return Err(crate::entity::LoadError::MalformedMap);
        }
        let loaded = crate::load_system::load_components(&mut self.world, sd);
        match loaded {
            Ok(map) => {
                self.res.map = map;
                if let Some((e, p)) = crate::load_system::write_player_resource(&self.world) {
                    self.res.player = e;
                    self.res.player_pos = p;
                }
                Ok(())
            },
            Err(e) => Err(e),
        }
    }

    /// Starts over after the player's death: every named entity and every
    /// player goes, a fresh player starts in the centre of the new map's
    /// first room as the only player, and the other rooms are filled.
    pub fn game_over_cleanup(&mut self, new_map: GameMap, rng: &mut rltk::RandomNumberGenerator)
        requires
            old(self).wf(),
            startable(&new_map),
            old(self).world@.next_id < u64::MAX,
        ensures
            final(self).wf(),
            final(self).res.map == new_map,
            forall|e: Entity| #[trigger] old(self).world@.alive(e) && (old(self).world@.data[e].name is Some
                || old(self).world@.data[e].player is Some) ==> !final(self).world@.alive(e),
            final(self).world@.alive(final(self).res.player),
            fresh_player(final(self).world@.data[final(self).res.player], final(self).res.player_pos.x, final(self).res.player_pos.y),
            forall|e: Entity| #[trigger] final(self).world@.alive(e) && final(self).world@.data[e].player is Some
                ==> e == final(self).res.player,
            final(self).res.player_pos.x == (new_map.rooms@[0].x1 + new_map.rooms@[0].x2) / 2,
            final(self).res.player_pos.y == (new_map.rooms@[0].y1 + new_map.rooms@[0].y2) / 2,
    {
        let ghost m = self.world@;
        proof {
            self.world.lemma_inv();
        }
        let es = self.world.entities();
        let mut doomed: Vec<Entity> = Vec::new();
        let mut i: usize = 0;
        while i < es.len()
            invariant
                self.world.wf(),
                self.world@ == m,
                m.inv(),
                es@ == m.entities,
                i <= es@.len(),
                forall|j: int|
                    0 <= j < i && ((#[trigger] m.data[es@[j]]).name is Some || m.data[es@[j]].player is Some)
                        ==> doomed@.contains(es@[j]),
            decreases es.len() - i,
        {
            let ghost before = doomed@;
            if let Some(c) = self.world.get(es[i]) {
                if c.name.is_some() || c.player.is_some() {
                    doomed.push(es[i]);
                }
            }
            proof {
                assert forall|j: int|
                    0 <= j < i + 1 && ((#[trigger] m.data[es@[j]]).name is Some || m.data[es@[j]].player is Some)
                        implies doomed@.contains(es@[j]) by {
                    if j < i {
                        let k = before.index_of(es@[j]);
                        assert(doomed@[k] == es@[j]);
                    } else {
                        assert(m.entities.contains(es@[j]));
                        assert(doomed@[doomed@.len() - 1] == es@[j]);
                    }
                }
            }
            i = i + 1;
        }
        delete_all(&mut self.world, &doomed);
        proof {
            assert forall|e: Entity| #[trigger] m.alive(e) && (m.data[e].name is Some || m.data[e].player is Some)
                implies doomed@.contains(e) by {
                assert(m.entities.contains(e));
                let j = m.entities.index_of(e);
                assert(es@[j] == e);
            }
        }
        let ghost cleared = self.world@;
        let (x, y) = new_map.rooms[0].center();
        let p = crate::spawner::player(&mut self.world, x, y);
        self.res.player = p;
        self.res.player_pos = Point::new(x, y);
        let ghost with_player = self.world@;
        populate_rooms(&mut self.world, &new_map, 1, rng);
        self.res.map = new_map;
        proof {
            assert(with_player.alive(p));
            assert forall|e: Entity| #[trigger] m.alive(e) && (m.data[e].name is Some || m.data[e].player is Some)
                implies !self.world@.alive(e) by {
                assert(!cleared.alive(e));
                assert(e.id < m.next_id);
                assert(!with_player.alive(e));
            }
            assert forall|e: Entity| #[trigger] self.world@.alive(e) && self.world@.data[e].player is Some implies e == p by {
                if with_player.alive(e) {
                    if e != p {
                        assert(cleared.alive(e));
                        assert(m.alive(e));
                    }
                }
            }
        }
    }
}

} // verus!
