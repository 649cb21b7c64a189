use vstd::prelude::*;
use crate::command::{Command, CommandBuffer};
use crate::components::{Point, Position, WantsToMelee};
use crate::entity::{Entity, EntityHolder};
use crate::map::{GameMap, TileType};
use crate::record::{ComponentValue, Components};
use crate::schedule::SystemId;
use crate::world::{view_dirtied, World, WorldModel};

verus! {

pub open spec fn clamp(v: int, lo: int, hi: int) -> int {
    if v < lo {
        lo
    } else if v > hi {
        hi
    } else {
        v
    }
}

/// The first entity with stats on tile `i`, if any.
pub open spec fn first_fighter(m: WorldModel, tile: Seq<Entity>) -> Option<Entity>
    decreases tile.len(),
{
    if tile.len() == 0 {
        None
    } else if m.alive(tile[0]) && m.data[tile[0]].combat_stats is Some {
        Some(tile[0])
    } else {
        first_fighter(m, tile.drop_first())
    }
}

pub fn build() -> (r: SystemId)
    ensures
        r == SystemId::PlayerMove,
{
    SystemId::PlayerMove
}

fn fighter_in(world: &World, tile: &Vec<Entity>) -> (r: Option<Entity>)
    requires
        world.wf(),
    ensures
        r == first_fighter(world@, tile@),
{
    let mut i: usize = 0;
    proof {
        assert(tile@.skip(0) =~= tile@);
    }
    while i < tile.len()
        invariant
            world.wf(),
            i <= tile@.len(),
            first_fighter(world@, tile@) == first_fighter(world@, tile@.skip(i as int)),
        decreases tile.len() - i,
    {
        proof {
            assert(tile@.skip(i as int)[0] == tile@[i as int]);
            assert(tile@.skip(i as int).drop_first() =~= tile@.skip(i as int + 1));
        }
        if let Some(c) = world.get(tile[i]) {
            if c.combat_stats.is_some() {
                return Some(tile[i]);
            }
        }
        i = i + 1;
    }
    None
}

/// What a player step does: bumping into an entity with stats records an
/// attack; otherwise the player moves unless a wall or the map's edge is in
/// the way, and its view is flagged.
pub open spec fn move_ran(
    w0: WorldModel,
    m: GameMap,
    player: Entity,
    dx: i32,
    dy: i32,
    c0: Seq<Command>,
    w1: WorldModel,
    c1: Seq<Command>,
    r: Option<Point>,
) -> bool {
    &&& w1.entities == w0.entities
    &&& w1.data.dom() == w0.data.dom()
    &&& (!w0.alive(player) || w0.data[player].position is None ==> w1 == w0 && c1 == c0 && r is None)
    &&& (w0.alive(player) && w0.data[player].position is Some ==> {
            let p = w0.data[player].position.unwrap();
            let x = p.x + dx;
            let y = p.y + dy;
            let inside = m.in_bounds(x, y);
            let tile = if inside {
                m.tile_content@[m.idx(x, y)]@
            } else {
                Seq::empty()
            };
            if inside && first_fighter(w0, tile) is Some {
                &&& w1 == w0
                &&& r is None
                &&& c1 == c0.push(
                    Command::AddComponent(
                        player,
                        ComponentValue::WantsToMelee(
                            WantsToMelee { target: EntityHolder::Live(first_fighter(w0, tile).unwrap()) },
                        ),
                    ),
                )
            } else {
                let moved = inside && m.tiles@[m.idx(x, y)] != TileType::Wall;
                let np = if moved {
                    Position { x: x as i32, y: y as i32 }
                } else {
                    p
                };
                &&& c1 == c0
                &&& r == Some(Point { x: np.x, y: np.y })
                &&& w1 == w0.updated(
                    player,
                    view_dirtied(Components { position: Some(np), ..w0.data[player] }),
                )
            }
        })
}

/// Moves the player by (dx, dy): bumping into an entity with stats records
/// an attack on it instead; walls stop the move; the position stays on the
/// map and the view is flagged for recomputation. Returns the player's
/// position afterwards.
pub fn run(
    world: &mut World,
    map: &GameMap,
    player: Entity,
    dx: i32,
    dy: i32,
    commands: &mut CommandBuffer,
) -> (r: Option<Point>)
    requires
        old(world).wf(),
        map.wf(),
        -1 <= dx <= 1,
        -1 <= dy <= 1,
    ensures
        final(world).wf(),
        move_ran(old(world)@, *map, player, dx, dy, old(commands)@, final(world)@, final(commands)@, r),
{
    let ghost m = world@;
    let c = match world.get(player) {
        Some(c) => c,
        None => return None,
    };
    let p = match c.position {
        Some(p) => p,
        None => return None,
    };
    let x = p.x as i64 + dx as i64;
    let y = p.y as i64 + dy as i64;
    let inside = 0 <= x && x < map.width as i64 && 0 <= y && y < map.height as i64;
    if inside {
        let idx = map.xy_idx(x as i32, y as i32);
        if let Some(target) = fighter_in(world, &map.tile_content[idx]) {
            commands.add_component(player, ComponentValue::WantsToMelee(WantsToMelee::new(target)));
            return None;
        }
    }
    let np = if inside && map.tiles[map.xy_idx(x as i32, y as i32)] != TileType::Wall {
        Position::new(x as i32, y as i32)
    } else {
        p
    };
    world.add_component(player, ComponentValue::Position(np));
    world.mark_view_dirty(player);
    proof {
        assert(world@.data =~= m.data.insert(
            player,
            view_dirtied(Components { position: Some(np), ..m.data[player] }),
        ));
        assert(world@.data.dom() =~= m.data.dom());
    }
    Some(Point::new(np.x, np.y))
}

} // verus!
