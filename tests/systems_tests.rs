use roguelike::command::CommandBuffer;
use roguelike::components::{
    BlocksTile, CombatStats, InBackpack, Name, Point, Position, Viewshed, WantsToDropItem,
    WantsToPickupItem, WantsToRemoveItem, Equipped, EquipmentSlot,
};
use roguelike::game::{Outside, Request, Resources, State};
use roguelike::gamelog::{GameLog, LogEntry};
use roguelike::map::{GameMap, Rect, TileType};
use roguelike::record::{ComponentValue, Components};
use roguelike::schedule::{build_schedules, schedule, SystemId};
use roguelike::spawner::player_components;
use roguelike::state::{Event, Intent, RunState};
use roguelike::visibility_system::{retain_tiles, FieldOfView};
use roguelike::world::World;
use roguelike::{
    get_item_system, inventory_system, item_drop_system, item_remove_system, map_indexing_system,
    visibility_system,
};

fn grid(w: i32, h: i32) -> GameMap {
    let n = (w * h) as usize;
    GameMap {
        tiles: vec![TileType::Floor; n],
        rooms: vec![Rect::new(2, 2, 4, 4)],
        width: w,
        height: h,
        revealed_tiles: vec![false; n],
        visible_tiles: vec![false; n],
        blocked: vec![false; n],
        depth: 1,
        tile_content: vec![Vec::new(); n],
    }
}

fn item(name: &str, x: i32, y: i32) -> Components {
    let mut c = Components::empty();
    c.name = Some(Name::new(name));
    c.position = Some(Position::new(x, y));
    c.tags.item = true;
    c
}

#[test]
fn pickup_moves_the_item_into_the_backpack() {
    let mut w = World::new();
    let player = w.spawn(player_components(1, 1));
    let potion = w.spawn(item("Health Potion", 1, 1));
    let mut log = GameLog::new();
    let mut buf = CommandBuffer::new();
    get_item_system::run(&w, player, Point::new(1, 1), &mut log, &mut buf);
    buf.apply(&mut w);
    let mut buf = CommandBuffer::new();
    inventory_system::run(&w, player, &mut log, &mut buf);
    buf.apply(&mut w);
    let p = w.get(potion).unwrap();
    assert!(p.position.is_none());
    assert_eq!(p.in_backpack, Some(InBackpack::new(player)));
    assert_eq!(w.entities(), vec![player, potion]);
    assert!(matches!(log.entries.last(), Some(LogEntry::PickedUp { item }) if item == "Health Potion"));
}

#[test]
fn nothing_to_pick_up_is_narrated() {
    let mut w = World::new();
    let player = w.spawn(player_components(1, 1));
    let _far = w.spawn(item("Dagger", 5, 5));
    let mut log = GameLog::new();
    let mut buf = CommandBuffer::new();
    get_item_system::run(&w, player, Point::new(1, 1), &mut log, &mut buf);
    assert_eq!(buf.len(), 0);
    assert!(matches!(log.entries.last(), Some(LogEntry::NothingToPickUp)));
}

#[test]
fn dropping_puts_the_item_at_the_dropper() {
    let mut w = World::new();
    let player = w.spawn(player_components(4, 7));
    let mut c = Components::empty();
    c.name = Some(Name::new("Shield"));
    c.in_backpack = Some(InBackpack::new(player));
    let shield = w.spawn(c);
    w.add_component(player, ComponentValue::WantsToDropItem(WantsToDropItem::new(shield)));
    let mut log = GameLog::new();
    let mut buf = CommandBuffer::new();
    item_drop_system::run(&w, player, &mut log, &mut buf);
    buf.apply(&mut w);
    let s = w.get(shield).unwrap();
    assert_eq!(s.position, Some(Position::new(4, 7)));
    assert!(s.in_backpack.is_none());
    assert!(w.get(player).unwrap().wants_to_drop_item.is_none());
    assert!(matches!(log.entries.last(), Some(LogEntry::Dropped { .. })));
}

#[test]
fn removing_moves_worn_item_to_backpack() {
    let mut w = World::new();
    let player = w.spawn(player_components(4, 7));
    let mut c = Components::empty();
    c.equipped = Some(Equipped::new(player, EquipmentSlot::Shield));
    let shield = w.spawn(c);
    w.add_component(player, ComponentValue::WantsToRemoveItem(WantsToRemoveItem::new(shield)));
    let mut buf = CommandBuffer::new();
    item_remove_system::run(&w, &mut buf);
    buf.apply(&mut w);
    let s = w.get(shield).unwrap();
    assert!(s.equipped.is_none());
    assert_eq!(s.in_backpack, Some(InBackpack::new(player)));
    assert!(w.get(player).unwrap().wants_to_remove_item.is_none());
}

#[test]
fn indexing_lists_occupants_and_blockers() {
    let mut w = World::new();
    let mut c = item("Rock", 2, 3);
    c.blocks_tile = Some(BlocksTile::new());
    let rock = w.spawn(c);
    let coin = w.spawn(item("Coin", 2, 3));
    let mut map = grid(10, 10);
    let wall = map.xy_idx(0, 0);
    map.tiles[wall] = TileType::Wall;
    map_indexing_system::run(&w, &mut map);
    let idx = map.xy_idx(2, 3);
    assert_eq!(map.tile_content[idx], vec![rock, coin]);
    assert!(map.blocked[idx]);
    assert!(map.blocked[wall]);
    assert!(!map.blocked[map.xy_idx(5, 5)]);
}

#[test]
fn visibility_keeps_inner_tiles_and_shows_the_player_view() {
    let mut w = World::new();
    let player = w.spawn(player_components(3, 3));
    let mut map = grid(10, 10);
    let fov = vec![Point::new(3, 3), Point::new(0, 3), Point::new(4, 4), Point::new(9, 9)];
    let fovs = vec![FieldOfView { entity: player, tiles: fov }];
    visibility_system::run(&mut w, &mut map, &fovs);
    let v = w.get(player).unwrap().viewshed.as_ref().unwrap().clone();
    assert_eq!(v.visible_tiles, vec![Point::new(3, 3), Point::new(4, 4)]);
    assert!(!v.dirty);
    assert!(map.visible_tiles[map.xy_idx(4, 4)]);
    assert!(map.revealed_tiles[map.xy_idx(3, 3)]);
    assert!(!map.visible_tiles[map.xy_idx(5, 5)]);
}

#[test]
fn retain_drops_border_tiles() {
    let map = grid(5, 5);
    let kept = retain_tiles(&map, &vec![Point::new(0, 0), Point::new(1, 1), Point::new(3, 3), Point::new(4, 2)]);
    assert_eq!(kept, vec![Point::new(1, 1), Point::new(3, 3)]);
}

#[test]
fn schedules_group_systems_between_flushes() {
    let s = build_schedules();
    assert_eq!(s.main.groups.len(), 8);
    assert_eq!(s.main.groups[0], vec![SystemId::Visibility, SystemId::MonsterAi]);
    assert_eq!(s.main.groups[7], vec![SystemId::ItemRemove]);
    assert_eq!(schedule(SystemId::GetItem).groups, vec![vec![SystemId::GetItem]]);
}

fn state(map: GameMap) -> State {
    let mut world = World::new();
    let player = world.spawn(player_components(3, 3));
    State {
        world,
        res: Resources { map, log: GameLog::new(), player, player_pos: Point::new(3, 3), runstate: RunState::AwaitingInput },
        schedules: build_schedules(),
    }
}

#[test]
fn waiting_heals_only_without_monsters_in_view() {
    let mut st = state(grid(10, 10));
    let p = st.res.player;
    st.world.add_component(p, ComponentValue::CombatStats(CombatStats::new(30, 20, 2, 5)));
    st.world.add_component(p, ComponentValue::Viewshed(Viewshed::new(vec![Point::new(4, 4)], 8, false)));
    st.skip_turn();
    assert_eq!(st.world.get(p).unwrap().combat_stats.unwrap().hp, 21);
    let mut m = Components::empty();
    m.tags.monster = true;
    let orc = st.world.spawn(m);
    let idx = st.res.map.xy_idx(4, 4);
    st.res.map.tile_content[idx] = vec![orc];
    st.skip_turn();
    assert_eq!(st.world.get(p).unwrap().combat_stats.unwrap().hp, 21);
}

#[test]
fn save_key_asks_the_outside_to_save() {
    let mut st = state(grid(10, 10));
    let outside = Outside { fovs: Vec::new(), steps: Vec::new(), areas: Vec::new(), dx: 0, dy: 0 };
    assert_eq!(st.tick(Event::Key(Some(Intent::Save)), &outside), Request::Nothing);
    assert_eq!(st.res.runstate, RunState::SaveGame);
    assert_eq!(st.tick(Event::Key(None), &outside), Request::Save);
}

#[test]
fn new_game_places_the_player_in_the_first_room() {
    let mut rng = rltk::RandomNumberGenerator::seeded(3);
    let mut map = grid(40, 40);
    map.rooms = vec![Rect::new(2, 2, 4, 4), Rect::new(20, 20, 5, 5)];
    let st = State::new_game(map, &mut rng);
    assert_eq!(st.res.player_pos, Point::new(4, 4));
    let p = st.world.get(st.res.player).unwrap();
    assert_eq!(p.position, Some(Position::new(4, 4)));
    assert!(p.player.is_some());
    assert!(st.world.entities().len() > 9);
}

#[test]
fn restart_clears_named_entities() {
    let mut rng = rltk::RandomNumberGenerator::seeded(5);
    let mut st = state(grid(10, 10));
    let old_player = st.res.player;
    let mut other = Components::empty();
    other.name = Some(Name::new("Orc"));
    let orc = st.world.spawn(other);
    let mut map = grid(20, 20);
    map.rooms = vec![Rect::new(5, 5, 4, 4)];
    st.game_over_cleanup(map, &mut rng);
    assert!(!st.world.is_alive(old_player));
    assert!(!st.world.is_alive(orc));
    assert!(st.world.is_alive(st.res.player));
    assert_eq!(st.res.player_pos, Point::new(7, 7));
}

#[test]
fn pickup_request_names_collector_and_item() {
    let mut w = World::new();
    let player = w.spawn(player_components(1, 1));
    let potion = w.spawn(item("Potion", 1, 1));
    let mut buf = CommandBuffer::new();
    get_item_system::run(&w, player, Point::new(1, 1), &mut GameLog::new(), &mut buf);
    buf.apply(&mut w);
    let req = w.entities()[2];
    assert_eq!(w.get(req).unwrap().wants_to_pickup_item, Some(WantsToPickupItem::new(player, potion)));
}

#[test]
fn render_list_draws_low_orders_last() {
    let mut w = World::new();
    let player = w.spawn(player_components(1, 1));
    let mut it = item("Potion", 1, 1);
    it.renderable = Some(roguelike::components::Renderable {
        glyph: 33,
        fg: roguelike::components::Rgb { r: 1, g: 2, b: 3 },
        bg: roguelike::components::Rgb { r: 0, g: 0, b: 0 },
        render_order: 2,
    });
    let potion = w.spawn(it);
    let _hidden = w.spawn(item("Unseen", 2, 2));
    let list = roguelike::render::render_list(&w);
    assert_eq!(list.len(), 2);
    assert_eq!(list[0].entity, potion);
    assert_eq!(list[1].entity, player);
}

#[test]
fn outside_requests_list_what_the_turn_needs() {
    let mut w = World::new();
    let player = w.spawn(player_components(2, 2));
    let mut m = item("Goblin", 5, 5);
    m.tags.item = false;
    m.tags.monster = true;
    m.viewshed = Some(Viewshed::new(Vec::new(), 8, false));
    let goblin = w.spawn(m);
    let mut s = Components::empty();
    s.area_of_effect = Some(roguelike::components::AreaOfEffect::new(3));
    let scroll = w.spawn(s);
    w.add_component(
        player,
        ComponentValue::WantsToUseItem(roguelike::components::WantsToUseItem::new(scroll, Some(Point::new(7, 7)))),
    );
    let asked = roguelike::requests::outside_requests(&w);
    assert_eq!(asked.views.len(), 1);
    assert_eq!(asked.views[0].entity, player);
    assert_eq!(asked.views[0].range, 8);
    assert_eq!(asked.paths.len(), 1);
    assert_eq!(asked.paths[0].entity, goblin);
    assert_eq!(asked.areas.len(), 1);
    assert_eq!(asked.areas[0].at, Point::new(7, 7));
    assert_eq!(asked.areas[0].radius, 3);
}

#[test]
fn a_monster_does_not_step_onto_a_blocked_tile() {
    let mut w = World::new();
    let player = w.spawn(player_components(5, 5));
    let mut m = item("Goblin", 5, 9);
    m.tags.item = false;
    m.tags.monster = true;
    m.viewshed = Some(Viewshed::new(vec![Point::new(5, 5)], 8, false));
    let goblin = w.spawn(m);
    let mut map = grid(20, 20);
    let idx = map.xy_idx(5, 8);
    map.blocked[idx] = true;
    let steps = vec![roguelike::monster_ai_system::PathStep { entity: goblin, to: Point::new(5, 8) }];
    let mut buf = CommandBuffer::new();
    roguelike::monster_ai_system::run(&mut w, &mut map, RunState::MonsterTurn, player, Point::new(5, 5), &steps, &mut buf);
    assert_eq!(w.get(goblin).unwrap().position, Some(Position::new(5, 9)));
}
