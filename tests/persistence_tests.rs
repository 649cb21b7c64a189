use roguelike::components::{
    CombatStats, EquipmentSlot, Equipped, InBackpack, Name, Point, Position, Viewshed, WantsToMelee,
};
use roguelike::entity::{EntityHolder, LoadError};
use roguelike::game::{map_fits, Outside, Request, Resources, State};
use roguelike::gamelog::{GameLog, LogEntry};
use roguelike::load_system::{load_components, write_player_resource};
use roguelike::map::{GameMap, Rect, TileType};
use roguelike::record::Components;
use roguelike::save_system::{save, SaveData, SavedEntity};
use roguelike::schedule::build_schedules;
use roguelike::spawner::{player_components, room_table, pick_entry, spawn_room, Spawnable};
use roguelike::state::{transition, Event, Intent, ItemMenuResult, MainMenuResult, MainMenuSelection, RunState};
use roguelike::world::World;

fn grid(w: i32, h: i32) -> GameMap {
    let n = (w * h) as usize;
    GameMap {
        tiles: vec![TileType::Floor; n],
        rooms: vec![Rect::new(2, 2, 4, 4), Rect::new(10, 10, 4, 4)],
        width: w,
        height: h,
        revealed_tiles: vec![false; n],
        visible_tiles: vec![false; n],
        blocked: vec![false; n],
        depth: 1,
        tile_content: vec![Vec::new(); n],
    }
}

fn persisted(name: &str) -> Components {
    let mut c = Components::empty();
    c.name = Some(Name::new(name));
    c.tags.serialize_me = true;
    c
}

#[test]
fn save_then_load_keeps_components_and_relationships() {
    let mut w = World::new();
    let mut pc = persisted("Player");
    pc.player = Some(roguelike::components::Player::new());
    pc.position = Some(Position::new(3, 4));
    pc.combat_stats = Some(CombatStats::new(30, 20, 2, 5));
    pc.viewshed = Some(Viewshed::new(vec![Point::new(3, 3)], 8, false));
    let player = w.spawn(pc);
    let mut sword = persisted("Dagger");
    sword.equipped = Some(Equipped::new(player, EquipmentSlot::Melee));
    sword.tags.item = true;
    let sword = w.spawn(sword);
    let mut potion = persisted("Health Potion");
    potion.in_backpack = Some(InBackpack::new(player));
    let potion = w.spawn(potion);
    let transient = w.spawn(Components::empty());
    let map = grid(20, 20);
    let snapshot = save(&w, &map);
    assert_eq!(snapshot.entities.len(), 3);
    assert_eq!(snapshot.entities[1].key, sword.id);
    assert_eq!(
        snapshot.entities[1].components.equipped.unwrap().owner,
        EntityHolder::Pending(player.id)
    );

    let before = w.next_id();
    let loaded = load_components(&mut w, snapshot).unwrap();
    assert_eq!(loaded.width, 20);
    assert!(!w.is_alive(player));
    assert!(!w.is_alive(sword));
    assert!(!w.is_alive(potion));
    assert!(w.is_alive(transient));
    let ents = w.entities();
    assert_eq!(ents.len(), 4);
    let new_player = ents[1];
    let new_sword = ents[2];
    let new_potion = ents[3];
    assert_eq!(new_player.id, before);
    let p = w.get(new_player).unwrap();
    assert_eq!(p.name.as_ref().unwrap().name, "Player");
    assert_eq!(p.combat_stats, Some(CombatStats::new(30, 20, 2, 5)));
    assert_eq!(p.viewshed.as_ref().unwrap().visible_tiles, vec![Point::new(3, 3)]);
    assert!(p.tags.serialize_me);
    let s = w.get(new_sword).unwrap();
    assert_eq!(s.equipped, Some(Equipped::new(new_player, EquipmentSlot::Melee)));
    assert!(s.tags.item);
    assert_eq!(w.get(new_potion).unwrap().in_backpack, Some(InBackpack::new(new_player)));
    assert_eq!(write_player_resource(&w), Some((new_player, Point::new(3, 4))));
}

#[test]
fn load_rejects_a_reference_to_an_unknown_key() {
    let mut w = World::new();
    let keep = w.spawn(persisted("Old"));
    let mut c = persisted("Orc");
    c.wants_to_melee = Some(WantsToMelee { target: EntityHolder::Pending(99) });
    let sd = SaveData { map: grid(5, 5), entities: vec![SavedEntity { key: 1, components: c }] };
    assert_eq!(load_components(&mut w, sd).err(), Some(LoadError::UnresolvedKey(99)));
    assert!(w.is_alive(keep));
    assert_eq!(w.entities().len(), 1);
}

#[test]
fn load_rejects_a_repeated_key() {
    let mut w = World::new();
    let sd = SaveData {
        map: grid(5, 5),
        entities: vec![
            SavedEntity { key: 4, components: persisted("a") },
            SavedEntity { key: 4, components: persisted("b") },
        ],
    };
    assert_eq!(load_components(&mut w, sd).err(), Some(LoadError::DuplicateKey(4)));
    assert!(w.entities().is_empty());
}

fn state_with_player(map: GameMap) -> State {
    let mut world = World::new();
    let player = world.spawn(player_components(3, 3));
    State {
        world,
        res: Resources {
            map,
            log: GameLog::new(),
            player,
            player_pos: Point::new(3, 3),
            runstate: RunState::AwaitingInput,
        },
        schedules: build_schedules(),
    }
}

#[test]
fn descending_keeps_only_the_player_and_its_belongings() {
    let mut st = state_with_player(grid(20, 20));
    let player = st.res.player;
    st.world.add_component(
        player,
        roguelike::record::ComponentValue::CombatStats(CombatStats::new(30, 10, 2, 5)),
    );
    let mut carried = persisted("Potion");
    carried.in_backpack = Some(InBackpack::new(player));
    let carried = st.world.spawn(carried);
    let mut worn = persisted("Shield");
    worn.equipped = Some(Equipped::new(player, EquipmentSlot::Shield));
    let worn = st.world.spawn(worn);
    let mut lying = persisted("Dagger");
    lying.position = Some(Position::new(5, 5));
    let lying = st.world.spawn(lying);
    let monster = st.world.spawn(persisted("Orc"));
    assert_eq!(st.entities_to_remove_on_level_change(), vec![lying, monster]);
    let mut next = grid(30, 30);
    next.depth = 2;
    st.goto_next_level(next);
    assert!(st.world.is_alive(player));
    assert!(st.world.is_alive(carried));
    assert!(st.world.is_alive(worn));
    assert!(!st.world.is_alive(lying));
    assert!(!st.world.is_alive(monster));
    let p = st.world.get(player).unwrap();
    assert_eq!(p.position, Some(Position::new(4, 4)));
    assert_eq!(p.combat_stats.unwrap().hp, 15);
    assert_eq!(p.name.as_ref().unwrap().name, "Player");
    assert!(p.viewshed.as_ref().unwrap().dirty);
    assert_eq!(st.res.player_pos, Point::new(4, 4));
    assert_eq!(st.res.map.width, 30);
    assert_eq!(st.res.map.depth, 2);
    assert!(matches!(st.res.log.entries.last(), Some(LogEntry::Descended)));
}

#[test]
fn descending_never_lowers_health() {
    let mut st = state_with_player(grid(20, 20));
    let mut next = grid(20, 20);
    next.depth = 2;
    st.goto_next_level(next);
    assert_eq!(st.world.get(st.res.player).unwrap().combat_stats.unwrap().hp, 30);
}

#[test]
fn no_way_down_is_narrated() {
    let mut st = state_with_player(grid(20, 20));
    assert!(!st.try_next_level());
    assert!(matches!(st.res.log.entries.last(), Some(LogEntry::NoWayDown)));
    let idx = st.res.map.xy_idx(3, 3);
    st.res.map.tiles[idx] = TileType::DownStairs;
    assert!(st.try_next_level());
}

#[test]
fn turn_phases_follow_the_table() {
    let key = |i: Intent| Event::Key(Some(i));
    assert_eq!(transition(RunState::PreRun, Event::Key(None), None, false), RunState::AwaitingInput);
    assert_eq!(transition(RunState::PlayerTurn, Event::Key(None), None, false), RunState::MonsterTurn);
    assert_eq!(transition(RunState::MonsterTurn, Event::Key(None), None, false), RunState::AwaitingInput);
    assert_eq!(transition(RunState::AwaitingInput, Event::Key(None), None, false), RunState::AwaitingInput);
    assert_eq!(transition(RunState::AwaitingInput, key(Intent::Unknown), None, false), RunState::AwaitingInput);
    assert_eq!(transition(RunState::AwaitingInput, key(Intent::Move { dx: 1, dy: 0 }), None, false), RunState::PlayerTurn);
    assert_eq!(transition(RunState::AwaitingInput, key(Intent::Descend), None, true), RunState::NextLevel);
    assert_eq!(transition(RunState::AwaitingInput, key(Intent::Descend), None, false), RunState::PlayerTurn);
    assert_eq!(transition(RunState::AwaitingInput, key(Intent::Save), None, false), RunState::SaveGame);
    let item = roguelike::entity::Entity { id: 3 };
    let picked = Event::ItemMenu(ItemMenuResult::Selected(item));
    assert_eq!(transition(RunState::ShowInventory, picked, Some(6), false), RunState::ShowTargeting { range: 6, item });
    assert_eq!(transition(RunState::ShowInventory, picked, None, false), RunState::PlayerTurn);
    assert_eq!(
        transition(RunState::ShowInventory, Event::ItemMenu(ItemMenuResult::Cancel), None, false),
        RunState::AwaitingInput
    );
    assert_eq!(
        transition(RunState::ShowDropItem, Event::ItemMenu(ItemMenuResult::NoResponse), None, false),
        RunState::ShowDropItem
    );
    assert_eq!(
        transition(RunState::SaveGame, Event::Key(None), None, false),
        RunState::MainMenu { menu_selection: MainMenuSelection::LoadGame }
    );
    let new_game = Event::MainMenu(MainMenuResult::Selected { selected: MainMenuSelection::NewGame });
    assert_eq!(transition(RunState::MainMenu { menu_selection: MainMenuSelection::NewGame }, new_game, None, false), RunState::PreRun);
    assert_eq!(transition(RunState::GameOver, Event::GameOver(false), None, false), RunState::GameOver);
    assert_eq!(
        transition(RunState::GameOver, Event::GameOver(true), None, false),
        RunState::MainMenu { menu_selection: MainMenuSelection::NewGame }
    );
}

#[test]
fn tick_moves_the_player_and_passes_the_turn() {
    let mut st = state_with_player(grid(20, 20));
    let outside = Outside { fovs: Vec::new(), steps: Vec::new(), areas: Vec::new(), dx: 0, dy: 0 };
    let r = st.tick(Event::Key(Some(Intent::Move { dx: 1, dy: 0 })), &outside);
    assert_eq!(r, Request::Nothing);
    assert_eq!(st.res.runstate, RunState::PlayerTurn);
    assert_eq!(st.res.player_pos, Point::new(4, 3));
    assert_eq!(st.world.get(st.res.player).unwrap().position, Some(Position::new(4, 3)));
    let r = st.tick(Event::Key(None), &outside);
    assert_eq!(r, Request::Nothing);
    assert_eq!(st.res.runstate, RunState::MonsterTurn);
}

#[test]
fn player_glyph_comes_from_the_code_page() {
    let c = player_components(1, 1);
    assert_eq!(c.renderable.unwrap().glyph, 64);
}

#[test]
fn room_spawns_land_inside_the_room() {
    let mut w = World::new();
    let mut rng = rltk::RandomNumberGenerator::seeded(7);
    let room = Rect::new(10, 10, 5, 5);
    spawn_room(&mut w, &room, 1, &mut rng);
    let ents = w.entities();
    assert!(!ents.is_empty());
    for e in ents {
        let p = w.get(e).unwrap().position.unwrap();
        assert!(p.x > 10 && p.x <= 15 && p.y > 10 && p.y <= 15);
        assert!(w.get(e).unwrap().tags.serialize_me);
    }
}

#[test]
fn spawn_table_picks_by_weight() {
    let t = room_table(1);
    assert_eq!(pick_entry(&t, 0), Some(Spawnable::Goblin));
    assert_eq!(pick_entry(&t, 9), Some(Spawnable::Goblin));
    assert_eq!(pick_entry(&t, 10), Some(Spawnable::Orc));
    assert_eq!(pick_entry(&t, 1000), None);
}

#[test]
fn map_shape_is_checked() {
    assert!(map_fits(&grid(4, 3)));
    let mut bad = grid(4, 3);
    bad.blocked.pop();
    assert!(!map_fits(&bad));
}

#[test]
fn descending_restores_half_of_a_negative_maximum() {
    let mut st = state_with_player(grid(20, 20));
    let p = st.res.player;
    st.world.add_component(p, roguelike::record::ComponentValue::CombatStats(CombatStats::new(-4, -10, 2, 5)));
    let mut next = grid(20, 20);
    next.depth = 2;
    st.goto_next_level(next);
    assert_eq!(st.world.get(p).unwrap().combat_stats.unwrap().hp, -2);
}

#[test]
fn a_malformed_snapshot_map_changes_nothing() {
    let mut st = state_with_player(grid(20, 20));
    let before = st.world.entities();
    let mut bad = grid(5, 5);
    bad.blocked.pop();
    let sd = SaveData { map: bad, entities: vec![SavedEntity { key: 1, components: persisted("x") }] };
    assert_eq!(st.load(sd), Err(LoadError::MalformedMap));
    assert_eq!(st.world.entities(), before);
    assert_eq!(st.res.map.width, 20);
}

#[test]
fn loading_finds_the_player_again() {
    let mut st = state_with_player(grid(20, 20));
    let snapshot = save(&st.world, &st.res.map);
    assert!(st.load(snapshot).is_ok());
    let p = st.res.player;
    assert!(st.world.get(p).unwrap().player.is_some());
    assert_eq!(st.res.player_pos, Point::new(3, 3));
}
