use roguelike::command::CommandBuffer;
use roguelike::components::{
    CombatStats, Confusion, DefenseBonus, EquipmentSlot, Equippable, Equipped, InBackpack,
    MeleePowerBonus, Name, Point, Position, ProvidesHealing, Viewshed, WantsToMelee, WantsToUseItem,
};
use roguelike::entity::Entity;
use roguelike::gamelog::{GameLog, LogEntry};
use roguelike::item_use_system::{heal, AreaOfUse};
use roguelike::map::{GameMap, Rect, TileType};
use roguelike::monster_ai_system::PathStep;
use roguelike::record::Components;
use roguelike::state::RunState;
use roguelike::world::World;
use roguelike::{damage_system, delete_the_dead_system, item_use_system, melee_combat_system, monster_ai_system};

fn fighter(name: &str, hp: i32, defense: i32, power: i32) -> Components {
    let mut c = Components::empty();
    c.name = Some(Name::new(name));
    c.combat_stats = Some(CombatStats::new(hp, hp, defense, power));
    c
}

fn worn(owner: Entity, slot: EquipmentSlot) -> Components {
    let mut c = Components::empty();
    c.name = Some(Name::new("gear"));
    c.equippable = Some(Equippable::new(slot));
    c.equipped = Some(Equipped::new(owner, slot));
    c
}

fn open_map(w: i32, h: i32) -> GameMap {
    let n = (w * h) as usize;
    let mut tiles = vec![TileType::Floor; n];
    tiles[0] = TileType::Wall;
    GameMap {
        tiles,
        rooms: vec![Rect::new(1, 1, 4, 4), Rect::new(10, 10, 3, 3)],
        width: w,
        height: h,
        revealed_tiles: vec![false; n],
        visible_tiles: vec![false; n],
        blocked: vec![false; n],
        depth: 1,
        tile_content: vec![Vec::new(); n],
    }
}

#[test]
fn melee_damage_counts_equipment_on_both_sides() {
    let mut w = World::new();
    let attacker = w.spawn(fighter("Hero", 30, 0, 5));
    let defender = w.spawn(fighter("Orc", 30, 1, 4));
    let _dagger = {
        let mut c = worn(attacker, EquipmentSlot::Melee);
        c.melee_power_bonus = Some(MeleePowerBonus::new(2));
        w.spawn(c)
    };
    let _shield = {
        let mut c = worn(defender, EquipmentSlot::Shield);
        c.defense_bonus = Some(DefenseBonus::new(1));
        w.spawn(c)
    };
    w.add_component(attacker, roguelike::record::ComponentValue::WantsToMelee(WantsToMelee::new(defender)));
    let mut log = GameLog::new();
    let mut buf = CommandBuffer::new();
    melee_combat_system::run(&w, &mut log, &mut buf);
    buf.apply(&mut w);
    assert!(w.get(attacker).unwrap().wants_to_melee.is_none());
    match &log.entries[1] {
        LogEntry::Hit { attacker: a, target: t, damage } => {
            assert_eq!(a, "Hero");
            assert_eq!(t, "Orc");
            assert_eq!(*damage, 5);
        }
        other => panic!("unexpected entry {:?}", other),
    }
    let mut buf = CommandBuffer::new();
    damage_system::run(&w, &mut buf);
    buf.apply(&mut w);
    assert_eq!(w.get(defender).unwrap().combat_stats.unwrap().hp, 25);
    // The consumed damage entry is gone.
    let entries = w.entities().iter().filter(|e| w.get(**e).unwrap().suffer_damage.is_some()).count();
    assert_eq!(entries, 0);
}

#[test]
fn melee_without_effect_is_logged_distinctly() {
    let mut w = World::new();
    let attacker = w.spawn(fighter("Rat", 10, 0, 4));
    let defender = w.spawn(fighter("Knight", 30, 10, 4));
    w.add_component(attacker, roguelike::record::ComponentValue::WantsToMelee(WantsToMelee::new(defender)));
    let mut log = GameLog::new();
    let mut buf = CommandBuffer::new();
    melee_combat_system::run(&w, &mut log, &mut buf);
    assert_eq!(buf.len(), 1);
    buf.apply(&mut w);
    assert!(matches!(&log.entries[1], LogEntry::UnableToHurt { .. }));
    let mut buf = CommandBuffer::new();
    damage_system::run(&w, &mut buf);
    buf.apply(&mut w);
    assert_eq!(w.get(defender).unwrap().combat_stats.unwrap().hp, 30);
}

#[test]
fn several_damage_entries_add_up() {
    let mut w = World::new();
    let victim = w.spawn(fighter("Orc", 16, 1, 4));
    let mut buf = CommandBuffer::new();
    roguelike::components::SufferDamage::new_damage(&mut buf, victim, 3);
    roguelike::components::SufferDamage::new_damage(&mut buf, victim, 4);
    buf.apply(&mut w);
    let mut buf = CommandBuffer::new();
    damage_system::run(&w, &mut buf);
    buf.apply(&mut w);
    assert_eq!(w.get(victim).unwrap().combat_stats.unwrap().hp, 9);
    assert_eq!(w.entities(), vec![victim]);
}

#[test]
fn healing_stops_at_max_health() {
    let s = heal(CombatStats::new(30, 25, 2, 5), 8);
    assert_eq!(s.hp, 30);
    let s = heal(CombatStats::new(30, 10, 2, 5), 8);
    assert_eq!(s.hp, 18);
}

#[test]
fn potion_heals_the_player_and_is_used_up() {
    let mut w = World::new();
    let player = w.spawn(fighter("Player", 30, 2, 5));
    w.add_component(player, roguelike::record::ComponentValue::CombatStats(CombatStats::new(30, 25, 2, 5)));
    let mut p = Components::empty();
    p.name = Some(Name::new("Health Potion"));
    p.provides_healing = Some(ProvidesHealing::new(8));
    p.in_backpack = Some(InBackpack::new(player));
    p.tags.consumable = true;
    p.tags.item = true;
    let potion = w.spawn(p);
    w.add_component(player, roguelike::record::ComponentValue::WantsToUseItem(WantsToUseItem::new(potion, None)));
    let map = open_map(20, 20);
    let mut log = GameLog::new();
    let mut buf = CommandBuffer::new();
    let areas: Vec<AreaOfUse> = Vec::new();
    item_use_system::run(&w, &map, &areas, player, &mut log, &mut buf);
    buf.apply(&mut w);
    assert_eq!(w.get(player).unwrap().combat_stats.unwrap().hp, 30);
    assert!(!w.is_alive(potion));
    assert!(w.get(player).unwrap().wants_to_use_item.is_none());
    assert!(matches!(&log.entries[1], LogEntry::Healed { amount: 8, .. }));
}

#[test]
fn equipping_replaces_the_slot_occupant() {
    let mut w = World::new();
    let player = w.spawn(fighter("Player", 30, 2, 5));
    let old_sword = w.spawn(worn(player, EquipmentSlot::Melee));
    let shield = w.spawn(worn(player, EquipmentSlot::Shield));
    let mut s = Components::empty();
    s.name = Some(Name::new("Longsword"));
    s.equippable = Some(Equippable::new(EquipmentSlot::Melee));
    s.in_backpack = Some(InBackpack::new(player));
    let new_sword = w.spawn(s);
    w.add_component(player, roguelike::record::ComponentValue::WantsToUseItem(WantsToUseItem::new(new_sword, None)));
    let map = open_map(20, 20);
    let mut log = GameLog::new();
    let mut buf = CommandBuffer::new();
    item_use_system::run(&w, &map, &Vec::new(), player, &mut log, &mut buf);
    buf.apply(&mut w);
    let old = w.get(old_sword).unwrap();
    assert!(old.equipped.is_none());
    assert_eq!(old.in_backpack, Some(InBackpack::new(player)));
    let new = w.get(new_sword).unwrap();
    assert_eq!(new.equipped, Some(Equipped::new(player, EquipmentSlot::Melee)));
    assert!(new.in_backpack.is_none());
    assert_eq!(w.get(shield).unwrap().equipped, Some(Equipped::new(player, EquipmentSlot::Shield)));
    let in_slot = w
        .entities()
        .iter()
        .filter(|e| w.get(**e).unwrap().equipped == Some(Equipped::new(player, EquipmentSlot::Melee)))
        .count();
    assert_eq!(in_slot, 1);
}

fn monster_at(x: i32, y: i32) -> Components {
    let mut c = fighter("Goblin", 16, 1, 4);
    c.position = Some(Position::new(x, y));
    c.viewshed = Some(Viewshed::new(vec![Point::new(5, 5)], 8, false));
    c.tags.monster = true;
    c
}

#[test]
fn confused_monster_loses_turns_until_the_status_runs_out() {
    let mut w = World::new();
    let player = w.spawn(fighter("Player", 30, 2, 5));
    let mut m = monster_at(5, 6);
    m.confusion = Some(Confusion::new(2));
    let goblin = w.spawn(m);
    let mut map = open_map(20, 20);
    let steps: Vec<PathStep> = Vec::new();
    let ppos = Point::new(5, 5);
    let mut buf = CommandBuffer::new();
    monster_ai_system::run(&mut w, &mut map, RunState::MonsterTurn, player, ppos, &steps, &mut buf);
    buf.apply(&mut w);
    let g = w.get(goblin).unwrap();
    assert_eq!(g.confusion, Some(Confusion::new(1)));
    assert!(g.wants_to_melee.is_none());
    let mut buf = CommandBuffer::new();
    monster_ai_system::run(&mut w, &mut map, RunState::MonsterTurn, player, ppos, &steps, &mut buf);
    buf.apply(&mut w);
    let g = w.get(goblin).unwrap();
    assert!(g.confusion.is_none());
    assert!(g.wants_to_melee.is_none());
    // Free again, the adjacent monster attacks.
    let mut buf = CommandBuffer::new();
    monster_ai_system::run(&mut w, &mut map, RunState::MonsterTurn, player, ppos, &steps, &mut buf);
    buf.apply(&mut w);
    assert_eq!(w.get(goblin).unwrap().wants_to_melee, Some(WantsToMelee::new(player)));
}

#[test]
fn monsters_wait_outside_their_turn() {
    let mut w = World::new();
    let player = w.spawn(fighter("Player", 30, 2, 5));
    let goblin = w.spawn(monster_at(5, 6));
    let mut map = open_map(20, 20);
    let mut buf = CommandBuffer::new();
    monster_ai_system::run(&mut w, &mut map, RunState::PlayerTurn, player, Point::new(5, 5), &Vec::new(), &mut buf);
    assert_eq!(buf.len(), 0);
    assert!(w.get(goblin).unwrap().wants_to_melee.is_none());
}

#[test]
fn chasing_monster_takes_its_path_step() {
    let mut w = World::new();
    let player = w.spawn(fighter("Player", 30, 2, 5));
    let goblin = w.spawn(monster_at(5, 9));
    let mut map = open_map(20, 20);
    let steps = vec![PathStep { entity: goblin, to: Point::new(5, 8) }];
    let mut buf = CommandBuffer::new();
    monster_ai_system::run(&mut w, &mut map, RunState::MonsterTurn, player, Point::new(5, 5), &steps, &mut buf);
    let g = w.get(goblin).unwrap();
    assert_eq!(g.position, Some(Position::new(5, 8)));
    assert!(g.viewshed.as_ref().unwrap().dirty);
}

#[test]
fn dead_monsters_are_removed_and_a_dead_player_ends_the_game() {
    let mut w = World::new();
    let mut pc = fighter("Player", 30, 2, 5);
    pc.player = Some(roguelike::components::Player::new());
    pc.combat_stats = Some(CombatStats::new(30, 0, 2, 5));
    let player = w.spawn(pc);
    let mut oc = fighter("Orc", 16, 1, 4);
    oc.combat_stats = Some(CombatStats::new(16, -3, 1, 4));
    let orc = w.spawn(oc);
    let mut log = GameLog::new();
    let mut state = RunState::MonsterTurn;
    let mut buf = CommandBuffer::new();
    delete_the_dead_system::run(&w, &mut log, &mut state, &mut buf);
    buf.apply(&mut w);
    assert!(!w.is_alive(orc));
    assert!(w.is_alive(player));
    assert_eq!(state, RunState::GameOver);
    assert!(matches!(&log.entries[1], LogEntry::Dead { name } if name == "Orc"));
}

#[test]
fn area_use_hits_everyone_inside_the_border() {
    let mut w = World::new();
    let player = w.spawn(fighter("Player", 30, 2, 5));
    let a = w.spawn(fighter("A", 16, 1, 4));
    let b = w.spawn(fighter("B", 16, 1, 4));
    let mut s = Components::empty();
    s.name = Some(Name::new("Fireball Scroll"));
    s.inflicts_damage = Some(roguelike::components::InflictsDamage::new(20));
    s.area_of_effect = Some(roguelike::components::AreaOfEffect::new(3));
    s.tags.consumable = true;
    let scroll = w.spawn(s);
    w.add_component(
        player,
        roguelike::record::ComponentValue::WantsToUseItem(WantsToUseItem::new(scroll, Some(Point::new(3, 3)))),
    );
    let mut map = open_map(20, 20);
    let i = map.xy_idx(3, 3);
    map.tile_content[i] = vec![a];
    let j = map.xy_idx(4, 3);
    map.tile_content[j] = vec![b];
    let areas = vec![AreaOfUse { user: player, tiles: vec![Point::new(3, 3), Point::new(4, 3), Point::new(0, 0)] }];
    let mut log = GameLog::new();
    let mut buf = CommandBuffer::new();
    item_use_system::run(&w, &map, &areas, player, &mut log, &mut buf);
    buf.apply(&mut w);
    assert!(!w.is_alive(scroll));
    let mut buf = CommandBuffer::new();
    damage_system::run(&w, &mut buf);
    buf.apply(&mut w);
    assert_eq!(w.get(a).unwrap().combat_stats.unwrap().hp, -4);
    assert_eq!(w.get(b).unwrap().combat_stats.unwrap().hp, -4);
    assert_eq!(w.get(player).unwrap().combat_stats.unwrap().hp, 30);
}
