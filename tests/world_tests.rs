use roguelike::command::CommandBuffer;
use roguelike::components::{CombatStats, Name, Position};
use roguelike::entity::{Entity, EntityHolder, KeyMap, LoadError};
use roguelike::query::Query;
use roguelike::record::{ComponentKind, ComponentValue, Components, TagKind};
use roguelike::world::World;

fn named(name: &str) -> Components {
    let mut c = Components::empty();
    c.name = Some(Name::new(name));
    c
}

#[test]
fn spawn_gives_fresh_identities() {
    let mut w = World::new();
    let a = w.spawn(Components::empty());
    let b = w.spawn(Components::empty());
    assert_ne!(a, b);
    w.delete(a);
    let c = w.spawn(Components::empty());
    assert_ne!(c, a);
    assert_ne!(c, b);
    assert_eq!(w.entities(), vec![b, c]);
}

#[test]
fn deleted_entity_is_never_found() {
    let mut w = World::new();
    let a = w.spawn(named("a"));
    let b = w.spawn(named("b"));
    w.delete(a);
    let _ = w.spawn(named("c"));
    assert!(!w.is_alive(a));
    assert!(w.get(a).is_none());
    let q = Query::new().with(ComponentKind::Name);
    let found = w.query(&q);
    assert!(!found.contains(&a));
    assert!(found.contains(&b));
    assert_eq!(found.len(), 2);
}

#[test]
fn operations_on_dead_entities_do_nothing() {
    let mut w = World::new();
    let a = w.spawn(Components::empty());
    w.delete(a);
    w.add_component(a, ComponentValue::Position(Position::new(1, 2)));
    w.set_tag(a, TagKind::Item, true);
    w.delete(a);
    assert!(w.get(a).is_none());
    assert!(w.entities().is_empty());
}

#[test]
fn query_filters_by_kind_and_tag() {
    let mut w = World::new();
    let mut c = named("goblin");
    c.position = Some(Position::new(1, 1));
    c.tags.monster = true;
    let goblin = w.spawn(c);
    let mut d = named("potion");
    d.position = Some(Position::new(2, 2));
    d.tags.item = true;
    let potion = w.spawn(d);
    let q = Query::new().with(ComponentKind::Position).tagged(TagKind::Monster);
    assert_eq!(w.query(&q), vec![goblin]);
    let q = Query::new().with(ComponentKind::Name).without(ComponentKind::CombatStats);
    assert_eq!(w.query(&q), vec![goblin, potion]);
    let q = Query::new().tagged(TagKind::Item);
    assert_eq!(w.query(&q), vec![potion]);
}

#[test]
fn buffered_commands_apply_in_recording_order_once() {
    let mut w = World::new();
    let a = w.spawn(Components::empty());
    let mut buf = CommandBuffer::new();
    buf.add_component(a, ComponentValue::CombatStats(CombatStats::new(10, 10, 0, 1)));
    buf.add_component(a, ComponentValue::CombatStats(CombatStats::new(10, 7, 0, 1)));
    buf.remove_component(a, ComponentKind::Position);
    buf.spawn_with(named("late"));
    assert_eq!(buf.len(), 4);
    // Nothing is visible before the flush.
    assert!(w.get(a).unwrap().combat_stats.is_none());
    assert_eq!(w.entities().len(), 1);
    buf.apply(&mut w);
    assert_eq!(buf.len(), 0);
    assert_eq!(w.get(a).unwrap().combat_stats, Some(CombatStats::new(10, 7, 0, 1)));
    assert_eq!(w.entities().len(), 2);
    // A second flush applies nothing again.
    buf.apply(&mut w);
    assert_eq!(w.entities().len(), 2);
}

#[test]
fn delete_then_add_in_one_buffer_leaves_entity_gone() {
    let mut w = World::new();
    let a = w.spawn(Components::empty());
    let mut buf = CommandBuffer::new();
    buf.delete(a);
    buf.add_tag(a, TagKind::Item);
    buf.apply(&mut w);
    assert!(!w.is_alive(a));
}

#[test]
fn holder_store_and_restore() {
    let e = Entity { id: 7 };
    let mut h = EntityHolder::new(e);
    assert_eq!(h.entity(), e);
    h.store_entity_id();
    assert_eq!(h, EntityHolder::Pending(7));
    let mut keys = KeyMap::new();
    keys.insert(7, Entity { id: 42 });
    assert_eq!(h.restore_entity(&keys), Ok(()));
    assert_eq!(h, EntityHolder::Live(Entity { id: 42 }));
}

#[test]
fn holder_restore_fails_on_unknown_key() {
    let mut h = EntityHolder::Pending(3);
    let keys = KeyMap::new();
    assert_eq!(h.restore_entity(&keys), Err(LoadError::UnresolvedKey(3)));
    assert_eq!(h, EntityHolder::Pending(3));
}
