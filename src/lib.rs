//! Simulation core of a turn-based dungeon crawler: an entity-component
//! world, deferred command buffers, a flush-ordered scheduler, the turn
//! state machine, the gameplay systems and the snapshot codec.

// The entity store and its queries.
pub mod entity;
pub mod components;
pub mod record;
pub mod world;
pub mod query;
pub mod command;
pub mod fold;

// Shared resources, the turn state machine and the scheduler.
pub mod map;
pub mod gamelog;
pub mod state;
pub mod schedule;
pub mod game;

// The systems of the pipeline.
pub mod visibility_system;
pub mod monster_ai_system;
pub mod map_indexing_system;
pub mod melee_combat_system;
pub mod damage_system;
pub mod inventory_system;
pub mod item_use_system;
pub mod item_drop_system;
pub mod item_remove_system;
pub mod delete_the_dead_system;
pub mod move_system;
pub mod get_item_system;

// Persistence and level content.
pub mod snapshot;
pub mod save_system;
pub mod load_system;
pub mod spawner;
pub mod render;
pub mod requests;
