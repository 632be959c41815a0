//! Turn-based dungeon crawler core: the map, its generator, the entity
//! store, the systems that run inside a turn, and the turn state machine.

pub mod config;
pub mod text;
pub mod components;
pub mod rectangle;
pub mod data;
pub mod rng;
pub mod map;
pub mod generator;
pub mod store;
pub mod messages;
pub mod combat;
pub mod items;
pub mod item_use;
pub mod functions;
pub mod world;
pub mod dialog;
pub mod sight;
pub mod systems;
pub mod monsters;
pub mod state;
pub mod player;
pub mod ui_controller;
pub mod swatch;
pub mod tile_factory;
pub mod entity_factory;
pub mod spawn_controller;
pub mod exceptions;
pub mod layers;
pub mod laws;
