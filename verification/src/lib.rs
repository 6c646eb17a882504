//! Room rules, identifiers, state machine and content selection for a
//! multiplayer geography guessing game.

pub mod config;
pub mod coordinates;
pub mod ids;
pub mod image;
pub mod ranking;
pub mod rules;
pub mod text;
pub mod commands;
pub mod events;
pub mod state;
pub mod pool;
pub mod actor;
pub mod commons;
pub mod manager;
pub mod wikidata;
pub mod cache;
pub mod registry;
pub mod errors;
pub mod api;
pub mod room;
