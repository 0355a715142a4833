//! Game rules of a tile-based roguelike: the dungeon map and its geometry,
//! the turn, hunger and initiative clocks, combat bookkeeping, item naming
//! and the menus' input handling, each stated over plain values.

pub mod ai;
pub mod animal_ai_system;
pub mod bystander_ai_system;
pub mod components;
pub mod damage_system;
pub mod effects;
pub mod encumbrance_system;
pub mod gamelog;
pub mod glyph;
pub mod gui;
pub mod hunger_system;
pub mod inventory_system;
pub mod lighting_system;
pub mod map;
pub mod rect;
pub mod rng;
pub mod run_state;
pub mod text;
