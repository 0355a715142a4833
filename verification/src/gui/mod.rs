//! What the screen shows, computed from plain values: item names and
//! colours, the menus' answers to a key press, the side panel's lines and
//! the tooltips' placement.

pub mod hud;
pub mod item_render;
pub mod menu;
pub mod tooltips;
