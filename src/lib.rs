//! Turns crafting recipes into their inverse ("decrafting") recipes, with loot tables for
//! recipes whose ingredients are item categories.
pub mod error;
pub mod item;
pub mod laws;
pub mod loot_table;
pub mod pattern;
pub mod recipe;
pub mod tags;
pub mod text;
