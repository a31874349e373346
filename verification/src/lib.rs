//! Core simulation of a tile-based bomb-and-blast arcade game.
//!
//! The library owns the deterministic grid logic: parsing a level source
//! into a cell grid, spawning entities from it, collision-checked movement
//! for the player and the enemies, the bomb fuse and the blast footprint,
//! damage and invulnerability bookkeeping, and the level transition.
//! Rendering, input devices and the frame loop live outside and drive
//! these systems with plain values (cell coordinates and millisecond
//! timestamps).

pub mod bomb_systems;
pub mod components;
pub mod constants;
pub mod enemy_systems;
pub mod field_systems;
pub mod player_systems;
pub mod rng;
pub mod schedule;
pub mod utils;
