//! Tile catalog, tile expansion and board placement for a tile-laying safari game.
//!
//! The crate turns a JSON catalog of tile archetypes into concrete tile instances
//! and places the starting tiles on a square board. Every function is verified
//! against the contract written on it.

pub mod archetype;
pub mod board;
pub mod catalog;
pub mod json;
pub mod placement;
pub mod setup;
pub mod terrain;
pub mod tile;
