//! Procedural terrain for a tile-based mining world.
//!
//! A catalog of tile types with relative weights and positional validity
//! rules, a randomized flood-fill that carves one connected cave, and a
//! weighted fill of every remaining cell of the minable area. Every random
//! decision is a function of an explicit sequence of draws, so a generated
//! map is reproducible from its inputs.

pub mod cave;
pub mod constants;
pub mod cover;
pub mod draw;
pub mod error;
pub mod grid;
pub mod inputs;
pub mod map;
pub mod rule;
pub mod tile;
