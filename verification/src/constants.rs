//! Dimensions and limits of the standard world.

use vstd::prelude::*;

verus! {

/// Number of tile columns of the standard map.
pub const MAP_WIDTH: u32 = 64;

/// Number of minable rows of the standard map.
pub const MAP_DEPTH: u32 = 32;

/// Number of rows at the top of the map that are reserved for buildings
/// and never filled with terrain.
pub const BUILDING_HEIGHT: u32 = 15;

/// Total number of rows of the standard map: the minable rows and the
/// building band above them.
pub const MAP_HEIGHT: u32 = MAP_DEPTH + BUILDING_HEIGHT;

/// Largest number of cells that one carving may expand.
pub const MAX_CAVE_SIZE: u32 = 150;

/// Position in the catalog of the tile type that cave interiors are made
/// of.
pub const CAVE_WALL_INDEX: usize = 1;

/// Number of rows, counted from row 0, in which the standard cave seed is
/// placed.
pub const CAVE_SEED_ROWS: u32 = 10;

/// Number of tiles around the player from which the cover is lifted.
pub const VISION_RADIUS: u32 = 5;

/// Number of consecutive texture indices that belong to one tile kind: the
/// intact texture followed by its damage stages.
pub const TEXTURES_PER_TILE: u32 = 5;

/// Position of the dirt textures in the tile strip.
pub const DIRT_OFFSET: u32 = 0;

/// Position of the stone textures in the tile strip.
pub const STONE_OFFSET: u32 = 1;

/// Position of the water textures in the tile strip.
pub const WATER_OFFSET: u32 = 2;

/// Position of the diamond textures in the tile strip.
pub const DIAMOND_OFFSET: u32 = 3;

} // verus!
