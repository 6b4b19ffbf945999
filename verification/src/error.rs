//! Why a map or a cave cannot be generated.

use vstd::prelude::*;

use crate::rule::TilePos;

verus! {

/// The reasons for which generation fails. Generation is all or nothing:
/// with an error no part of a map is handed out.
#[derive(Clone, Copy, Debug, PartialEq, Eq, Structural)]
pub enum GenerationError {
    /// The map has no column or no row.
    ZeroSizedMap,
    /// The building band is taller than the map.
    BuildingAreaTooTall,
    /// The number of cells, or of draws, is more than a `usize` holds.
    MapTooLarge,
    /// Fewer draws were supplied than the generation may consume.
    NotEnoughDraws,
    /// A cave is asked for and the catalog has no cave wall type.
    MissingCaveWall,
    /// The cave seed is no cell of the map.
    SeedOutOfBounds(TilePos),
    /// No tile type has weight at this cell of the minable area.
    DegenerateRegistry(TilePos),
}

} // verus!
