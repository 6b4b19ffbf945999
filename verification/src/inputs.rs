//! What a generated map depends on, and what it is: the layout of the
//! draws, the errors, and the tile of every cell as a function of the
//! inputs.
//!
//! Every decision is read off a sequence of draws, each at a place of its
//! own: first the two draws of a random cave seed, then four for each
//! expansion allowed to the cave, then one for each cell of the minable
//! area, column by column.

use vstd::prelude::*;

use crate::cave::{cave_draws, cave_site, carved, lemma_carved_rooted, CaveSite};
use crate::constants::CAVE_WALL_INDEX;
use crate::draw::{lemma_scaled_below, scaled, scaled_between};
use crate::error::GenerationError;
use crate::grid::cell_index;
use crate::rule::TilePos;
use crate::tile::{lemma_selection_exists, selection, selects, valid_weight_sum, TileType};

verus! {

/// How the seed of the cave is chosen.
#[derive(Clone, Copy, Debug, PartialEq, Eq, Structural)]
pub enum CaveSeedPolicy {
    /// The seed is the given cell.
    Fixed(TilePos),
    /// The seed is drawn: its column among all columns of the map, its row
    /// among the rows below `rows`.
    Random { rows: u32 },
}

/// Number of draws that a random seed takes.
pub const SEED_DRAWS: usize = 2;

/// Everything that a generated map depends on.
pub struct MapInputs {
    /// The number of columns of the map.
    pub width: u32,
    /// The number of rows of the map.
    pub height: u32,
    /// The number of rows at the top that are left without terrain.
    pub building_height: u32,
    /// The catalog of tile types.
    pub types: Seq<TileType>,
    /// How the cave seed is chosen.
    pub cave_seed: CaveSeedPolicy,
    /// The number of expansions asked for the cave; 0 for no cave.
    pub max_cave_size: u32,
    /// The draws.
    pub draws: Seq<u32>,
}

impl MapInputs {
    /// The number of rows of the minable area: the rows below the building
    /// band.
    pub open spec fn minable_rows(self) -> int {
        self.height - self.building_height
    }

    /// Whether `pos` is a cell of the map.
    pub open spec fn on_map(self, pos: TilePos) -> bool {
        pos.x < self.width && pos.y < self.height
    }

    /// Whether `pos` is a cell of the minable area.
    pub open spec fn minable(self, pos: TilePos) -> bool {
        pos.x < self.width && pos.y < self.minable_rows()
    }

    /// Whether a cave is carved.
    pub open spec fn carves(self) -> bool {
        self.max_cave_size > 0
    }

    /// The number of draws that choosing the seed takes.
    pub open spec fn seed_draws(self) -> nat {
        if self.carves() && self.cave_seed is Random {
            SEED_DRAWS as nat
        } else {
            0
        }
    }

    /// The place of the first draw of the fill.
    pub open spec fn fill_base(self) -> nat {
        self.seed_draws() + if self.carves() {
            cave_draws(self.max_cave_size)
        } else {
            0
        }
    }

    /// The number of draws that the generation may consume.
    pub open spec fn required_draws(self) -> int {
        self.fill_base() + self.width * self.minable_rows()
    }

    /// The seed of the cave.
    pub open spec fn seed(self) -> TilePos {
        match self.cave_seed {
            CaveSeedPolicy::Fixed(pos) => pos,
            CaveSeedPolicy::Random { rows } => TilePos {
                x: scaled_between(0, self.width, self.draws[0]) as u32,
                y: scaled_between(0, rows, self.draws[1]) as u32,
            },
        }
    }

    /// The site of the carving.
    pub open spec fn site(self) -> CaveSite {
        cave_site(
            self.types,
            self.width,
            self.height,
            self.max_cave_size,
            self.draws.subrange(self.seed_draws() as int, self.fill_base() as int),
        )
    }

    /// The cells of the cave, in the order in which they joined; none where
    /// no cave is carved.
    pub open spec fn cave(self) -> Seq<TilePos> {
        if self.carves() {
            carved(self.site(), Set::empty(), self.seed()).region
        } else {
            Seq::empty()
        }
    }

    /// Whether `pos` is a cell that the fill assigns: one of the minable
    /// area that is no cell of the cave.
    pub open spec fn filled(self, pos: TilePos) -> bool {
        self.minable(pos) && !self.cave().contains(pos)
    }

    /// The place of the draw that decides the cell `pos` of the minable
    /// area.
    pub open spec fn fill_draw(self, pos: TilePos) -> int {
        self.fill_base() + cell_index(pos.x as int, pos.y as int, self.minable_rows())
    }

    /// The tile type that the fill gives to the cell `pos`: the one
    /// selected by the cell's draw, scaled to the valid weight sum there.
    pub open spec fn fill_choice(self, pos: TilePos) -> int {
        selection(
            self.types,
            pos,
            scaled(valid_weight_sum(self.types, pos), self.draws[self.fill_draw(pos)]),
        )
    }

    /// Whether the fill has no tile type for the cell `pos`.
    pub open spec fn degenerate_at(self, pos: TilePos) -> bool {
        self.filled(pos) && valid_weight_sum(self.types, pos) == 0
    }

    /// Whether `pos` is the first cell, column by column, for which the
    /// fill has no tile type.
    pub open spec fn first_degenerate(self, pos: TilePos) -> bool {
        &&& self.degenerate_at(pos)
        &&& forall|other: TilePos| #[trigger]
            self.degenerate_at(other) ==> !scanned_before(other, pos.x as int, pos.y as int)
    }

    /// The error with which a map of these dimensions is refused, if it
    /// is.
    pub open spec fn size_refusal(self) -> Option<GenerationError> {
        if self.width == 0 || self.height == 0 {
            Some(GenerationError::ZeroSizedMap)
        } else if self.building_height > self.height {
            Some(GenerationError::BuildingAreaTooTall)
        } else if self.width * self.height > usize::MAX || self.required_draws() > usize::MAX {
            Some(GenerationError::MapTooLarge)
        } else {
            None
        }
    }

    /// The error with which the inputs are refused before any tile is
    /// assigned, if they are.
    pub open spec fn refusal(self) -> Option<GenerationError> {
        if self.size_refusal() is Some {
            self.size_refusal()
        } else if self.draws.len() < self.required_draws() {
            Some(GenerationError::NotEnoughDraws)
        } else if self.carves() && self.types.len() <= CAVE_WALL_INDEX {
            Some(GenerationError::MissingCaveWall)
        } else if self.carves() && !self.on_map(self.seed()) {
            Some(GenerationError::SeedOutOfBounds(self.seed()))
        } else {
            None
        }
    }

    /// Whether the generation fails with `error`.
    pub open spec fn fails_with(self, error: GenerationError) -> bool {
        match self.refusal() {
            Some(refusal) => error == refusal,
            None => error matches GenerationError::DegenerateRegistry(pos) && self.first_degenerate(
                pos,
            ),
        }
    }

    /// Whether the generation yields a map: the inputs are not refused and
    /// the fill has a tile type for every cell that it assigns.
    pub open spec fn succeeds(self) -> bool {
        &&& self.refusal() is None
        &&& forall|pos: TilePos| !#[trigger] self.degenerate_at(pos)
    }

    /// The generated tiles: the cave cells hold the cave wall type, the
    /// other cells of the minable area what the fill chose for them, and no
    /// other cell holds a tile.
    pub open spec fn tiles(self) -> Map<TilePos, usize> {
        Map::new(
            |pos: TilePos| self.cave().contains(pos) || self.minable(pos),
            |pos: TilePos|
                if self.cave().contains(pos) {
                    CAVE_WALL_INDEX
                } else {
                    self.fill_choice(pos) as usize
                },
        )
    }
}

/// Whether the cell `pos` comes before the cell `(x, y)` when the cells
/// are gone through column by column, each column from row 0 upwards.
pub open spec fn scanned_before(pos: TilePos, x: int, y: int) -> bool {
    pos.x < x || (pos.x == x && pos.y < y)
}

/// The inputs of a generation.
pub open spec fn map_inputs(
    width: u32,
    height: u32,
    building_height: u32,
    types: Seq<TileType>,
    cave_seed: CaveSeedPolicy,
    max_cave_size: u32,
    draws: Seq<u32>,
) -> MapInputs {
    MapInputs { width, height, building_height, types, cave_seed, max_cave_size, draws }
}

/// The dimensions of a generation without its catalog and draws.
pub open spec fn map_size(
    width: u32,
    height: u32,
    building_height: u32,
    cave_seed: CaveSeedPolicy,
    max_cave_size: u32,
) -> MapInputs {
    map_inputs(
        width,
        height,
        building_height,
        Seq::empty(),
        cave_seed,
        max_cave_size,
        Seq::empty(),
    )
}

/// Every cell of the minable area of a generated map holds one tile type
/// of the catalog: the cave wall type in the cave, and outside it the type
/// that the value scaled from the cell's draw selects.
pub proof fn lemma_minable_area_covered(inputs: MapInputs, pos: TilePos)
    requires
        inputs.types.len() <= usize::MAX,
        inputs.succeeds(),
        inputs.minable(pos),
    ensures
        inputs.tiles().dom().contains(pos),
        0 <= inputs.tiles()[pos] < inputs.types.len(),
        inputs.cave().contains(pos) ==> inputs.tiles()[pos] == CAVE_WALL_INDEX,
        !inputs.cave().contains(pos) ==> selects(
            inputs.types,
            pos,
            scaled(valid_weight_sum(inputs.types, pos), inputs.draws[inputs.fill_draw(pos)]),
            inputs.tiles()[pos] as int,
        ),
{
    if !inputs.cave().contains(pos) {
        lemma_fill_respects_validity(inputs, pos);
    }
}

/// The fill never assigns a tile type to a cell at which the type is not
/// valid.
pub proof fn lemma_fill_respects_validity(inputs: MapInputs, pos: TilePos)
    requires
        inputs.types.len() <= usize::MAX,
        inputs.succeeds(),
        inputs.filled(pos),
    ensures
        0 <= inputs.tiles()[pos] < inputs.types.len(),
        inputs.types[inputs.tiles()[pos] as int].valid_at(pos),
        inputs.tiles()[pos] == inputs.fill_choice(pos),
        selects(
            inputs.types,
            pos,
            scaled(valid_weight_sum(inputs.types, pos), inputs.draws[inputs.fill_draw(pos)]),
            inputs.fill_choice(pos),
        ),
{
    let sum = valid_weight_sum(inputs.types, pos);
    let draw = inputs.draws[inputs.fill_draw(pos)];
    assert(!inputs.degenerate_at(pos));
    lemma_scaled_below(sum, draw);
    lemma_selection_exists(inputs.types, pos, scaled(sum, draw));
}

/// Every cell of the cave but the seed is one at which the cave wall type
/// is valid, and every cell of the cave is a cell of the map and holds the
/// cave wall type.
pub proof fn lemma_cave_respects_validity(inputs: MapInputs, pos: TilePos)
    requires
        inputs.succeeds(),
        inputs.cave().contains(pos),
    ensures
        inputs.on_map(pos),
        inputs.tiles().dom().contains(pos),
        inputs.tiles()[pos] == CAVE_WALL_INDEX,
        CAVE_WALL_INDEX < inputs.types.len(),
        pos != inputs.seed() ==> inputs.types[CAVE_WALL_INDEX as int].valid_at(pos),
{
    lemma_carved_rooted(inputs.site(), Set::empty(), inputs.seed());
}

} // verus!
