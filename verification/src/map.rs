//! Generation of a whole map: one cave, then a weighted fill of the rest
//! of the minable area.

use vstd::prelude::*;
use vstd::slice::slice_subrange;

use crate::cave::{create_cave, SIDES};
use crate::constants::{CAVE_WALL_INDEX, MAX_CAVE_SIZE};
use crate::draw::{fresh_draws, random_in_range, random_u32, scaled};
use crate::error::GenerationError;
use crate::grid::{
    cell_count, cell_index, cell_offset, lemma_cell_index_bounds, lemma_cell_index_injective,
    VisitedGrid,
};
use crate::inputs::{map_inputs, map_size, scanned_before, CaveSeedPolicy, MapInputs, SEED_DRAWS};
use crate::rule::TilePos;
use crate::tile::{selection, selects, valid_weight_sum, TileCollection};

verus! {

/// A generated map: for each cell the position in the catalog of the tile
/// type it holds, if it holds one.
#[derive(Debug)]
pub struct GeneratedMap {
    width: u32,
    height: u32,
    cells: Vec<Option<usize>>,
    cave: Vec<TilePos>,
}

impl View for GeneratedMap {
    type V = Map<TilePos, usize>;

    /// The tile type of each cell that holds a tile.
    closed spec fn view(&self) -> Map<TilePos, usize> {
        Map::new(
            |pos: TilePos|
                pos.x < self.width && pos.y < self.height && self.cells@[cell_index(
                    pos.x as int,
                    pos.y as int,
                    self.height as int,
                )] is Some,
            |pos: TilePos|
                self.cells@[cell_index(pos.x as int, pos.y as int, self.height as int)]->0,
        )
    }
}

impl GeneratedMap {
    #[verifier::type_invariant]
    spec fn inv(&self) -> bool {
        self.cells@.len() == self.width * self.height <= usize::MAX
    }

    /// The number of columns.
    pub closed spec fn columns(&self) -> u32 {
        self.width
    }

    /// The number of rows.
    pub closed spec fn rows(&self) -> u32 {
        self.height
    }

    /// The cells of the cave, in the order in which they joined.
    pub closed spec fn cave_cells(&self) -> Seq<TilePos> {
        self.cave@
    }

    /// The number of columns.
    pub fn width(&self) -> (width: u32)
        ensures
            width == self.columns(),
    {
        self.width
    }

    /// The number of rows.
    pub fn height(&self) -> (height: u32)
        ensures
            height == self.rows(),
    {
        self.height
    }

    /// The cells of the cave, in the order in which they joined.
    pub fn cave(&self) -> (cave: &Vec<TilePos>)
        ensures
            cave@ == self.cave_cells(),
    {
        &self.cave
    }

    /// The position in the catalog of the tile type that the cell `pos`
    /// holds; `None` where it holds no tile or is no cell of the map.
    pub fn get(&self, pos: &TilePos) -> (tile: Option<usize>)
        ensures
            tile == if self@.dom().contains(*pos) {
                Some(self@[*pos])
            } else {
                None
            },
    {
        if pos.x < self.width && pos.y < self.height {
            proof {
                use_type_invariant(self);
            }
            let index = cell_offset(pos.x, pos.y, self.width, self.height);
            self.cells[index]
        } else {
            None
        }
    }
}

/// Chooses a tile type for the cell `pos` from one draw: the draw is scaled
/// to the sum of the weights of the types valid at `pos`, and the result
/// selects among them by weight, in catalog order. `None` where no type has
/// weight at `pos`.
pub fn get_random_tile_type(tile_types: &TileCollection, pos: &TilePos, draw: u32) -> (choice:
    Option<usize>)
    ensures
        choice is Some <==> valid_weight_sum(tile_types@, *pos) > 0,
        choice matches Some(i) ==> {
            &&& selects(
                tile_types@,
                *pos,
                scaled(valid_weight_sum(tile_types@, *pos), draw),
                i as int,
            )
            &&& i == selection(
                tile_types@,
                *pos,
                scaled(valid_weight_sum(tile_types@, *pos), draw),
            )
        },
{
    let rarity_sum = tile_types.rarity_sum_valid(pos);
    let random = random_in_range(rarity_sum, draw);
    tile_types.select(pos, random)
}

/// Whether `result` is what the generation yields on `inputs`: the map
/// with the generated tiles and the cave, or the error with which the
/// generation fails.
pub open spec fn generated(inputs: MapInputs, result: Result<GeneratedMap, GenerationError>) -> bool {
    match result {
        Ok(map) => {
            &&& inputs.succeeds()
            &&& map.columns() == inputs.width
            &&& map.rows() == inputs.height
            &&& map.cave_cells() == inputs.cave()
            &&& map@ == inputs.tiles()
        },
        Err(error) => inputs.fails_with(error),
    }
}

/// The same inputs and draws give the same outcome: two results of a
/// generation on the same inputs are both maps with the same dimensions,
/// cave and tiles, or both the same error.
pub proof fn lemma_generation_deterministic(
    inputs: MapInputs,
    first: Result<GeneratedMap, GenerationError>,
    second: Result<GeneratedMap, GenerationError>,
)
    requires
        generated(inputs, first),
        generated(inputs, second),
    ensures
        first is Ok <==> second is Ok,
        first matches Ok(a) ==> second matches Ok(b) ==> {
            &&& a.columns() == b.columns()
            &&& a.rows() == b.rows()
            &&& a.cave_cells() == b.cave_cells()
            &&& a@ == b@
        },
        first matches Err(a) ==> second matches Err(b) ==> a == b,
{
}

/// What the cell `pos` holds once the cave is placed and the fill has
/// gone through the cells before `(x, y)`.
spec fn cell_content(inputs: MapInputs, pos: TilePos, x: int, y: int) -> Option<usize> {
    if inputs.cave().contains(pos) {
        Some(CAVE_WALL_INDEX)
    } else if inputs.minable(pos) && scanned_before(pos, x, y) {
        Some(inputs.fill_choice(pos) as usize)
    } else {
        None
    }
}

/// Whether `cells` is the storage of a map on which the cave is placed and
/// the fill has gone through the cells before `(x, y)`.
spec fn cells_hold(inputs: MapInputs, cells: Seq<Option<usize>>, x: int, y: int) -> bool {
    &&& cells.len() == inputs.width * inputs.height
    &&& forall|pos: TilePos|
        inputs.on_map(pos) ==> cells[cell_index(pos.x as int, pos.y as int, inputs.height as int)]
            == #[trigger] cell_content(inputs, pos, x, y)
}

/// Whether `visited` holds the cells of the cave and the minable cells
/// before `(x, y)`.
spec fn visited_upto(inputs: MapInputs, visited: Set<TilePos>, x: int, y: int) -> bool {
    forall|pos: TilePos| #[trigger]
        visited.contains(pos) <==> inputs.cave().contains(pos) || (inputs.minable(pos)
            && scanned_before(pos, x, y))
}

/// Whether the fill has a tile type for each of its cells before `(x, y)`.
spec fn filled_upto(inputs: MapInputs, x: int, y: int) -> bool {
    forall|pos: TilePos| #[trigger]
        inputs.degenerate_at(pos) ==> !scanned_before(pos, x, y)
}

/// The checked layout of a generation.
struct Plan {
    cells: usize,
    seed_draws: usize,
    fill_base: usize,
    seed: TilePos,
}

/// Checks the inputs and lays out the draws.
fn plan(
    width: u32,
    height: u32,
    building_height: u32,
    registry: &TileCollection,
    cave_seed: CaveSeedPolicy,
    max_cave_size: u32,
    draws: &[u32],
) -> (result: Result<Plan, GenerationError>)
    ensures
        match result {
            Ok(plan) => {
                let inputs = map_inputs(
                    width,
                    height,
                    building_height,
                    registry@,
                    cave_seed,
                    max_cave_size,
                    draws@,
                );
                &&& inputs.refusal() is None
                &&& plan.cells == width * height
                &&& plan.seed_draws == inputs.seed_draws()
                &&& plan.fill_base == inputs.fill_base()
                &&& inputs.carves() ==> plan.seed == inputs.seed()
            },
            Err(error) => map_inputs(
                width,
                height,
                building_height,
                registry@,
                cave_seed,
                max_cave_size,
                draws@,
            ).refusal() == Some(error),
        },
{
    let required = match draw_count(width, height, building_height, cave_seed, max_cave_size) {
        Ok(count) => count,
        Err(error) => {
            return Err(error);
        },
    };
    if draws.len() < required {
        return Err(GenerationError::NotEnoughDraws);
    }
    let cells: usize = match cell_count(width, height) {
        Some(count) => count,
        None => {
            return Err(GenerationError::MapTooLarge);
        },
    };
    if max_cave_size == 0 {
        return Ok(Plan { cells, seed_draws: 0, fill_base: 0, seed: TilePos { x: 0, y: 0 } });
    }
    if registry.len() <= CAVE_WALL_INDEX {
        return Err(GenerationError::MissingCaveWall);
    }
    let budget: u32 = if max_cave_size < MAX_CAVE_SIZE {
        max_cave_size
    } else {
        MAX_CAVE_SIZE
    };
    let (seed_draws, seed): (usize, TilePos) = match cave_seed {
        CaveSeedPolicy::Fixed(pos) => (0, pos),
        CaveSeedPolicy::Random { rows } => (
            SEED_DRAWS,
            TilePos { x: random_u32(0, width, draws[0]), y: random_u32(0, rows, draws[1]) },
        ),
    };
    if !(seed.x < width && seed.y < height) {
        return Err(GenerationError::SeedOutOfBounds(seed));
    }
    Ok(Plan { cells, seed_draws, fill_base: seed_draws + SIDES * (budget as usize), seed })
}

/// Writes the cave wall type into the cells of the cave.
fn place_cave(cells: &mut Vec<Option<usize>>, cave: &Vec<TilePos>, width: u32, height: u32)
    requires
        width * height <= usize::MAX,
        old(cells)@.len() == width * height,
        forall|i: int| 0 <= i < old(cells)@.len() ==> old(cells)@[i] is None,
        forall|j: int| 0 <= j < cave@.len() ==> (#[trigger] cave@[j]).x < width && cave@[j].y < height,
    ensures
        final(cells)@.len() == width * height,
        forall|pos: TilePos|
            pos.x < width && pos.y < height ==> #[trigger] final(cells)@[cell_index(
                pos.x as int,
                pos.y as int,
                height as int,
            )] == if cave@.contains(pos) {
                Some(CAVE_WALL_INDEX)
            } else {
                None::<usize>
            },
{
    let mut j: usize = 0;
    proof {
        assert forall|pos: TilePos| pos.x < width && pos.y < height implies #[trigger] cells@[cell_index(
            pos.x as int,
            pos.y as int,
            height as int,
        )] is None by {
            lemma_cell_index_bounds(pos.x as int, pos.y as int, width as int, height as int);
        }
    }
    while j < cave.len()
        invariant
            0 <= j <= cave@.len(),
            width * height <= usize::MAX,
            cells@.len() == width * height,
            forall|j: int|
                0 <= j < cave@.len() ==> (#[trigger] cave@[j]).x < width && cave@[j].y < height,
            forall|pos: TilePos|
                pos.x < width && pos.y < height ==> #[trigger] cells@[cell_index(
                    pos.x as int,
                    pos.y as int,
                    height as int,
                )] == if cave@.subrange(0, j as int).contains(pos) {
                    Some(CAVE_WALL_INDEX)
                } else {
                    None::<usize>
                },
        decreases cave@.len() - j,
    {
        let cell = cave[j];
        let index = cell_offset(cell.x, cell.y, width, height);
        cells[index] = Some(CAVE_WALL_INDEX);
        proof {
            let grown = cave@.subrange(0, j + 1);
            assert forall|pos: TilePos| pos.x < width && pos.y < height implies #[trigger] cells@[cell_index(
                pos.x as int,
                pos.y as int,
                height as int,
            )] == if grown.contains(pos) {
                Some(CAVE_WALL_INDEX)
            } else {
                None::<usize>
            } by {
                let at = cell_index(pos.x as int, pos.y as int, height as int);
                lemma_cell_index_bounds(pos.x as int, pos.y as int, width as int, height as int);
                if at == index {
                    lemma_cell_index_injective(
                        pos.x as int,
                        pos.y as int,
                        cell.x as int,
                        cell.y as int,
                        height as int,
                    );
                    assert(grown[j as int] == pos);
                }
            }
        }
        j = j + 1;
    }
    proof {
        assert(cave@.subrange(0, j as int) =~= cave@);
    }
}

/// Gives every cell of the minable area that holds no tile yet a tile
/// type, column by column, and marks it. Stops at the first cell for which
/// no tile type has weight, and returns it.
fn fill_tiles(
    registry: &TileCollection,
    visited: &mut VisitedGrid,
    cells: &mut Vec<Option<usize>>,
    width: u32,
    height: u32,
    minable_rows: u32,
    fill_base: usize,
    draws: &[u32],
    Ghost(inputs): Ghost<MapInputs>,
) -> (failure: Option<TilePos>)
    requires
        inputs.width == width,
        inputs.height == height,
        inputs.minable_rows() == minable_rows,
        inputs.types == registry@,
        inputs.draws == draws@,
        inputs.fill_base() == fill_base,
        inputs.refusal() is None,
        old(visited).columns() == width,
        old(visited).rows() == height,
        visited_upto(inputs, old(visited)@, 0, 0),
        cells_hold(inputs, old(cells)@, 0, 0),
    ensures
        match failure {
            Some(pos) => inputs.first_degenerate(pos),
            None => filled_upto(inputs, width as int, 0) && cells_hold(
                inputs,
                final(cells)@,
                width as int,
                0,
            ),
        },
{
    let mut x: u32 = 0;
    while x < width
        invariant
            0 <= x <= width,
            inputs.width == width,
            inputs.height == height,
            inputs.minable_rows() == minable_rows,
            inputs.types == registry@,
            inputs.draws == draws@,
            inputs.fill_base() == fill_base,
            inputs.refusal() is None,
            visited.columns() == width,
            visited.rows() == height,
            visited_upto(inputs, visited@, x as int, 0),
            cells_hold(inputs, cells@, x as int, 0),
            filled_upto(inputs, x as int, 0),
        decreases width - x,
    {
        let mut y: u32 = 0;
        while y < minable_rows
            invariant
                0 <= x < width,
                0 <= y <= minable_rows,
                inputs.width == width,
                inputs.height == height,
                inputs.minable_rows() == minable_rows,
                inputs.types == registry@,
                inputs.draws == draws@,
                inputs.fill_base() == fill_base,
                inputs.refusal() is None,
                visited.columns() == width,
                visited.rows() == height,
                visited_upto(inputs, visited@, x as int, y as int),
                cells_hold(inputs, cells@, x as int, y as int),
                filled_upto(inputs, x as int, y as int),
            decreases minable_rows - y,
        {
            let pos = TilePos { x, y };
            let ghost earlier = cells@;
            if !visited.is_visited(&pos) {
                let place = cell_offset(x, y, width, minable_rows);
                match get_random_tile_type(registry, &pos, draws[fill_base + place]) {
                    Some(choice) => {
                        visited.mark(&pos);
                        let index = cell_offset(x, y, width, height);
                        cells[index] = Some(choice);
                        proof {
                            assert forall|other: TilePos| inputs.on_map(other) implies cells@[cell_index(
                                other.x as int,
                                other.y as int,
                                height as int,
                            )] == #[trigger] cell_content(inputs, other, x as int, y + 1) by {
                                let at = cell_index(other.x as int, other.y as int, height as int);
                                lemma_cell_index_bounds(
                                    other.x as int,
                                    other.y as int,
                                    width as int,
                                    height as int,
                                );
                                assert(earlier[at] == cell_content(inputs, other, x as int, y as int));
                                if at == index {
                                    lemma_cell_index_injective(
                                        other.x as int,
                                        other.y as int,
                                        x as int,
                                        y as int,
                                        height as int,
                                    );
                                }
                            }
                        }
                    },
                    None => {
                        return Some(pos);
                    },
                }
            } else {
                proof {
                    assert forall|other: TilePos| inputs.on_map(other) implies cells@[cell_index(
                        other.x as int,
                        other.y as int,
                        height as int,
                    )] == #[trigger] cell_content(inputs, other, x as int, y + 1) by {
                        assert(earlier[cell_index(other.x as int, other.y as int, height as int)]
                            == cell_content(inputs, other, x as int, y as int));
                    }
                }
            }
            y = y + 1;
        }
        proof {
            assert forall|other: TilePos| inputs.on_map(other) implies cells@[cell_index(
                other.x as int,
                other.y as int,
                height as int,
            )] == #[trigger] cell_content(inputs, other, x + 1, 0) by {
                assert(cells@[cell_index(other.x as int, other.y as int, height as int)]
                    == cell_content(inputs, other, x as int, y as int));
            }
        }
        x = x + 1;
    }
    None
}

/// Generates a map of `width` by `height` cells from the draws `draws`.
///
/// With `max_cave_size` above 0 a cave of at most that many expansions is
/// carved from the seed that `cave_seed` gives, and its cells receive the
/// cave wall type. Every other cell below the `building_height` topmost
/// rows receives a tile type chosen by weight among those valid there. The
/// result is the whole map or an error: `MapInputs::refusal` says which
/// inputs are refused and why, and a cell at which no tile type has weight
/// fails the generation with that cell.
pub fn generate_map(
    width: u32,
    height: u32,
    building_height: u32,
    registry: &TileCollection,
    cave_seed: CaveSeedPolicy,
    max_cave_size: u32,
    draws: &[u32],
) -> (result: Result<GeneratedMap, GenerationError>)
    ensures
        generated(
            map_inputs(
                width,
                height,
                building_height,
                registry@,
                cave_seed,
                max_cave_size,
                draws@,
            ),
            result,
        ),
{
    let ghost inputs = map_inputs(
        width,
        height,
        building_height,
        registry@,
        cave_seed,
        max_cave_size,
        draws@,
    );
    let plan = match plan(width, height, building_height, registry, cave_seed, max_cave_size, draws) {
        Ok(plan) => plan,
        Err(error) => {
            return Err(error);
        },
    };
    let mut visited = match VisitedGrid::new(width, height) {
        Some(grid) => grid,
        None => {
            return Err(GenerationError::MapTooLarge);
        },
    };
    let mut cells: Vec<Option<usize>> = Vec::new();
    while cells.len() < plan.cells
        invariant
            cells@.len() <= plan.cells,
            forall|i: int| 0 <= i < cells@.len() ==> cells@[i] is None,
        decreases plan.cells - cells@.len(),
    {
        cells.push(None);
    }
    let mut cave: Vec<TilePos> = Vec::new();
    if max_cave_size > 0 {
        let cave_draws = slice_subrange(draws, plan.seed_draws, plan.fill_base);
        match create_cave(registry, &mut visited, plan.seed, max_cave_size, cave_draws) {
            Ok(region) => {
                cave = region;
            },
            Err(error) => {
                return Err(error);
            },
        }
        place_cave(&mut cells, &cave, width, height);
    }
    proof {
        assert forall|pos: TilePos| inputs.on_map(pos) implies cells@[cell_index(
            pos.x as int,
            pos.y as int,
            height as int,
        )] == #[trigger] cell_content(inputs, pos, 0, 0) by {
            lemma_cell_index_bounds(pos.x as int, pos.y as int, width as int, height as int);
        }
    }
    match fill_tiles(
        registry,
        &mut visited,
        &mut cells,
        width,
        height,
        height - building_height,
        plan.fill_base,
        draws,
        Ghost(inputs),
    ) {
        Some(pos) => Err(GenerationError::DegenerateRegistry(pos)),
        None => {
            let map = GeneratedMap { width, height, cells, cave };
            proof {
                assert forall|pos: TilePos| #[trigger]
                    map@.dom().contains(pos) implies inputs.tiles().dom().contains(pos) && map@[pos]
                    == inputs.tiles()[pos] by {
                    assert(map.cells@[cell_index(pos.x as int, pos.y as int, height as int)]
                        == cell_content(inputs, pos, width as int, 0));
                }
                assert forall|pos: TilePos| #[trigger]
                    inputs.tiles().dom().contains(pos) implies map@.dom().contains(pos) by {
                    assert(map.cells@[cell_index(pos.x as int, pos.y as int, height as int)]
                        == cell_content(inputs, pos, width as int, 0));
                }
                assert(map@ =~= inputs.tiles());
            }
            Ok(map)
        },
    }
}

/// The number of draws that a generation with these inputs may consume:
/// two for a random seed, four for each expansion allowed to the cave, one
/// for each cell of the minable area. An error where a map of these
/// dimensions is refused.
pub fn draw_count(
    width: u32,
    height: u32,
    building_height: u32,
    cave_seed: CaveSeedPolicy,
    max_cave_size: u32,
) -> (result: Result<usize, GenerationError>)
    ensures
        match result {
            Ok(count) => {
                &&& map_size(
                    width,
                    height,
                    building_height,
                    cave_seed,
                    max_cave_size,
                ).size_refusal() is None
                &&& count == map_size(
                    width,
                    height,
                    building_height,
                    cave_seed,
                    max_cave_size,
                ).required_draws()
            },
            Err(error) => map_size(
                width,
                height,
                building_height,
                cave_seed,
                max_cave_size,
            ).size_refusal() == Some(error),
        },
{
    if width == 0 || height == 0 {
        return Err(GenerationError::ZeroSizedMap);
    }
    if building_height > height {
        return Err(GenerationError::BuildingAreaTooTall);
    }
    let seed_draws: usize = if max_cave_size > 0 {
        match cave_seed {
            CaveSeedPolicy::Random { .. } => SEED_DRAWS,
            CaveSeedPolicy::Fixed(_) => 0,
        }
    } else {
        0
    };
    let budget: u32 = if max_cave_size < MAX_CAVE_SIZE {
        max_cave_size
    } else {
        MAX_CAVE_SIZE
    };
    let fill_base: usize = seed_draws + SIDES * (budget as usize);
    if cell_count(width, height).is_none() {
        return Err(GenerationError::MapTooLarge);
    }
    match cell_count(width, height - building_height) {
        Some(fill_cells) => {
            if fill_cells > usize::MAX - fill_base {
                Err(GenerationError::MapTooLarge)
            } else {
                Ok(fill_base + fill_cells)
            }
        },
        None => Err(GenerationError::MapTooLarge),
    }
}

/// Generates a map of `width` by `height` cells from fresh random draws.
///
/// The map is the one that `generate_map` yields on these inputs for some
/// sequence of draws that is long enough: which one is up to the random
/// number generator.
pub fn generate_random_map(
    width: u32,
    height: u32,
    building_height: u32,
    registry: &TileCollection,
    cave_seed: CaveSeedPolicy,
    max_cave_size: u32,
) -> (result: Result<GeneratedMap, GenerationError>)
    ensures
        exists|draws: Seq<u32>|
            {
                &&& draws.len() >= map_size(
                    width,
                    height,
                    building_height,
                    cave_seed,
                    max_cave_size,
                ).required_draws()
                &&& #[trigger] generated(
                    map_inputs(
                        width,
                        height,
                        building_height,
                        registry@,
                        cave_seed,
                        max_cave_size,
                        draws,
                    ),
                    result,
                )
            },
{
    match draw_count(width, height, building_height, cave_seed, max_cave_size) {
        Ok(count) => {
            let draws = fresh_draws(count);
            let result = generate_map(
                width,
                height,
                building_height,
                registry,
                cave_seed,
                max_cave_size,
                draws.as_slice(),
            );
            proof {
            }
            result
        },
        Err(error) => {
            proof {
                let needed = map_size(
                    width,
                    height,
                    building_height,
                    cave_seed,
                    max_cave_size,
                ).required_draws();
                let draws = Seq::new(
                    if needed > 0 {
                        needed as nat
                    } else {
                        0
                    },
                    |i: int| 0u32,
                );
                assert(generated(
                    map_inputs(
                        width,
                        height,
                        building_height,
                        registry@,
                        cave_seed,
                        max_cave_size,
                        draws,
                    ),
                    Err::<GeneratedMap, GenerationError>(error),
                ));
            }
            Err(error)
        },
    }
}

} // verus!
