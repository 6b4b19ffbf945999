//! Carving of one connected cave by a randomized flood fill.
//!
//! The cave grows from a seed cell. Cells are expanded in the order in which
//! they joined the cave; an expanded cell offers each of its four orthogonal
//! neighbours, and an eligible neighbour joins with a chance that falls
//! linearly from certainty, at the first expansion, to nothing once the
//! budget of expansions is used up.

use vstd::prelude::*;

use crate::constants::{CAVE_WALL_INDEX, MAX_CAVE_SIZE};
use crate::draw::{random_in_range, scaled};
use crate::error::GenerationError;
use crate::grid::VisitedGrid;
use crate::rule::TilePos;
use crate::tile::{TileCollection, TileType};

verus! {

/// Number of neighbours that an expanded cell offers, and of draws that are
/// set aside for each expansion.
pub const SIDES: usize = 4;

/// The neighbour of `cell` on the given side: 0 is the left one, 1 the one
/// below, 2 the right one, 3 the one above. `None` where the coordinate
/// would leave the range of `u32`.
pub open spec fn neighbor_of(cell: TilePos, side: int) -> Option<TilePos> {
    if side == 0 && cell.x > 0 {
        Some(TilePos { x: (cell.x - 1) as u32, y: cell.y })
    } else if side == 1 && cell.y > 0 {
        Some(TilePos { x: cell.x, y: (cell.y - 1) as u32 })
    } else if side == 2 && cell.x < u32::MAX {
        Some(TilePos { x: (cell.x + 1) as u32, y: cell.y })
    } else if side == 3 && cell.y < u32::MAX {
        Some(TilePos { x: cell.x, y: (cell.y + 1) as u32 })
    } else {
        None
    }
}

/// Whether two cells share an edge.
pub open spec fn adjacent(a: TilePos, b: TilePos) -> bool {
    ||| a.y == b.y && (a.x + 1 == b.x || b.x + 1 == a.x)
    ||| a.x == b.x && (a.y + 1 == b.y || b.y + 1 == a.y)
}

/// The number of expansions allowed to a cave of the requested size.
pub open spec fn cave_budget(size: u32) -> nat {
    if size < MAX_CAVE_SIZE {
        size as nat
    } else {
        MAX_CAVE_SIZE as nat
    }
}

/// Of the `budget` equally likely values of a scaled draw, the number with
/// which a neighbour is accepted after `processed` expansions.
pub open spec fn acceptance_chances(budget: nat, processed: nat) -> nat {
    if processed <= budget {
        (budget - processed) as nat
    } else {
        0
    }
}

/// Whether `draw` lets a neighbour join after `processed` expansions.
pub open spec fn accepts(budget: nat, processed: nat, draw: u32) -> bool {
    scaled(budget, draw) < acceptance_chances(budget, processed)
}

/// What a carving works on and does not change.
pub struct CaveSite {
    /// The tile type whose validity rule bounds the cave.
    pub wall: TileType,
    /// The number of columns of the map.
    pub columns: u32,
    /// The number of rows of the map.
    pub rows: u32,
    /// The number of expansions allowed.
    pub budget: nat,
    /// The draws: the neighbour on side `s` of the `p`-th expanded cell is
    /// decided by the draw at `4 * p + s`.
    pub draws: Seq<u32>,
}

/// The state of a carving.
pub struct Carving {
    /// The cells of the cave, in the order in which they joined.
    pub region: Seq<TilePos>,
    /// The cells that hold a tile: those of the cave and those that held
    /// one before.
    pub visited: Set<TilePos>,
}

/// Whether `cell` may join the cave: it lies on the map, the cave wall
/// type is valid there and it holds no tile yet.
pub open spec fn eligible(site: CaveSite, state: Carving, cell: TilePos) -> bool {
    &&& cell.x < site.columns
    &&& cell.y < site.rows
    &&& site.wall.valid_at(cell)
    &&& !state.visited.contains(cell)
}

/// The state after the `processed`-th cell has offered its neighbour on
/// `side`.
pub open spec fn offer(site: CaveSite, state: Carving, processed: nat, side: int) -> Carving {
    match neighbor_of(state.region[processed as int], side) {
        Some(cell) => if eligible(site, state, cell) && accepts(
            site.budget,
            processed,
            site.draws[SIDES * processed + side],
        ) {
            Carving { region: state.region.push(cell), visited: state.visited.insert(cell) }
        } else {
            state
        },
        None => state,
    }
}

/// The state after the `processed`-th cell has offered its first `sides`
/// neighbours.
pub open spec fn offer_sides(site: CaveSite, state: Carving, processed: nat, sides: int) -> Carving
    decreases sides,
{
    if sides <= 0 {
        state
    } else {
        offer(site, offer_sides(site, state, processed, sides - 1), processed, sides - 1)
    }
}

/// The state after the `processed`-th cell has been expanded.
pub open spec fn expand(site: CaveSite, state: Carving, processed: nat) -> Carving {
    offer_sides(site, state, processed, SIDES as int)
}

/// The state in which the carving ends when it goes on from `state` with
/// `processed` cells expanded: it expands cell after cell until the budget
/// is used up or every cell of the cave has been expanded.
pub open spec fn carve_from(site: CaveSite, state: Carving, processed: nat) -> Carving
    decreases site.budget - processed,
{
    if processed < site.budget && processed < state.region.len() {
        carve_from(site, expand(site, state, processed), processed + 1)
    } else {
        state
    }
}

/// The state in which a carving from `seed` ends on a map where the cells
/// of `visited` hold a tile already.
pub open spec fn carved(site: CaveSite, visited: Set<TilePos>, seed: TilePos) -> Carving {
    carve_from(site, Carving { region: seq![seed], visited: visited.insert(seed) }, 0)
}

/// The site of a carving of the requested size with the catalog `types` on
/// a map of the given dimensions.
pub open spec fn cave_site(
    types: Seq<TileType>,
    columns: u32,
    rows: u32,
    size: u32,
    draws: Seq<u32>,
) -> CaveSite {
    CaveSite {
        wall: types[CAVE_WALL_INDEX as int],
        columns,
        rows,
        budget: cave_budget(size),
        draws,
    }
}

/// The number of draws that a carving of the requested size may consume.
pub open spec fn cave_draws(size: u32) -> nat {
    SIDES as nat * cave_budget(size)
}

/// The error with which a carving is refused, if it is.
pub open spec fn cave_error(
    types: Seq<TileType>,
    columns: u32,
    rows: u32,
    seed: TilePos,
    size: u32,
    draws: Seq<u32>,
) -> Option<GenerationError> {
    if types.len() <= CAVE_WALL_INDEX {
        Some(GenerationError::MissingCaveWall)
    } else if !(seed.x < columns && seed.y < rows) {
        Some(GenerationError::SeedOutOfBounds(seed))
    } else if draws.len() < cave_draws(size) {
        Some(GenerationError::NotEnoughDraws)
    } else {
        None
    }
}

/// Whether `cell` joined the cave by the rules: it lies on the map, the
/// cave wall type is valid there, and it held no tile before the carving.
pub open spec fn joined_by_rule(site: CaveSite, before: Set<TilePos>, cell: TilePos) -> bool {
    &&& cell.x < site.columns
    &&& cell.y < site.rows
    &&& site.wall.valid_at(cell)
    &&& !before.contains(cell)
}

/// Whether the `j`-th cell of `region` is adjacent to an earlier one.
pub open spec fn has_parent(region: Seq<TilePos>, j: int) -> bool {
    exists|k: int| 0 <= k < j && adjacent(#[trigger] region[k], region[j])
}

/// Whether `state` has the shape of a carving from `seed` on a map where
/// the cells of `before` held a tile: the seed comes first; the visited
/// cells are those of `before` and of the cave; every later cell joined by
/// the rules; no cell occurs twice; and every later cell is adjacent to a
/// cell that joined before it.
pub open spec fn rooted(site: CaveSite, before: Set<TilePos>, seed: TilePos, state: Carving) -> bool {
    &&& state.region.len() > 0
    &&& state.region[0] == seed
    &&& forall|j: int| 0 <= j < state.region.len() ==> state.visited.contains(#[trigger] state.region[j])
    &&& forall|cell: TilePos| #[trigger]
        state.visited.contains(cell) ==> before.contains(cell) || state.region.contains(cell)
    &&& forall|cell: TilePos| #[trigger] before.contains(cell) ==> state.visited.contains(cell)
    &&& forall|j: int|
        1 <= j < state.region.len() ==> joined_by_rule(site, before, #[trigger] state.region[j])
    &&& forall|i: int, j: int|
        0 <= i < j < state.region.len() ==> #[trigger] state.region[i] != #[trigger] state.region[j]
    &&& forall|j: int| 1 <= j < state.region.len() ==> #[trigger] has_parent(state.region, j)
}

/// An offer keeps the shape of a carving, keeps the cells that are in the
/// cave at their places and adds at most one.
pub proof fn lemma_offer_rooted(
    site: CaveSite,
    before: Set<TilePos>,
    seed: TilePos,
    state: Carving,
    processed: nat,
    side: int,
)
    requires
        rooted(site, before, seed, state),
        processed < state.region.len(),
    ensures
        rooted(site, before, seed, offer(site, state, processed, side)),
        state.region.len() <= offer(site, state, processed, side).region.len() <= state.region.len()
            + 1,
        offer(site, state, processed, side).region.subrange(0, state.region.len() as int)
            == state.region,
{
    let next = offer(site, state, processed, side);
    let count = state.region.len() as int;
    if next != state {
        let cell = neighbor_of(state.region[processed as int], side)->0;
        assert forall|other: TilePos| #[trigger] next.visited.contains(other) implies before.contains(
            other,
        ) || next.region.contains(other) by {
            if other == cell {
                assert(next.region[count] == other);
            } else if !before.contains(other) {
                let j = choose|j: int| 0 <= j < count && state.region[j] == other;
                assert(next.region[j] == other);
            }
        }
        assert forall|j: int| 1 <= j < next.region.len() implies #[trigger] has_parent(
            next.region,
            j,
        ) by {
            if j < count {
                assert(has_parent(state.region, j));
                let k = choose|k: int| 0 <= k < j && adjacent(#[trigger] state.region[k], state.region[j]);
                assert(adjacent(next.region[k], next.region[j]));
            } else {
                assert(adjacent(next.region[processed as int], next.region[j]));
            }
        }
    }
}

/// Offering the first `sides` neighbours keeps the shape of a carving,
/// keeps the cells that are in the cave at their places and adds at most
/// `sides`.
pub proof fn lemma_offer_sides_rooted(
    site: CaveSite,
    before: Set<TilePos>,
    seed: TilePos,
    state: Carving,
    processed: nat,
    sides: int,
)
    requires
        rooted(site, before, seed, state),
        processed < state.region.len(),
        0 <= sides,
    ensures
        rooted(site, before, seed, offer_sides(site, state, processed, sides)),
        state.region.len() <= offer_sides(site, state, processed, sides).region.len()
            <= state.region.len() + sides,
        offer_sides(site, state, processed, sides).region.subrange(0, state.region.len() as int)
            == state.region,
    decreases sides,
{
    if sides > 0 {
        let earlier = offer_sides(site, state, processed, sides - 1);
        lemma_offer_sides_rooted(site, before, seed, state, processed, sides - 1);
        lemma_offer_rooted(site, before, seed, earlier, processed, sides - 1);
    }
}

/// Going on with a carving keeps its shape, and each expansion adds at most
/// four cells.
pub proof fn lemma_carve_from_rooted(
    site: CaveSite,
    before: Set<TilePos>,
    seed: TilePos,
    state: Carving,
    processed: nat,
)
    requires
        rooted(site, before, seed, state),
        processed <= site.budget,
    ensures
        rooted(site, before, seed, carve_from(site, state, processed)),
        carve_from(site, state, processed).region.len() <= state.region.len() + SIDES * (site.budget
            - processed),
    decreases site.budget - processed,
{
    if processed < site.budget && processed < state.region.len() {
        lemma_offer_sides_rooted(site, before, seed, state, processed, SIDES as int);
        lemma_carve_from_rooted(site, before, seed, expand(site, state, processed), processed + 1);
    }
}

/// A finished carving has the shape of a carving, and holds at most four
/// cells for each expansion allowed, and the seed.
pub proof fn lemma_carved_rooted(site: CaveSite, before: Set<TilePos>, seed: TilePos)
    ensures
        rooted(site, before, seed, carved(site, before, seed)),
        carved(site, before, seed).region.len() <= SIDES * site.budget + 1,
{
    let start = Carving { region: seq![seed], visited: before.insert(seed) };
    lemma_carve_from_rooted(site, before, seed, start, 0);
}

/// Whether `path` leads from `from` to `to` through cells of `region`,
/// each step to a cell that shares an edge with the one before.
pub open spec fn walks(region: Seq<TilePos>, path: Seq<TilePos>, from: TilePos, to: TilePos) -> bool {
    &&& path.len() > 0
    &&& path[0] == from
    &&& path[path.len() - 1] == to
    &&& forall|k: int| 0 <= k < path.len() ==> region.contains(#[trigger] path[k])
    &&& forall|k: int| 0 <= k < path.len() - 1 ==> adjacent(#[trigger] path[k], path[k + 1])
}

/// Where every cell but the first is adjacent to an earlier one, a path
/// inside the region leads from the first cell to every cell.
pub proof fn lemma_path_from_first(region: Seq<TilePos>, j: int) -> (path: Seq<TilePos>)
    requires
        0 <= j < region.len(),
        forall|i: int| 1 <= i < region.len() ==> #[trigger] has_parent(region, i),
    ensures
        walks(region, path, region[0], region[j]),
    decreases j,
{
    if j == 0 {
        seq![region[0]]
    } else {
        assert(has_parent(region, j));
        let k = choose|k: int| 0 <= k < j && adjacent(#[trigger] region[k], region[j]);
        let shorter = lemma_path_from_first(region, k);
        shorter.push(region[j])
    }
}

/// Every cell of a cave is reached from the seed by a path of cells of the
/// cave in which each step goes to a cell that shares an edge with the one
/// before; and no cell occurs twice in the cave.
pub proof fn lemma_cave_connected(site: CaveSite, before: Set<TilePos>, seed: TilePos, j: int)
    requires
        0 <= j < carved(site, before, seed).region.len(),
    ensures
        exists|path: Seq<TilePos>|
            walks(
                carved(site, before, seed).region,
                path,
                seed,
                carved(site, before, seed).region[j],
            ),
        forall|i: int|
            0 <= i < carved(site, before, seed).region.len() && i != j ==> carved(
                site,
                before,
                seed,
            ).region[i] != carved(site, before, seed).region[j],
{
    lemma_carved_rooted(site, before, seed);
    let region = carved(site, before, seed).region;
    let path = lemma_path_from_first(region, j);
}

/// The chance that a neighbour is accepted falls with every expansion: a
/// draw that is accepted later is accepted earlier too, the number of
/// accepted values falls strictly until the budget is used up, every draw
/// is accepted before the first expansion, and none once the budget is
/// used up.
pub proof fn lemma_acceptance_decays(budget: nat, earlier: nat, later: nat, draw: u32)
    requires
        earlier <= later,
    ensures
        accepts(budget, later, draw) ==> accepts(budget, earlier, draw),
        acceptance_chances(budget, later) <= acceptance_chances(budget, earlier),
        earlier < later <= budget ==> acceptance_chances(budget, later) < acceptance_chances(
            budget,
            earlier,
        ),
        acceptance_chances(budget, 0) == budget,
        acceptance_chances(budget, budget) == 0,
        budget > 0 ==> accepts(budget, 0, draw),
        !accepts(budget, budget, draw),
{
    crate::draw::lemma_scaled_below(budget, draw);
}

/// The neighbour of `cell` on the given side.
pub fn neighbor(cell: &TilePos, side: usize) -> (next: Option<TilePos>)
    ensures
        next == neighbor_of(*cell, side as int),
{
    if side == 0 && cell.x > 0 {
        Some(TilePos { x: cell.x - 1, y: cell.y })
    } else if side == 1 && cell.y > 0 {
        Some(TilePos { x: cell.x, y: cell.y - 1 })
    } else if side == 2 && cell.x < u32::MAX {
        Some(TilePos { x: cell.x + 1, y: cell.y })
    } else if side == 3 && cell.y < u32::MAX {
        Some(TilePos { x: cell.x, y: cell.y + 1 })
    } else {
        None
    }
}

/// Decides whether `draw` lets a neighbour join a cave of the given budget
/// after `processed` expansions.
pub fn accepts_neighbor(budget: u32, processed: u32, draw: u32) -> (b: bool)
    ensures
        b == accepts(budget as nat, processed as nat, draw),
{
    if processed <= budget {
        random_in_range(budget as u64, draw) < (budget - processed) as u64
    } else {
        false
    }
}

/// Carves a cave from `start_pos` on the map that `visited` describes and
/// returns its cells in the order in which they joined, the seed first.
///
/// The cave expands at most `size` cells, and at most `MAX_CAVE_SIZE`; each
/// expansion may add up to four cells, so the cave may hold more cells
/// than it expands. The seed and every cell that joins are marked in
/// `visited`. Every cell after the seed is adjacent to one that joined
/// before it, and no cell occurs twice. The carving is refused, and
/// `visited` left as it was, where the catalog has no cave wall type, the
/// seed is no cell of the map, or `draws` holds fewer than four draws for
/// each expansion allowed.
pub fn create_cave(
    tile_types: &TileCollection,
    visited: &mut VisitedGrid,
    start_pos: TilePos,
    size: u32,
    draws: &[u32],
) -> (result: Result<Vec<TilePos>, GenerationError>)
    ensures
        final(visited).columns() == old(visited).columns(),
        final(visited).rows() == old(visited).rows(),
        match result {
            Ok(region) => {
                let site = cave_site(
                    tile_types@,
                    old(visited).columns(),
                    old(visited).rows(),
                    size,
                    draws@,
                );
                let cave = carved(site, old(visited)@, start_pos);
                &&& cave_error(
                    tile_types@,
                    old(visited).columns(),
                    old(visited).rows(),
                    start_pos,
                    size,
                    draws@,
                ) is None
                &&& region@ == cave.region
                &&& final(visited)@ == cave.visited
                &&& rooted(site, old(visited)@, start_pos, cave)
                &&& region@.len() <= SIDES * cave_budget(size) + 1
            },
            Err(error) => {
                &&& cave_error(
                    tile_types@,
                    old(visited).columns(),
                    old(visited).rows(),
                    start_pos,
                    size,
                    draws@,
                ) == Some(error)
                &&& final(visited)@ == old(visited)@
            },
        },
{
    if tile_types.len() <= CAVE_WALL_INDEX {
        return Err(GenerationError::MissingCaveWall);
    }
    if !visited.contains(&start_pos) {
        return Err(GenerationError::SeedOutOfBounds(start_pos));
    }
    let budget: u32 = if size < MAX_CAVE_SIZE {
        size
    } else {
        MAX_CAVE_SIZE
    };
    if draws.len() < SIDES * (budget as usize) {
        return Err(GenerationError::NotEnoughDraws);
    }
    let ghost site = cave_site(tile_types@, visited.columns(), visited.rows(), size, draws@);
    let ghost goal = carved(site, visited@, start_pos);
    let wall = tile_types.stone_tile();
    let mut in_cave: Vec<TilePos> = Vec::new();
    in_cave.push(start_pos);
    visited.mark(&start_pos);
    let mut processed: usize = 0;
    while processed < in_cave.len() && processed < budget as usize
        invariant
            site == cave_site(
                tile_types@,
                old(visited).columns(),
                old(visited).rows(),
                size,
                draws@,
            ),
            visited.columns() == site.columns,
            visited.rows() == site.rows,
            *wall == site.wall,
            budget == site.budget,
            budget <= MAX_CAVE_SIZE,
            draws@.len() >= SIDES * budget,
            processed <= budget,
            carve_from(site, Carving { region: in_cave@, visited: visited@ }, processed as nat)
                == goal,
        decreases budget - processed,
    {
        let cell = in_cave[processed];
        let ghost start = Carving { region: in_cave@, visited: visited@ };
        let mut side: usize = 0;
        while side < SIDES
            invariant
                visited.columns() == site.columns,
                visited.rows() == site.rows,
                *wall == site.wall,
                budget == site.budget,
                budget <= MAX_CAVE_SIZE,
                draws@ == site.draws,
                draws@.len() >= SIDES * budget,
                processed < budget,
                processed < in_cave@.len(),
                in_cave@[processed as int] == cell,
                0 <= side <= SIDES,
                (Carving { region: in_cave@, visited: visited@ }) == offer_sides(
                    site,
                    start,
                    processed as nat,
                    side as int,
                ),
            decreases SIDES - side,
        {
            match neighbor(&cell, side) {
                Some(next) => {
                    if visited.contains(&next) && wall.is_valid(&next) && !visited.is_visited(&next)
                        && accepts_neighbor(
                        budget,
                        processed as u32,
                        draws[SIDES * processed + side],
                    ) {
                        visited.mark(&next);
                        in_cave.push(next);
                    }
                },
                None => {},
            }
            side = side + 1;
        }
        processed = processed + 1;
    }
    proof {
        lemma_carved_rooted(site, old(visited)@, start_pos);
    }
    Ok(in_cave)
}

} // verus!
