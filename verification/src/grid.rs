//! The grid of cells that already hold a tile.

use vstd::prelude::*;

use crate::rule::TilePos;

verus! {

/// Position of the cell `(x, y)` in a column-by-column layout of a grid
/// with `height` rows.
pub open spec fn cell_index(x: int, y: int, height: int) -> int {
    x * height + y
}

/// The cells of a `width` by `height` grid have their indices below
/// `width * height`.
pub proof fn lemma_cell_index_bounds(x: int, y: int, width: int, height: int)
    requires
        0 <= x < width,
        0 <= y < height,
    ensures
        0 <= cell_index(x, y, height) < width * height,
        0 <= x * height <= cell_index(x, y, height),
{
    assert(0 <= x * height && x * height + height <= width * height) by (nonlinear_arith)
        requires
            0 <= x < width,
            0 < height,
    ;
}

/// Distinct cells have distinct indices.
pub proof fn lemma_cell_index_injective(x1: int, y1: int, x2: int, y2: int, height: int)
    requires
        0 <= y1 < height,
        0 <= y2 < height,
        cell_index(x1, y1, height) == cell_index(x2, y2, height),
    ensures
        x1 == x2,
        y1 == y2,
{
    assert(x1 == x2) by (nonlinear_arith)
        requires
            0 <= y1 < height,
            0 <= y2 < height,
            x1 * height + y1 == x2 * height + y2,
    ;
}

/// The number of cells of a `width` by `height` grid, where it is a
/// `usize`.
pub fn cell_count(width: u32, height: u32) -> (count: Option<usize>)
    ensures
        count is Some <==> width * height <= usize::MAX,
        count matches Some(n) ==> n == width * height,
{
    assert(width * height <= 0xFFFF_FFFF * 0xFFFF_FFFF) by (nonlinear_arith)
        requires
            0 <= width <= 0xFFFF_FFFF,
            0 <= height <= 0xFFFF_FFFF,
    ;
    let cells: u64 = (width as u64) * (height as u64);
    if cells <= usize::MAX as u64 {
        Some(cells as usize)
    } else {
        None
    }
}

/// The position of the cell `(x, y)` in the column-by-column layout of a
/// `width` by `height` grid.
pub fn cell_offset(x: u32, y: u32, width: u32, height: u32) -> (index: usize)
    requires
        x < width,
        y < height,
        width * height <= usize::MAX,
    ensures
        index == cell_index(x as int, y as int, height as int),
        index < width * height,
{
    proof {
        lemma_cell_index_bounds(x as int, y as int, width as int, height as int);
    }
    let column: usize = x as usize;
    let rows: usize = height as usize;
    let row: usize = y as usize;
    column * rows + row
}

/// A set of cells of a grid of fixed size: those that have received a tile.
#[derive(Debug)]
pub struct VisitedGrid {
    width: u32,
    height: u32,
    cells: Vec<bool>,
}

impl View for VisitedGrid {
    type V = Set<TilePos>;

    /// The visited cells.
    closed spec fn view(&self) -> Set<TilePos> {
        Set::new(
            |pos: TilePos|
                pos.x < self.width && pos.y < self.height && self.cells@[cell_index(
                    pos.x as int,
                    pos.y as int,
                    self.height as int,
                )],
        )
    }
}

impl VisitedGrid {
    #[verifier::type_invariant]
    spec fn inv(&self) -> bool {
        self.cells@.len() == self.width * self.height <= usize::MAX
    }

    /// The number of columns.
    pub closed spec fn columns(&self) -> u32 {
        self.width
    }

    /// The number of rows.
    pub closed spec fn rows(&self) -> u32 {
        self.height
    }

    /// Whether `pos` is a cell of the grid.
    pub open spec fn has_cell(&self, pos: TilePos) -> bool {
        pos.x < self.columns() && pos.y < self.rows()
    }

    /// A grid of the given size with no cell visited; `None` where the
    /// number of cells is no `usize`.
    pub fn new(width: u32, height: u32) -> (grid: Option<Self>)
        ensures
            grid is Some <==> width * height <= usize::MAX,
            grid matches Some(g) ==> g.columns() == width && g.rows() == height && g@
                == Set::<TilePos>::empty(),
    {
        match cell_count(width, height) {
            Some(count) => {
                let cells: Vec<bool> = vec![false; count];
                let grid = VisitedGrid { width, height, cells };
                assert(grid@ =~= Set::<TilePos>::empty()) by {
                    assert forall|pos: TilePos| !grid@.contains(pos) by {
                        if pos.x < width && pos.y < height {
                            lemma_cell_index_bounds(
                                pos.x as int,
                                pos.y as int,
                                width as int,
                                height as int,
                            );
                        }
                    }
                }
                Some(grid)
            },
            None => None,
        }
    }

    /// The position of the cell `pos` in the column-by-column layout.
    fn index_of(&self, pos: &TilePos) -> (index: usize)
        requires
            self.has_cell(*pos),
        ensures
            index == cell_index(pos.x as int, pos.y as int, self.height as int),
            index < self.cells@.len(),
    {
        proof {
            use_type_invariant(self);
        }
        cell_offset(pos.x, pos.y, self.width, self.height)
    }

    /// The number of columns.
    pub fn width(&self) -> (width: u32)
        ensures
            width == self.columns(),
    {
        self.width
    }

    /// The number of rows.
    pub fn height(&self) -> (height: u32)
        ensures
            height == self.rows(),
    {
        self.height
    }

    /// Whether `pos` is a cell of the grid.
    pub fn contains(&self, pos: &TilePos) -> (b: bool)
        ensures
            b == self.has_cell(*pos),
    {
        pos.x < self.width && pos.y < self.height
    }

    /// Whether the cell `pos` is visited; `false` outside the grid.
    pub fn is_visited(&self, pos: &TilePos) -> (b: bool)
        ensures
            b == self@.contains(*pos),
    {
        if pos.x < self.width && pos.y < self.height {
            let index = self.index_of(pos);
            self.cells[index]
        } else {
            false
        }
    }

    /// Marks the cell `pos` as visited; outside the grid nothing changes.
    pub fn mark(&mut self, pos: &TilePos)
        ensures
            final(self).columns() == old(self).columns(),
            final(self).rows() == old(self).rows(),
            final(self)@ == if old(self).has_cell(*pos) {
                old(self)@.insert(*pos)
            } else {
                old(self)@
            },
    {
        if pos.x < self.width && pos.y < self.height {
            let index = self.index_of(pos);
            proof {
                use_type_invariant(&*self);
            }
            self.cells[index] = true;
            proof {
                let height = self.height as int;
                assert forall|other: TilePos|
                    self@.contains(other) == old(self)@.insert(*pos).contains(other) by {
                    if other.x < self.width && other.y < self.height && other != *pos {
                        lemma_cell_index_bounds(
                            other.x as int,
                            other.y as int,
                            self.width as int,
                            height,
                        );
                        if cell_index(other.x as int, other.y as int, height) == index {
                            lemma_cell_index_injective(
                                other.x as int,
                                other.y as int,
                                pos.x as int,
                                pos.y as int,
                                height,
                            );
                        }
                    }
                }
            }
        }
    }
}

} // verus!
