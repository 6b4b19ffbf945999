//! Positions of the tile grid and the rules that say where a tile type may
//! stand.

use vstd::prelude::*;

verus! {

/// A cell of the tile grid: column `x`, row `y`.
#[derive(Clone, Copy, Debug, PartialEq, Eq, Hash, Structural)]
pub struct TilePos {
    pub x: u32,
    pub y: u32,
}

impl TilePos {
    /// The cell in column `x` and row `y`.
    pub fn new(x: u32, y: u32) -> (pos: TilePos)
        ensures
            pos == (TilePos { x, y }),
    {
        TilePos { x, y }
    }
}

/// A positional validity rule: a decidable set of grid cells.
#[derive(Debug)]
pub enum Rule {
    /// Every cell.
    Anywhere,
    /// The cells of the rows `from <= y < to`.
    RowRange { from: u32, to: u32 },
    /// The cells of the columns `from <= x < to`.
    ColumnRange { from: u32, to: u32 },
    /// The cells whose coordinates sum to an even number (`even`) or to an
    /// odd one (`!even`).
    Parity { even: bool },
    /// The cells of a map of the given size: `x < width` and `y < height`.
    Bounds { width: u32, height: u32 },
    /// The cells that both rules contain.
    And(Box<Rule>, Box<Rule>),
}

impl Rule {
    /// Whether the rule contains the cell `(x, y)`.
    pub open spec fn holds(self, x: u32, y: u32) -> bool
        decreases self,
    {
        match self {
            Rule::Anywhere => true,
            Rule::RowRange { from, to } => from <= y < to,
            Rule::ColumnRange { from, to } => from <= x < to,
            Rule::Parity { even } => ((x + y) % 2 == 0) == even,
            Rule::Bounds { width, height } => x < width && y < height,
            Rule::And(left, right) => left.holds(x, y) && right.holds(x, y),
        }
    }

    /// Decides whether the rule contains the cell `(x, y)`.
    pub fn accepts(&self, x: u32, y: u32) -> (b: bool)
        ensures
            b == self.holds(x, y),
        decreases self,
    {
        match self {
            Rule::Anywhere => true,
            Rule::RowRange { from, to } => *from <= y && y < *to,
            Rule::ColumnRange { from, to } => *from <= x && x < *to,
            Rule::Parity { even } => {
                let sum: u64 = x as u64 + y as u64;
                (sum % 2 == 0) == *even
            },
            Rule::Bounds { width, height } => x < *width && y < *height,
            Rule::And(left, right) => left.accepts(x, y) && right.accepts(x, y),
        }
    }
}

} // verus!
