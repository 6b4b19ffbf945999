//! The catalog of tile types: relative weights, textures and positional
//! validity, and the weighted choice among the types valid at a cell.

use vstd::prelude::*;
use vstd::set_lib::{lemma_int_range, set_int_range};

use crate::constants::{
    CAVE_WALL_INDEX, DIAMOND_OFFSET, DIRT_OFFSET, MAP_HEIGHT, MAP_WIDTH, STONE_OFFSET,
    TEXTURES_PER_TILE, WATER_OFFSET,
};
use crate::rule::{Rule, TilePos};

verus! {

/// Index of a texture in the tile strip.
#[derive(Clone, Copy, Debug, PartialEq, Eq, Structural)]
pub struct TileTextureIndex(pub u32);

/// What a hit does to a tile.
#[derive(Clone, Copy, Debug, PartialEq, Eq, Structural)]
pub enum Hit {
    /// The tile stays and shows the texture of its next damage stage.
    Worn(TileTextureIndex),
    /// The tile was at its last damage stage and is destroyed.
    Broken,
}

/// What a hit does to a tile that shows the texture `index`: the textures
/// of a tile kind follow each other in the strip, and the tile breaks when
/// it is hit at the last of them.
pub open spec fn hit_outcome(index: TileTextureIndex) -> Hit {
    if index.0 % TEXTURES_PER_TILE == TEXTURES_PER_TILE - 1 {
        Hit::Broken
    } else {
        Hit::Worn(TileTextureIndex((index.0 + 1) as u32))
    }
}

/// Hits a tile that shows the texture `index`.
pub fn hit_tile(index: TileTextureIndex) -> (outcome: Hit)
    requires
        index.0 < u32::MAX,
    ensures
        outcome == hit_outcome(index),
{
    if index.0 % TEXTURES_PER_TILE == TEXTURES_PER_TILE - 1 {
        Hit::Broken
    } else {
        Hit::Worn(TileTextureIndex(index.0 + 1))
    }
}

/// A kind of terrain: a name, a relative weight, the texture it is drawn
/// with and the rule that says which cells it may occupy.
#[derive(Debug)]
pub struct TileType {
    name: String,
    rarity: u64,
    texture_index: TileTextureIndex,
    valid: Rule,
}

impl TileType {
    /// The name of the type.
    pub closed spec fn name(&self) -> Seq<char> {
        self.name@
    }

    /// The relative weight of the type: larger is more common.
    pub closed spec fn weight(&self) -> nat {
        self.rarity as nat
    }

    /// The index of the intact texture of the type.
    pub closed spec fn texture(&self) -> u32 {
        self.texture_index.0
    }

    /// The validity rule of the type.
    pub closed spec fn rule(&self) -> Rule {
        self.valid
    }

    /// Whether the type may occupy the cell `pos`.
    pub open spec fn valid_at(&self, pos: TilePos) -> bool {
        self.rule().holds(pos.x, pos.y)
    }

    /// A tile type whose textures start at position `tile_offset` of the
    /// tile strip.
    pub fn new(name: String, rarity: u64, tile_offset: u32, valid: Rule) -> (tile: Self)
        requires
            tile_offset * TEXTURES_PER_TILE <= u32::MAX,
        ensures
            tile.name() == name@,
            tile.weight() == rarity,
            tile.texture() == tile_offset * TEXTURES_PER_TILE,
            tile.rule() == valid,
    {
        Self {
            name,
            rarity,
            texture_index: TileTextureIndex(tile_offset * TEXTURES_PER_TILE),
            valid,
        }
    }

    /// The name of the type.
    pub fn get_name(&self) -> (name: &str)
        ensures
            name@ == self.name(),
    {
        self.name.as_str()
    }

    /// The relative weight of the type.
    pub fn get_rarity(&self) -> (rarity: u64)
        ensures
            rarity == self.weight(),
    {
        self.rarity
    }

    /// The index of the intact texture of the type.
    pub fn get_texture_index(&self) -> (index: TileTextureIndex)
        ensures
            index.0 == self.texture(),
    {
        self.texture_index
    }

    /// Decides whether the type may occupy the cell `pos`.
    pub fn is_valid(&self, pos: &TilePos) -> (b: bool)
        ensures
            b == self.valid_at(*pos),
    {
        self.valid.accepts(pos.x, pos.y)
    }
}

/// The sum of the weights of the first `n` types.
pub open spec fn weight_before(types: Seq<TileType>, n: int) -> nat
    decreases n,
{
    if n <= 0 {
        0
    } else {
        weight_before(types, n - 1) + types[n - 1].weight()
    }
}

/// The sum of the weights of all types.
pub open spec fn total_weight(types: Seq<TileType>) -> nat {
    weight_before(types, types.len() as int)
}

/// The sum of the weights of those among the first `n` types that are valid
/// at `pos`.
pub open spec fn valid_weight_before(types: Seq<TileType>, pos: TilePos, n: int) -> nat
    decreases n,
{
    if n <= 0 {
        0
    } else {
        valid_weight_before(types, pos, n - 1) + if types[n - 1].valid_at(pos) {
            types[n - 1].weight()
        } else {
            0
        }
    }
}

/// The sum of the weights of the types that are valid at `pos`.
pub open spec fn valid_weight_sum(types: Seq<TileType>, pos: TilePos) -> nat {
    valid_weight_before(types, pos, types.len() as int)
}

/// Whether the value `r` falls to type `i` at `pos`: the valid types
/// partition the values below the valid weight sum into consecutive
/// intervals, in catalog order, each as long as the weight of its type.
pub open spec fn selects(types: Seq<TileType>, pos: TilePos, r: nat, i: int) -> bool {
    &&& 0 <= i < types.len()
    &&& types[i].valid_at(pos)
    &&& valid_weight_before(types, pos, i) <= r
    &&& r < valid_weight_before(types, pos, i) + types[i].weight()
}

/// The type to which the value `r` falls at `pos`.
pub open spec fn selection(types: Seq<TileType>, pos: TilePos, r: nat) -> int {
    choose|i: int| selects(types, pos, r, i)
}

/// Whether every type has a weight above 0.
pub open spec fn weights_positive(types: Seq<TileType>) -> bool {
    forall|i: int| 0 <= i < types.len() ==> (#[trigger] types[i]).weight() > 0
}

/// What makes a sequence of tile types a catalog: it has at least one
/// type, every weight is above 0, and the weights can be summed in 64 bits.
pub open spec fn well_formed(types: Seq<TileType>) -> bool {
    &&& types.len() > 0
    &&& weights_positive(types)
    &&& total_weight(types) <= u64::MAX
}

/// The weight sums grow with the number of types counted.
pub proof fn lemma_weight_before_monotonic(types: Seq<TileType>, pos: TilePos, m: int, n: int)
    requires
        m <= n,
    ensures
        weight_before(types, m) <= weight_before(types, n),
        valid_weight_before(types, pos, m) <= valid_weight_before(types, pos, n),
        valid_weight_before(types, pos, n) <= weight_before(types, n),
    decreases n,
{
    if n > 0 {
        if m < n {
            lemma_weight_before_monotonic(types, pos, m, n - 1);
        } else {
            lemma_weight_before_monotonic(types, pos, n - 1, n - 1);
        }
    }
}

/// At most one type is selected by a value.
pub proof fn lemma_selection_unique(types: Seq<TileType>, pos: TilePos, r: nat, i: int, j: int)
    requires
        selects(types, pos, r, i),
        selects(types, pos, r, j),
    ensures
        i == j,
{
    if i < j {
        lemma_weight_before_monotonic(types, pos, i + 1, j);
    } else if j < i {
        lemma_weight_before_monotonic(types, pos, j + 1, i);
    }
}

/// Every value below the valid weight sum selects a type, and no other
/// value does.
pub proof fn lemma_selection_exists(types: Seq<TileType>, pos: TilePos, r: nat)
    ensures
        r < valid_weight_sum(types, pos) <==> selects(types, pos, r, selection(types, pos, r)),
{
    if r < valid_weight_sum(types, pos) {
        let i = lemma_selection_within(types, pos, r, types.len() as int);
    } else if selects(types, pos, r, selection(types, pos, r)) {
        let i = selection(types, pos, r);
        lemma_weight_before_monotonic(types, pos, i + 1, types.len() as int);
    }
}

/// A value below the weight of the first `n` types selects one of them.
proof fn lemma_selection_within(types: Seq<TileType>, pos: TilePos, r: nat, n: int) -> (i: int)
    requires
        0 <= n <= types.len(),
        r < valid_weight_before(types, pos, n),
    ensures
        0 <= i < n,
        selects(types, pos, r, i),
    decreases n,
{
    if r < valid_weight_before(types, pos, n - 1) {
        lemma_selection_within(types, pos, r, n - 1)
    } else {
        n - 1
    }
}

/// The values that fall to the type `i` at `pos`.
pub open spec fn selecting_values(types: Seq<TileType>, pos: TilePos, i: int) -> Set<int> {
    Set::new(|r: int| r >= 0 && selects(types, pos, r as nat, i))
}

/// The share of a type in the selection is its weight: of the values below
/// the valid weight sum, as many fall to a type that is valid at the cell
/// as its weight says, and none to a type that is not.
pub proof fn lemma_selection_share(types: Seq<TileType>, pos: TilePos, i: int)
    requires
        0 <= i < types.len(),
    ensures
        selecting_values(types, pos, i).finite(),
        selecting_values(types, pos, i).len() == if types[i].valid_at(pos) {
            types[i].weight()
        } else {
            0
        },
        forall|r: int| #[trigger]
            selecting_values(types, pos, i).contains(r) ==> 0 <= r < valid_weight_sum(types, pos),
{
    let first = valid_weight_before(types, pos, i) as int;
    let share = if types[i].valid_at(pos) {
        types[i].weight() as int
    } else {
        0
    };
    lemma_int_range(first, first + share);
    assert(selecting_values(types, pos, i) =~= set_int_range(first, first + share));
    lemma_weight_before_monotonic(types, pos, i + 1, types.len() as int);
}

/// In a catalog a cell has weight exactly where a type is valid.
pub proof fn lemma_weight_where_valid(types: Seq<TileType>, pos: TilePos)
    requires
        weights_positive(types),
    ensures
        valid_weight_sum(types, pos) > 0 <==> exists|i: int|
            0 <= i < types.len() && (#[trigger] types[i]).valid_at(pos),
{
    if valid_weight_sum(types, pos) > 0 {
        let i = lemma_selection_within(types, pos, 0, types.len() as int);
    }
    if exists|i: int| 0 <= i < types.len() && (#[trigger] types[i]).valid_at(pos) {
        let i = choose|i: int| 0 <= i < types.len() && (#[trigger] types[i]).valid_at(pos);
        lemma_weight_before_monotonic(types, pos, i + 1, types.len() as int);
    }
}

/// Why a sequence of tile types is no catalog.
#[derive(Clone, Copy, Debug, PartialEq, Eq, Structural)]
pub enum RegistryError {
    /// The sequence holds no type.
    Empty,
    /// A type has weight 0.
    ZeroRarity,
    /// The weights sum to more than 64 bits hold.
    WeightOverflow,
}

/// The error with which a sequence of tile types is refused as a catalog,
/// if it is.
pub open spec fn registry_error(types: Seq<TileType>) -> Option<RegistryError> {
    if types.len() == 0 {
        Some(RegistryError::Empty)
    } else if !weights_positive(types) {
        Some(RegistryError::ZeroRarity)
    } else if total_weight(types) > u64::MAX {
        Some(RegistryError::WeightOverflow)
    } else {
        None
    }
}

/// The ordered catalog of tile types.
#[derive(Debug)]
pub struct TileCollection {
    types: Vec<TileType>,
}

impl View for TileCollection {
    type V = Seq<TileType>;

    closed spec fn view(&self) -> Seq<TileType> {
        self.types@
    }
}

impl TileCollection {
    #[verifier::type_invariant]
    spec fn inv(&self) -> bool {
        well_formed(self.types@)
    }

    /// The catalog of the standard world: dirt everywhere, stone and
    /// diamond in the twelve lowest rows, water in the twenty lowest rows,
    /// each inside the standard map only.
    pub fn new() -> (catalog: Self)
        ensures
            catalog@.len() == 4,
            catalog@[0].name() == "Dirt"@,
            catalog@[0].weight() == 60,
            catalog@[0].texture() == DIRT_OFFSET * TEXTURES_PER_TILE,
            catalog@[0].rule() == standard_rule(Rule::Anywhere),
            catalog@[1].name() == "Stone"@,
            catalog@[1].weight() == 10,
            catalog@[1].texture() == STONE_OFFSET * TEXTURES_PER_TILE,
            catalog@[1].rule() == standard_rule(Rule::RowRange { from: 0, to: 12 }),
            catalog@[2].name() == "Water"@,
            catalog@[2].weight() == 10,
            catalog@[2].texture() == WATER_OFFSET * TEXTURES_PER_TILE,
            catalog@[2].rule() == standard_rule(Rule::RowRange { from: 0, to: 20 }),
            catalog@[3].name() == "Diamond"@,
            catalog@[3].weight() == 1,
            catalog@[3].texture() == DIAMOND_OFFSET * TEXTURES_PER_TILE,
            catalog@[3].rule() == standard_rule(Rule::RowRange { from: 0, to: 12 }),
            well_formed(catalog@),
    {
        let mut types: Vec<TileType> = Vec::new();
        types.push(TileType::new("Dirt".to_owned(), 60, DIRT_OFFSET, in_standard_map(Rule::Anywhere)));
        types.push(
            TileType::new(
                "Stone".to_owned(),
                10,
                STONE_OFFSET,
                in_standard_map(Rule::RowRange { from: 0, to: 12 }),
            ),
        );
        types.push(
            TileType::new(
                "Water".to_owned(),
                10,
                WATER_OFFSET,
                in_standard_map(Rule::RowRange { from: 0, to: 20 }),
            ),
        );
        types.push(
            TileType::new(
                "Diamond".to_owned(),
                1,
                DIAMOND_OFFSET,
                in_standard_map(Rule::RowRange { from: 0, to: 12 }),
            ),
        );
        proof {
            reveal_with_fuel(weight_before, 5);
        }
        Self { types }
    }

    /// The catalog of the given types, in their order.
    pub fn from_types(types: Vec<TileType>) -> (result: Result<Self, RegistryError>)
        ensures
            match result {
                Ok(catalog) => registry_error(types@) is None && catalog@ == types@,
                Err(error) => registry_error(types@) == Some(error),
            },
    {
        if types.len() == 0 {
            return Err(RegistryError::Empty);
        }
        let mut i: usize = 0;
        while i < types.len()
            invariant
                0 <= i <= types@.len(),
                forall|j: int| 0 <= j < i ==> (#[trigger] types@[j]).weight() > 0,
            decreases types@.len() - i,
        {
            if types[i].get_rarity() == 0 {
                return Err(RegistryError::ZeroRarity);
            }
            i = i + 1;
        }
        let mut total: u64 = 0;
        let mut i: usize = 0;
        while i < types.len()
            invariant
                0 <= i <= types@.len(),
                weights_positive(types@),
                total == weight_before(types@, i as int),
            decreases types@.len() - i,
        {
            let rarity: u64 = types[i].get_rarity();
            if total > u64::MAX - rarity {
                proof {
                    lemma_weight_before_monotonic(
                        types@,
                        TilePos { x: 0, y: 0 },
                        i + 1,
                        types@.len() as int,
                    );
                }
                return Err(RegistryError::WeightOverflow);
            }
            total = total + rarity;
            i = i + 1;
        }
        Ok(Self { types })
    }

    /// The number of types in the catalog.
    pub fn len(&self) -> (n: usize)
        ensures
            n == self@.len(),
            well_formed(self@),
    {
        proof {
            use_type_invariant(self);
        }
        self.types.len()
    }

    /// The types of the catalog, in order.
    pub fn get_tiles(&self) -> (types: &Vec<TileType>)
        ensures
            types@ == self@,
    {
        &self.types
    }

    /// The type at position `idx` of the catalog.
    pub fn at(&self, idx: usize) -> (tile: &TileType)
        requires
            idx < self@.len(),
        ensures
            *tile == self@[idx as int],
    {
        &self.types[idx]
    }

    /// The type that cave interiors are made of: the second of the catalog.
    pub fn stone_tile(&self) -> (tile: &TileType)
        requires
            CAVE_WALL_INDEX < self@.len(),
        ensures
            *tile == self@[CAVE_WALL_INDEX as int],
    {
        self.at(CAVE_WALL_INDEX)
    }

    /// The sum of the weights of the types that are valid at `pos`; 0 where
    /// none is.
    pub fn rarity_sum_valid(&self, pos: &TilePos) -> (sum: u64)
        ensures
            sum == valid_weight_sum(self@, *pos),
    {
        proof {
            use_type_invariant(self);
        }
        let mut sum: u64 = 0;
        let mut i: usize = 0;
        while i < self.types.len()
            invariant
                0 <= i <= self.types@.len(),
                sum == valid_weight_before(self.types@, *pos, i as int),
                total_weight(self.types@) <= u64::MAX,
            decreases self.types@.len() - i,
        {
            proof {
                lemma_weight_before_monotonic(self.types@, *pos, i + 1, self.types@.len() as int);
            }
            if self.types[i].is_valid(pos) {
                sum = sum + self.types[i].get_rarity();
            }
            i = i + 1;
        }
        sum
    }

    /// The type to which the value `r` falls at `pos`: the first valid type,
    /// in catalog order, whose weight exceeds what is left of `r` after the
    /// weights of the valid types before it are taken off. `None` where `r`
    /// is not below the valid weight sum.
    pub fn select(&self, pos: &TilePos, r: u64) -> (choice: Option<usize>)
        ensures
            choice is Some <==> r < valid_weight_sum(self@, *pos),
            choice matches Some(i) ==> selects(self@, *pos, r as nat, i as int) && i
                == selection(self@, *pos, r as nat),
    {
        let mut rest: u64 = r;
        let mut i: usize = 0;
        while i < self.types.len()
            invariant
                0 <= i <= self.types@.len(),
                rest + valid_weight_before(self.types@, *pos, i as int) == r,
            decreases self.types@.len() - i,
        {
            if self.types[i].is_valid(pos) {
                let rarity: u64 = self.types[i].get_rarity();
                if rest < rarity {
                    proof {
                        lemma_selection_exists(self@, *pos, r as nat);
                        lemma_selection_unique(
                            self@,
                            *pos,
                            r as nat,
                            i as int,
                            selection(self@, *pos, r as nat),
                        );
                    }
                    return Some(i);
                }
                rest = rest - rarity;
            }
            i = i + 1;
        }
        proof {
        }
        None
    }
}

/// The rule `rule` restricted to the cells of the standard map.
pub open spec fn standard_rule(rule: Rule) -> Rule {
    Rule::And(Box::new(rule), Box::new(Rule::Bounds { width: MAP_WIDTH, height: MAP_HEIGHT }))
}

/// Restricts `rule` to the cells of the standard map.
fn in_standard_map(rule: Rule) -> (restricted: Rule)
    ensures
        restricted == standard_rule(rule),
{
    Rule::And(Box::new(rule), Box::new(Rule::Bounds { width: MAP_WIDTH, height: MAP_HEIGHT }))
}

} // verus!
