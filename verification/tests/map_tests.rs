use terrustaria::constants::{
    BUILDING_HEIGHT, CAVE_SEED_ROWS, CAVE_WALL_INDEX, MAP_DEPTH, MAP_HEIGHT, MAP_WIDTH,
    MAX_CAVE_SIZE,
};
use terrustaria::error::GenerationError;
use terrustaria::inputs::CaveSeedPolicy;
use terrustaria::map::{
    draw_count, generate_map, generate_random_map, get_random_tile_type, GeneratedMap,
};
use terrustaria::rule::{Rule, TilePos};
use terrustaria::tile::{TileCollection, TileType};

const QUARTER: u32 = 1 << 30;
const HALF: u32 = 1 << 31;
const THREE_QUARTERS: u32 = 3 << 30;

fn fraction(real: f64) -> u32 {
    (real * 4294967296.0) as u32
}

fn grass_only() -> TileCollection {
    TileCollection::from_types(vec![TileType::new(
        String::from("Grass"),
        1,
        0,
        Rule::Anywhere,
    )])
    .unwrap()
}

fn dirt_and_shallow_stone() -> TileCollection {
    TileCollection::from_types(vec![
        TileType::new(String::from("Dirt"), 3, 0, Rule::Anywhere),
        TileType::new(String::from("Stone"), 1, 1, Rule::RowRange { from: 0, to: 1 }),
    ])
    .unwrap()
}

fn no_cave() -> CaveSeedPolicy {
    CaveSeedPolicy::Fixed(TilePos::new(0, 0))
}

fn scrambled(count: usize, start: u32) -> Vec<u32> {
    let mut state = start;
    let mut draws = Vec::with_capacity(count);
    for _ in 0..count {
        state = state.wrapping_mul(1_664_525).wrapping_add(1_013_904_223);
        draws.push(state);
    }
    draws
}

fn share_an_edge(a: &TilePos, b: &TilePos) -> bool {
    a.x.abs_diff(b.x) + a.y.abs_diff(b.y) == 1
}

fn tiles_of(map: &GeneratedMap) -> Vec<Option<usize>> {
    let mut tiles = Vec::new();
    for x in 0..map.width() {
        for y in 0..map.height() {
            tiles.push(map.get(&TilePos::new(x, y)));
        }
    }
    tiles
}

fn assert_standard_map_is_sound(map: &GeneratedMap, tiles: &TileCollection) {
    assert_eq!(map.width(), MAP_WIDTH);
    assert_eq!(map.height(), MAP_HEIGHT);
    let cave = map.cave();
    assert!(!cave.is_empty());
    assert!(cave[0].x < MAP_WIDTH && cave[0].y < CAVE_SEED_ROWS);
    assert!(cave.len() <= 4 * MAX_CAVE_SIZE as usize + 1);
    for j in 1..cave.len() {
        assert!(cave[..j].iter().any(|earlier| share_an_edge(earlier, &cave[j])));
        assert!(!cave[..j].contains(&cave[j]));
        assert!(tiles.stone_tile().is_valid(&cave[j]));
    }
    for x in 0..MAP_WIDTH {
        for y in 0..MAP_HEIGHT {
            let pos = TilePos::new(x, y);
            match map.get(&pos) {
                Some(choice) => {
                    assert!(y < MAP_DEPTH);
                    assert!(choice < tiles.len());
                    if cave.contains(&pos) {
                        assert_eq!(choice, CAVE_WALL_INDEX);
                    } else {
                        assert!(tiles.at(choice).is_valid(&pos));
                    }
                }
                None => assert!(y >= MAP_DEPTH),
            }
        }
    }
}

#[test]
fn one_type_fills_the_whole_map() {
    let tiles = grass_only();
    let draws = scrambled(100, 7);
    let map = generate_map(10, 10, 0, &tiles, no_cave(), 0, &draws).unwrap();
    assert_eq!(map.width(), 10);
    assert_eq!(map.height(), 10);
    assert!(map.cave().is_empty());
    for x in 0..10 {
        for y in 0..10 {
            let choice = map.get(&TilePos::new(x, y)).unwrap();
            assert_eq!(choice, 0);
            assert_eq!(tiles.at(choice).get_name(), "Grass");
        }
    }
}

#[test]
fn one_type_fills_the_whole_map_from_fresh_draws() {
    let tiles = grass_only();
    let map = generate_random_map(10, 10, 0, &tiles, no_cave(), 0).unwrap();
    assert_eq!(tiles_of(&map), vec![Some(0); 100]);
}

#[test]
fn cells_outside_the_map_hold_nothing() {
    let tiles = grass_only();
    let map = generate_map(10, 10, 0, &tiles, no_cave(), 0, &[0; 100]).unwrap();
    assert_eq!(map.get(&TilePos::new(10, 0)), None);
    assert_eq!(map.get(&TilePos::new(0, 10)), None);
    assert_eq!(map.get(&TilePos::new(u32::MAX, u32::MAX)), None);
}

#[test]
fn draw_selects_by_weight() {
    let tiles = TileCollection::from_types(vec![
        TileType::new(String::from("Common"), 60, 0, Rule::Anywhere),
        TileType::new(String::from("Scarce"), 30, 1, Rule::Anywhere),
        TileType::new(String::from("Rare"), 10, 2, Rule::Anywhere),
    ])
    .unwrap();
    let pos = TilePos::new(3, 3);
    assert_eq!(get_random_tile_type(&tiles, &pos, fraction(0.0)), Some(0));
    assert_eq!(get_random_tile_type(&tiles, &pos, fraction(0.3)), Some(0));
    assert_eq!(get_random_tile_type(&tiles, &pos, fraction(0.599)), Some(0));
    assert_eq!(get_random_tile_type(&tiles, &pos, fraction(0.601)), Some(1));
    assert_eq!(get_random_tile_type(&tiles, &pos, fraction(0.75)), Some(1));
    assert_eq!(get_random_tile_type(&tiles, &pos, fraction(0.899)), Some(1));
    assert_eq!(get_random_tile_type(&tiles, &pos, fraction(0.901)), Some(2));
    assert_eq!(get_random_tile_type(&tiles, &pos, u32::MAX), Some(2));
}

#[test]
fn draw_selects_at_the_exact_borders() {
    let tiles = TileCollection::from_types(vec![
        TileType::new(String::from("Common"), 60, 0, Rule::Anywhere),
        TileType::new(String::from("Scarce"), 30, 1, Rule::Anywhere),
        TileType::new(String::from("Rare"), 10, 2, Rule::Anywhere),
    ])
    .unwrap();
    let pos = TilePos::new(0, 0);
    // 0.6 and 0.9 of the resolution are 2576980377.6 and 3865470566.4.
    assert_eq!(get_random_tile_type(&tiles, &pos, 2_576_980_377), Some(0));
    assert_eq!(get_random_tile_type(&tiles, &pos, 2_576_980_378), Some(1));
    assert_eq!(get_random_tile_type(&tiles, &pos, 3_865_470_566), Some(1));
    assert_eq!(get_random_tile_type(&tiles, &pos, 3_865_470_567), Some(2));
}

#[test]
fn draw_selects_among_the_valid_types_only() {
    let tiles = TileCollection::new();
    let shallow = TilePos::new(0, 25);
    for draw in [0, QUARTER, HALF, THREE_QUARTERS, u32::MAX] {
        assert_eq!(get_random_tile_type(&tiles, &shallow, draw), Some(0));
    }
    // Rows 12 to 19: dirt 60 of 70, water 10 of 70.
    let middle = TilePos::new(0, 15);
    assert_eq!(get_random_tile_type(&tiles, &middle, fraction(0.85)), Some(0));
    assert_eq!(get_random_tile_type(&tiles, &middle, fraction(0.86)), Some(2));
    // Rows below 12: 60, 10, 10 and 1 of 81.
    let deep = TilePos::new(0, 5);
    assert_eq!(get_random_tile_type(&tiles, &deep, fraction(0.74)), Some(0));
    assert_eq!(get_random_tile_type(&tiles, &deep, fraction(0.75)), Some(1));
    assert_eq!(get_random_tile_type(&tiles, &deep, fraction(0.87)), Some(2));
    assert_eq!(get_random_tile_type(&tiles, &deep, fraction(0.99)), Some(3));
}

#[test]
fn draw_selects_nothing_where_no_type_is_valid() {
    let tiles = TileCollection::new();
    assert_eq!(get_random_tile_type(&tiles, &TilePos::new(64, 0), 0), None);
    assert_eq!(get_random_tile_type(&tiles, &TilePos::new(0, 47), HALF), None);
}

#[test]
fn fill_reads_one_draw_for_each_cell_column_by_column() {
    let tiles = dirt_and_shallow_stone();
    // Two columns of two minable rows under a building band of one row.
    let draws = [THREE_QUARTERS, THREE_QUARTERS, 0, THREE_QUARTERS];
    let map = generate_map(2, 3, 1, &tiles, no_cave(), 0, &draws).unwrap();
    assert_eq!(map.get(&TilePos::new(0, 0)), Some(1));
    assert_eq!(map.get(&TilePos::new(0, 1)), Some(0));
    assert_eq!(map.get(&TilePos::new(1, 0)), Some(0));
    assert_eq!(map.get(&TilePos::new(1, 1)), Some(0));
    assert_eq!(map.get(&TilePos::new(0, 2)), None);
    assert_eq!(map.get(&TilePos::new(1, 2)), None);
}

#[test]
fn building_band_stays_empty() {
    let tiles = grass_only();
    let map = generate_map(4, 6, 2, &tiles, no_cave(), 0, &[0; 16]).unwrap();
    for x in 0..4 {
        for y in 0..4 {
            assert_eq!(map.get(&TilePos::new(x, y)), Some(0));
        }
        for y in 4..6 {
            assert_eq!(map.get(&TilePos::new(x, y)), None);
        }
    }
}

#[test]
fn building_band_may_take_the_whole_map() {
    let tiles = grass_only();
    let map = generate_map(4, 6, 6, &tiles, no_cave(), 0, &[]).unwrap();
    assert_eq!(tiles_of(&map), vec![None; 24]);
}

#[test]
fn cave_cells_hold_the_wall_type() {
    let tiles = dirt_and_shallow_stone();
    let seed = CaveSeedPolicy::Fixed(TilePos::new(1, 0));
    let mut draws = vec![0u32; 12];
    draws[10] = THREE_QUARTERS;
    let map = generate_map(4, 3, 1, &tiles, seed, 1, &draws).unwrap();
    assert_eq!(
        map.cave(),
        &vec![TilePos::new(1, 0), TilePos::new(0, 0), TilePos::new(2, 0)]
    );
    assert_eq!(
        tiles_of(&map),
        vec![
            Some(1),
            Some(0),
            None,
            Some(1),
            Some(0),
            None,
            Some(1),
            Some(0),
            None,
            Some(1),
            Some(0),
            None
        ]
    );
}

#[test]
fn cave_cells_are_not_filled_again() {
    let tiles = dirt_and_shallow_stone();
    let seed = CaveSeedPolicy::Fixed(TilePos::new(1, 0));
    // The draws of the cave cells would select dirt; the cave keeps them.
    let draws = vec![0u32; 12];
    let map = generate_map(4, 3, 1, &tiles, seed, 1, &draws).unwrap();
    assert_eq!(map.get(&TilePos::new(0, 0)), Some(CAVE_WALL_INDEX));
    assert_eq!(map.get(&TilePos::new(1, 0)), Some(CAVE_WALL_INDEX));
    assert_eq!(map.get(&TilePos::new(2, 0)), Some(CAVE_WALL_INDEX));
    assert_eq!(map.get(&TilePos::new(3, 0)), Some(0));
}

#[test]
fn random_seed_is_read_off_the_first_two_draws() {
    let tiles = TileCollection::from_types(vec![
        TileType::new(String::from("Dirt"), 1, 0, Rule::Anywhere),
        TileType::new(String::from("Stone"), 1, 1, Rule::Anywhere),
    ])
    .unwrap();
    let policy = CaveSeedPolicy::Random { rows: 2 };
    let mut draws = vec![u32::MAX; 2 + 4 + 48];
    draws[0] = HALF;
    draws[1] = 0;
    let map = generate_map(8, 6, 0, &tiles, policy, 1, &draws).unwrap();
    assert_eq!(
        map.cave(),
        &vec![
            TilePos::new(4, 0),
            TilePos::new(3, 0),
            TilePos::new(5, 0),
            TilePos::new(4, 1)
        ]
    );
    draws[0] = u32::MAX;
    draws[1] = u32::MAX;
    let map = generate_map(8, 6, 0, &tiles, policy, 1, &draws).unwrap();
    assert_eq!(map.cave()[0], TilePos::new(7, 1));
}

#[test]
fn cave_may_reach_into_the_building_band() {
    let tiles = TileCollection::from_types(vec![
        TileType::new(String::from("Dirt"), 1, 0, Rule::Anywhere),
        TileType::new(String::from("Stone"), 1, 1, Rule::Anywhere),
    ])
    .unwrap();
    let seed = CaveSeedPolicy::Fixed(TilePos::new(1, 1));
    let map = generate_map(3, 3, 1, &tiles, seed, 1, &[0; 10]).unwrap();
    assert_eq!(map.get(&TilePos::new(1, 2)), Some(CAVE_WALL_INDEX));
    assert_eq!(map.get(&TilePos::new(0, 2)), None);
    assert_eq!(map.get(&TilePos::new(2, 2)), None);
}

#[test]
fn same_draws_give_the_same_map() {
    let tiles = TileCollection::new();
    let policy = CaveSeedPolicy::Random { rows: CAVE_SEED_ROWS };
    let count =
        draw_count(MAP_WIDTH, MAP_HEIGHT, BUILDING_HEIGHT, policy, MAX_CAVE_SIZE).unwrap();
    let draws = scrambled(count, 2024);
    let first =
        generate_map(MAP_WIDTH, MAP_HEIGHT, BUILDING_HEIGHT, &tiles, policy, MAX_CAVE_SIZE, &draws)
            .unwrap();
    let second =
        generate_map(MAP_WIDTH, MAP_HEIGHT, BUILDING_HEIGHT, &tiles, policy, MAX_CAVE_SIZE, &draws)
            .unwrap();
    assert_eq!(first.cave(), second.cave());
    assert_eq!(tiles_of(&first), tiles_of(&second));
}

#[test]
fn draws_past_those_needed_change_nothing() {
    let tiles = dirt_and_shallow_stone();
    let short = [THREE_QUARTERS, 0, 0, 0];
    let long = [THREE_QUARTERS, 0, 0, 0, THREE_QUARTERS, THREE_QUARTERS];
    let a = generate_map(2, 2, 0, &tiles, no_cave(), 0, &short).unwrap();
    let b = generate_map(2, 2, 0, &tiles, no_cave(), 0, &long).unwrap();
    assert_eq!(tiles_of(&a), tiles_of(&b));
}

#[test]
fn standard_map_from_scripted_draws_is_sound() {
    let tiles = TileCollection::new();
    let policy = CaveSeedPolicy::Random { rows: CAVE_SEED_ROWS };
    for start in [1, 2, 3, 0xDEAD_BEEF] {
        let draws = scrambled(2 + 600 + 64 * 32, start);
        let map = generate_map(
            MAP_WIDTH,
            MAP_HEIGHT,
            BUILDING_HEIGHT,
            &tiles,
            policy,
            MAX_CAVE_SIZE,
            &draws,
        )
        .unwrap();
        assert_standard_map_is_sound(&map, &tiles);
    }
}

#[test]
fn standard_map_from_fresh_draws_is_sound() {
    let tiles = TileCollection::new();
    let policy = CaveSeedPolicy::Random { rows: CAVE_SEED_ROWS };
    for _ in 0..5 {
        let map = generate_random_map(
            MAP_WIDTH,
            MAP_HEIGHT,
            BUILDING_HEIGHT,
            &tiles,
            policy,
            MAX_CAVE_SIZE,
        )
        .unwrap();
        assert_standard_map_is_sound(&map, &tiles);
    }
}

#[test]
fn fresh_draws_give_varied_maps() {
    let tiles = TileCollection::new();
    let policy = CaveSeedPolicy::Random { rows: CAVE_SEED_ROWS };
    let first = generate_random_map(64, 47, 15, &tiles, policy, 150).unwrap();
    let mut varied = false;
    for _ in 0..4 {
        let next = generate_random_map(64, 47, 15, &tiles, policy, 150).unwrap();
        varied = varied || tiles_of(&next) != tiles_of(&first);
    }
    assert!(varied);
}

#[test]
fn draw_count_adds_seed_cave_and_fill_draws() {
    let random = CaveSeedPolicy::Random { rows: 10 };
    let fixed = CaveSeedPolicy::Fixed(TilePos::new(0, 0));
    assert_eq!(draw_count(64, 47, 15, random, 150), Ok(2 + 600 + 2048));
    assert_eq!(draw_count(64, 47, 15, fixed, 150), Ok(600 + 2048));
    assert_eq!(draw_count(64, 47, 15, random, 1000), Ok(2 + 600 + 2048));
    assert_eq!(draw_count(64, 47, 15, random, 3), Ok(2 + 12 + 2048));
    assert_eq!(draw_count(64, 47, 15, random, 0), Ok(2048));
    assert_eq!(draw_count(10, 10, 0, fixed, 0), Ok(100));
    assert_eq!(draw_count(10, 10, 10, fixed, 0), Ok(0));
}

#[test]
fn draw_count_refuses_bad_dimensions() {
    let fixed = CaveSeedPolicy::Fixed(TilePos::new(0, 0));
    assert_eq!(draw_count(0, 10, 0, fixed, 0), Err(GenerationError::ZeroSizedMap));
    assert_eq!(draw_count(10, 0, 0, fixed, 0), Err(GenerationError::ZeroSizedMap));
    assert_eq!(draw_count(10, 10, 11, fixed, 0), Err(GenerationError::BuildingAreaTooTall));
}

#[test]
fn zero_sized_map_is_refused() {
    let tiles = grass_only();
    let wide = generate_map(0, 10, 0, &tiles, no_cave(), 0, &[0; 100]);
    assert_eq!(wide.err(), Some(GenerationError::ZeroSizedMap));
    let tall = generate_map(10, 0, 0, &tiles, no_cave(), 0, &[0; 100]);
    assert_eq!(tall.err(), Some(GenerationError::ZeroSizedMap));
    let random = generate_random_map(0, 0, 0, &tiles, no_cave(), 0);
    assert_eq!(random.err(), Some(GenerationError::ZeroSizedMap));
}

#[test]
fn building_band_taller_than_the_map_is_refused() {
    let tiles = grass_only();
    let result = generate_map(10, 10, 11, &tiles, no_cave(), 0, &[0; 100]);
    assert_eq!(result.err(), Some(GenerationError::BuildingAreaTooTall));
    let random = generate_random_map(10, 10, 11, &tiles, no_cave(), 0);
    assert_eq!(random.err(), Some(GenerationError::BuildingAreaTooTall));
}

#[test]
fn map_beyond_the_address_space_is_refused() {
    let tiles = grass_only();
    let result = generate_map(u32::MAX, u32::MAX, 0, &tiles, no_cave(), 0, &[0; 4]);
    if usize::BITS >= 64 {
        assert_eq!(result.err(), Some(GenerationError::NotEnoughDraws));
    } else {
        assert_eq!(result.err(), Some(GenerationError::MapTooLarge));
    }
}

#[test]
fn too_few_draws_are_refused() {
    let tiles = grass_only();
    let result = generate_map(10, 10, 0, &tiles, no_cave(), 0, &[0; 99]);
    assert_eq!(result.err(), Some(GenerationError::NotEnoughDraws));
    let two_types = dirt_and_shallow_stone();
    let seed = CaveSeedPolicy::Random { rows: 1 };
    let result = generate_map(2, 2, 0, &two_types, seed, 1, &[0; 9]);
    assert_eq!(result.err(), Some(GenerationError::NotEnoughDraws));
    assert!(generate_map(2, 2, 0, &two_types, seed, 1, &[0; 10]).is_ok());
}

#[test]
fn cave_without_a_wall_type_is_refused() {
    let tiles = grass_only();
    let seed = CaveSeedPolicy::Fixed(TilePos::new(5, 5));
    let result = generate_map(10, 10, 0, &tiles, seed, 1, &[0; 104]);
    assert_eq!(result.err(), Some(GenerationError::MissingCaveWall));
    let random = generate_random_map(10, 10, 0, &tiles, seed, 1);
    assert_eq!(random.err(), Some(GenerationError::MissingCaveWall));
}

#[test]
fn seed_outside_the_map_is_refused() {
    let tiles = dirt_and_shallow_stone();
    let outside = TilePos::new(10, 3);
    let result = generate_map(10, 10, 0, &tiles, CaveSeedPolicy::Fixed(outside), 1, &[0; 104]);
    assert_eq!(result.err(), Some(GenerationError::SeedOutOfBounds(outside)));
    let band = CaveSeedPolicy::Random { rows: 20 };
    let mut draws = vec![0u32; 106];
    draws[1] = u32::MAX;
    let result = generate_map(10, 10, 0, &tiles, band, 1, &draws);
    assert_eq!(result.err(), Some(GenerationError::SeedOutOfBounds(TilePos::new(0, 19))));
}

#[test]
fn seed_is_not_checked_where_no_cave_is_carved() {
    let tiles = grass_only();
    let outside = CaveSeedPolicy::Fixed(TilePos::new(99, 99));
    assert!(generate_map(10, 10, 0, &tiles, outside, 0, &[0; 100]).is_ok());
}

#[test]
fn cell_without_a_valid_type_fails_the_generation() {
    let tiles = TileCollection::from_types(vec![TileType::new(
        String::from("Bedrock"),
        1,
        0,
        Rule::RowRange { from: 0, to: 1 },
    )])
    .unwrap();
    let result = generate_map(2, 2, 0, &tiles, no_cave(), 0, &[0; 4]);
    assert_eq!(result.err(), Some(GenerationError::DegenerateRegistry(TilePos::new(0, 1))));
    let random = generate_random_map(2, 2, 0, &tiles, no_cave(), 0);
    assert_eq!(random.err(), Some(GenerationError::DegenerateRegistry(TilePos::new(0, 1))));
}

#[test]
fn first_cell_without_a_valid_type_is_reported() {
    let tiles = TileCollection::from_types(vec![TileType::new(
        String::from("Strip"),
        1,
        0,
        Rule::ColumnRange { from: 0, to: 2 },
    )])
    .unwrap();
    let result = generate_map(4, 3, 0, &tiles, no_cave(), 0, &[0; 12]);
    assert_eq!(result.err(), Some(GenerationError::DegenerateRegistry(TilePos::new(2, 0))));
}

#[test]
fn seed_cell_needs_no_valid_type() {
    let tiles = TileCollection::from_types(vec![
        TileType::new(String::from("Dirt"), 1, 0, Rule::RowRange { from: 1, to: 2 }),
        TileType::new(String::from("Stone"), 1, 1, Rule::ColumnRange { from: 5, to: 6 }),
    ])
    .unwrap();
    // No type is valid at (0, 0); a cave seeded there lets the map pass.
    let seed = CaveSeedPolicy::Fixed(TilePos::new(0, 0));
    let map = generate_map(1, 2, 0, &tiles, seed, 1, &[0; 6]).unwrap();
    assert_eq!(map.cave(), &vec![TilePos::new(0, 0)]);
    assert_eq!(tiles_of(&map), vec![Some(1), Some(0)]);
    let uncovered = generate_map(1, 2, 0, &tiles, seed, 0, &[0; 2]);
    assert_eq!(
        uncovered.err(),
        Some(GenerationError::DegenerateRegistry(TilePos::new(0, 0)))
    );
}

#[test]
fn standard_map_wider_than_the_standard_rules_fails() {
    let tiles = TileCollection::new();
    let draws = vec![0u32; 65 * 32];
    let result = generate_map(65, 47, 15, &tiles, no_cave(), 0, &draws);
    assert_eq!(result.err(), Some(GenerationError::DegenerateRegistry(TilePos::new(64, 0))));
}
