use rust_ttd::world::{World, Tile, TileContent, TerrainType, IndustryType, Town, Industry, terrain_for_roll, industry_type_for_roll, grow_population};
use rust_ttd::economy::{Economy, EconomicState, multiplier, scale_price, economic_state_for_roll};
use rust_ttd::cargo::{CargoType, CargoAmounts};
use rust_ttd::geometry::{distance_milli, isqrt};

#[test]
fn rolls_choose_terrain_and_industries() {
    assert_eq!(terrain_for_roll(0), TerrainType::Grass);
    assert_eq!(terrain_for_roll(60), TerrainType::Grass);
    assert_eq!(terrain_for_roll(61), TerrainType::Forest);
    assert_eq!(terrain_for_roll(75), TerrainType::Water);
    assert_eq!(terrain_for_roll(85), TerrainType::Mountain);
    assert_eq!(terrain_for_roll(99), TerrainType::Desert);
    assert_eq!(industry_type_for_roll(0), IndustryType::CoalMine);
    assert_eq!(industry_type_for_roll(3), IndustryType::Factory);
    assert_eq!(industry_type_for_roll(7), IndustryType::Refinery);
}

#[test]
fn towns_grow_by_their_rate() {
    assert_eq!(grow_population(1000, 150), 1015);
    assert_eq!(grow_population(999, 10), 999);
    assert_eq!(grow_population(u32::MAX, 200), u32::MAX);
}

#[test]
fn distances_are_in_thousandths() {
    assert_eq!(distance_milli((0, 0), (3, 4)), 5000);
    assert_eq!(distance_milli((2, 2), (2, 2)), 0);
    assert_eq!(distance_milli((0, 0), (1, 1)), 1414);
    assert_eq!(isqrt(99), 9);
}

#[test]
fn new_world_has_the_requested_size() {
    let w = World::new(30, 20);
    assert_eq!((w.width, w.height), (30, 20));
    assert_eq!(w.tiles.len(), 20);
    assert!(w.tiles.iter().all(|row| row.len() == 30));
    assert!(w.get_tile(29, 19).is_some());
    assert!(w.get_tile(30, 0).is_none());
}

#[test]
fn set_tile_content_replaces_only_that_tile() {
    let mut w = World::new(10, 10);
    w.set_tile_content(3, 4, TileContent::Road);
    assert!(matches!(w.get_tile(3, 4).unwrap().content, TileContent::Road));
    assert_eq!(w.get_ascii_char(3, 4), '.');
    w.set_tile_content(30, 4, TileContent::Road);
    assert_eq!(w.width, 10);
}

#[test]
fn prices_follow_distance_and_state() {
    let mut e = Economy::new();
    assert_eq!(e.get_cargo_price(&CargoType::Passengers, 0), 5000);
    assert_eq!(e.get_cargo_price(&CargoType::Passengers, 20000), 6000);
    assert_eq!(e.get_cargo_price(&CargoType::Passengers, 90000), 7500);
    e.economic_state = EconomicState::Boom;
    assert_eq!(e.get_cargo_price(&CargoType::Goods, 50000), 27000);
    e.economic_state = EconomicState::Recession;
    assert_eq!(e.get_cargo_price(&CargoType::Coal, 0), 2400);
    assert_eq!(e.calculate_delivery_payment(&CargoType::Coal, 10, 0), 24);
}

#[test]
fn multipliers_stay_between_half_and_one_and_a_half() {
    assert_eq!(multiplier(0, 10), 1500);
    assert_eq!(multiplier(1000, 1000), 1000);
    assert_eq!(multiplier(1000, 100), 500);
    assert_eq!(multiplier(100, 1000), 1500);
    assert_eq!(multiplier(800, 1000), 1250);
    assert_eq!(scale_price(5000, 1020), 5100);
    assert_eq!(scale_price(u64::MAX, 2000), u64::MAX);
}

#[test]
fn state_rolls() {
    assert_eq!(economic_state_for_roll(0), EconomicState::Boom);
    assert_eq!(economic_state_for_roll(2), EconomicState::Boom);
    assert_eq!(economic_state_for_roll(3), EconomicState::Stable);
    assert_eq!(economic_state_for_roll(7), EconomicState::Recession);
}

#[test]
fn a_new_economy_reports_its_start() {
    let e = Economy::new();
    let report = e.get_economic_report();
    assert_eq!(report.economic_state, EconomicState::Stable);
    assert_eq!(report.inflation_rate, 20);
    assert_eq!(report.month, 0);
    let info = e.get_market_info(&CargoType::Mail);
    assert_eq!((info.current_price, info.supply, info.demand), (8000, 1000, 1000));
}

fn flat_world(width: usize, height: usize) -> World {
    let mut tiles = Vec::new();
    for _ in 0..height {
        let mut row = Vec::new();
        for _ in 0..width {
            row.push(Tile { terrain: TerrainType::Grass, content: TileContent::Empty, height: 0 });
        }
        tiles.push(row);
    }
    World { width, height, tiles, towns: Vec::new(), industries: Vec::new(), stations: Vec::new() }
}

#[test]
fn a_month_raises_prices_by_inflation() {
    let mut e = Economy::new();
    let mut w = flat_world(4, 4);
    for _ in 0..30 {
        e.update(&mut w);
    }
    assert_eq!(e.month, 30);
    let info = e.get_market_info(&CargoType::Passengers);
    assert_eq!((info.supply, info.demand), (1000, 1000));
    assert_eq!(info.current_price, 5100);
}

#[test]
fn a_world_tick_grows_towns_and_fills_industries() {
    let mut w = flat_world(4, 4);
    w.set_tile_content(1, 1, TileContent::Town(Town {
        name: "Ayton".to_string(),
        population: 1000,
        growth_rate: 150,
        cargo_demand: CargoAmounts::new(),
        cargo_supply: CargoAmounts::new(),
    }));
    w.set_tile_content(2, 3, TileContent::Industry(Industry {
        industry_type: IndustryType::CoalMine,
        production_rate: 20,
        cargo_input: vec![],
        cargo_output: vec![CargoType::Coal],
        stockpile: CargoAmounts::new(),
    }));
    w.towns = vec![(1, 1), (1, 1), (3, 9)];
    w.industries = vec![(2, 3)];
    w.update();
    match &w.get_tile(1, 1).unwrap().content {
        TileContent::Town(t) => {
            assert_eq!(t.population, 1030);
            assert_eq!(t.name, "Ayton");
        }
        _ => panic!("the town is gone"),
    }
    match &w.get_tile(2, 3).unwrap().content {
        TileContent::Industry(i) => assert_eq!(i.stockpile.amount(CargoType::Coal), 20),
        _ => panic!("the industry is gone"),
    }
    assert!(matches!(w.get_tile(0, 0).unwrap().content, TileContent::Empty));
}

#[test]
fn state_prices_keep_their_proportions_to_a_thousandth() {
    let mut e = Economy::new();
    e.cargo_prices[0] = 5002;
    let stable = e.get_cargo_price(&CargoType::Passengers, 6083);
    e.economic_state = EconomicState::Boom;
    let boom = e.get_cargo_price(&CargoType::Passengers, 6083);
    e.economic_state = EconomicState::Recession;
    let recession = e.get_cargo_price(&CargoType::Passengers, 6083);
    assert_eq!(stable, 5306);
    assert_eq!(boom, 6367);
    assert_eq!(recession, 4245);
    assert!(6 * stable - 4 <= 5 * boom && 5 * boom <= 6 * stable + 5);
    assert!(4 * stable - 4 <= 5 * recession && 5 * recession <= 4 * stable + 3);
    assert_eq!(scale_price(5306, 1020), 5412);
}

#[test]
fn a_new_world_always_has_a_town_or_an_industry() {
    for &(w, h) in &[(1usize, 1usize), (2, 1), (5, 3), (80, 40)] {
        for _ in 0..20 {
            let world = World::new(w, h);
            assert!(world.towns.len() + world.industries.len() >= 1);
            assert!(world.towns.len() <= 5 && world.industries.len() <= 8);
            for &(x, y) in &world.towns {
                assert!(matches!(world.get_tile(x, y).unwrap().content, TileContent::Town(_)));
            }
            for &(x, y) in &world.industries {
                assert!(matches!(world.get_tile(x, y).unwrap().content, TileContent::Industry(_)));
            }
        }
    }
}
