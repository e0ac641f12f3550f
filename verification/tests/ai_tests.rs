use rust_ttd::ai::{AIPlayer, AIDifficulty, AIStrategy, AITarget, AITargetType};
use rust_ttd::world::{World, Tile, TileContent, TerrainType, Town};
use rust_ttd::economy::Economy;
use rust_ttd::cargo::{CargoType, CargoAmounts};
use rust_ttd::vehicle::{VehicleType, TruckType, TrainEngine};
use rust_ttd::player::Route;

fn flat_world(width: usize, height: usize) -> World {
    let mut tiles = Vec::new();
    for _ in 0..height {
        let mut row = Vec::new();
        for _ in 0..width {
            row.push(Tile { terrain: TerrainType::Grass, content: TileContent::Empty, height: 0 });
        }
        tiles.push(row);
    }
    World { width, height, tiles, towns: Vec::new(), industries: Vec::new(), stations: Vec::new() }
}

fn town(population: u32) -> TileContent {
    TileContent::Town(Town {
        name: "Town".to_string(),
        population,
        growth_rate: 0,
        cargo_demand: CargoAmounts::new(),
        cargo_supply: CargoAmounts::new(),
    })
}

#[test]
fn starting_money_follows_difficulty() {
    let easy = AIPlayer::new("E".to_string(), AIDifficulty::Easy, AIStrategy::Balanced);
    let medium = AIPlayer::new("M".to_string(), AIDifficulty::Medium, AIStrategy::Balanced);
    let hard = AIPlayer::new("H".to_string(), AIDifficulty::Hard, AIStrategy::Aggressive);
    assert_eq!(easy.player.money, 500000);
    assert_eq!(medium.player.money, 800000);
    assert_eq!(hard.player.money, 1200000);
    assert_eq!(hard.player.name, "H");
    assert_eq!(hard.decision_timer, 0);
    assert!(hard.targets.is_empty());
}

#[test]
fn a_station_target_needs_an_empty_tile_in_a_valuable_place() {
    let ai = AIPlayer::new("A".to_string(), AIDifficulty::Easy, AIStrategy::Balanced);
    let mut world = flat_world(20, 20);
    world.tiles[5][6].content = town(10000);
    let target = ai.station_target_at(5, 5, &world).unwrap();
    assert_eq!(target.priority, 100);
    assert_eq!(target.estimated_profit, 100000);
    assert_eq!(target.location, (5, 5));
    assert!(matches!(target.target_type, AITargetType::BuildStation { location: (5, 5) }));
    // the window of (1, 5) ends at column 5, and that of (12, 5) starts at column 7
    assert!(ai.station_target_at(1, 5, &world).is_none());
    assert!(ai.station_target_at(12, 5, &world).is_none());
    assert!(ai.station_target_at(11, 5, &world).is_some());
    // the town's own tile is not empty
    assert!(ai.station_target_at(6, 5, &world).is_none());
    // a neighbourhood worth exactly 50000 is not enough
    world.tiles[5][6].content = town(5000);
    assert!(ai.station_target_at(5, 5, &world).is_none());
}

#[test]
fn the_window_reaches_five_back_and_four_ahead() {
    let ai = AIPlayer::new("A".to_string(), AIDifficulty::Easy, AIStrategy::Balanced);
    let mut world = flat_world(20, 20);
    world.tiles[0][0].content = town(6000);
    assert_eq!(ai.station_target_at(5, 5, &world).unwrap().estimated_profit, 60000);
    assert!(ai.station_target_at(6, 5, &world).is_none());
    world.tiles[9][9].content = town(6000);
    assert_eq!(ai.station_target_at(5, 5, &world).unwrap().estimated_profit, 120000);
}

#[test]
fn duplicate_copies_a_target() {
    let t = AITarget {
        target_type: AITargetType::BuyVehicle {
            vehicle_type: VehicleType::Road { truck_type: TruckType::Bus { capacity: 40 } },
        },
        priority: 12,
        estimated_profit: 345,
        location: (6, 7),
    };
    let d = t.duplicate();
    assert_eq!((d.priority, d.estimated_profit, d.location), (12, 345, (6, 7)));
    match d.target_type {
        AITargetType::BuyVehicle { vehicle_type: VehicleType::Road { truck_type: TruckType::Bus { capacity } } } => assert_eq!(capacity, 40),
        _ => panic!("wrong copy"),
    }
}

fn decide(strategy: AIStrategy) -> AIPlayer {
    let mut ai = AIPlayer::new("A".to_string(), AIDifficulty::Hard, strategy);
    ai.decision_timer = 99;
    let mut world = flat_world(12, 12);
    let mut economy = Economy::new();
    ai.update(&mut world, &mut economy);
    ai
}

#[test]
fn a_balanced_company_buys_the_last_of_equal_vehicles() {
    let ai = decide(AIStrategy::Balanced);
    assert_eq!(ai.decision_timer, 0);
    assert_eq!(ai.player.game_time, 1);
    assert_eq!(ai.last_action, 1);
    assert_eq!(ai.targets.len(), 2);
    assert_eq!(ai.player.vehicles.len(), 1);
    match ai.player.vehicles[0].vehicle_type {
        VehicleType::Road { truck_type: TruckType::LargeTruck { capacity } } => assert_eq!(capacity, 60),
        _ => panic!("wrong vehicle"),
    }
    assert_eq!((ai.player.vehicles[0].x, ai.player.vehicles[0].y), (0, 0));
}

#[test]
fn an_aggressive_company_buys_its_train() {
    let ai = decide(AIStrategy::Aggressive);
    assert_eq!(ai.targets.len(), 1);
    assert_eq!(ai.targets[0].priority, 100);
    assert_eq!(ai.targets[0].estimated_profit, 657000);
    match &ai.player.vehicles[0].vehicle_type {
        VehicleType::Train { engine: TrainEngine::Diesel { power, .. }, cars } => {
            assert_eq!(*power, 2000);
            assert_eq!(cars.len(), 2);
        },
        _ => panic!("wrong vehicle"),
    }
}

#[test]
fn a_specialist_buys_for_its_cargo() {
    let ai = decide(AIStrategy::Specialist { focus: CargoType::Passengers });
    match ai.player.vehicles[0].vehicle_type {
        VehicleType::Road { truck_type: TruckType::Bus { capacity } } => assert_eq!(capacity, 50),
        _ => panic!("wrong vehicle"),
    }
    let ai = decide(AIStrategy::Specialist { focus: CargoType::Coal });
    match ai.player.vehicles[0].vehicle_type {
        VehicleType::Road { truck_type: TruckType::LargeTruck { capacity } } => assert_eq!(capacity, 80),
        _ => panic!("wrong vehicle"),
    }
}

#[test]
fn no_decision_before_it_is_due() {
    let mut ai = AIPlayer::new("A".to_string(), AIDifficulty::Easy, AIStrategy::Conservative);
    let mut world = flat_world(5, 5);
    let mut economy = Economy::new();
    ai.update(&mut world, &mut economy);
    assert_eq!(ai.decision_timer, 1);
    assert!(ai.player.vehicles.is_empty());
    assert!(ai.targets.is_empty());
}

#[test]
fn a_poor_company_plans_no_purchases() {
    let mut ai = AIPlayer::new("A".to_string(), AIDifficulty::Hard, AIStrategy::Conservative);
    ai.player.money = 150000;
    ai.decision_timer = 99;
    let mut world = flat_world(6, 6);
    let mut economy = Economy::new();
    ai.update(&mut world, &mut economy);
    assert!(ai.targets.is_empty());
    assert!(ai.player.vehicles.is_empty());
    assert_eq!(ai.last_action, 0);
}

#[test]
fn routes_an_ai_draws_keep_their_stops_and_cargo() {
    let mut ai = AIPlayer::new("A".to_string(), AIDifficulty::Hard, AIStrategy::Balanced);
    let mut world = flat_world(48, 4);
    world.industries = vec![(0, 0)];
    world.towns = vec![(39, 0)];
    ai.player.money = 150000;
    let mut economy = Economy::new();
    for _ in 0..300 {
        ai.update(&mut world, &mut economy);
    }
    assert!(!ai.player.routes.is_empty());
    assert_eq!(ai.player.routes[0].stations, vec![(0, 0), (39, 0)]);
    assert_eq!(ai.player.routes[0].cargo_types, vec![CargoType::Goods]);
    for route in &ai.player.routes {
        assert!(!route.stations.is_empty());
        assert!(!route.cargo_types.is_empty());
    }
}

fn route(id: u32, stations: Vec<(usize, usize)>, cargo_types: Vec<CargoType>, profit: i64) -> Route {
    Route { id, name: "R".to_string(), stations, vehicle_ids: Vec::new(), cargo_types, profit }
}

#[test]
fn a_route_not_worth_expanding_needs_no_stop() {
    let mut ai = AIPlayer::new("A".to_string(), AIDifficulty::Hard, AIStrategy::Conservative);
    ai.player.routes.push(route(0, Vec::new(), Vec::new(), 100000));
    ai.decision_timer = 99;
    let mut world = flat_world(6, 6);
    let mut economy = Economy::new();
    assert!(ai.can_tick(&world));
    assert!(ai.try_update(&mut world, &mut economy));
    assert_eq!(ai.decision_timer, 0);
    assert_eq!(ai.player.game_time, 1);
}

#[test]
fn a_route_worth_expanding_without_a_stop_stops_before_the_decision() {
    let mut ai = AIPlayer::new("A".to_string(), AIDifficulty::Hard, AIStrategy::Conservative);
    ai.player.routes.push(route(0, Vec::new(), vec![CargoType::Coal], 100001));
    ai.decision_timer = 99;
    let mut world = flat_world(6, 6);
    let mut economy = Economy::new();
    assert!(ai.can_tick(&world));
    assert!(!ai.try_update(&mut world, &mut economy));
    assert_eq!(ai.decision_timer, 100);
    assert_eq!(ai.player.game_time, 1);
    assert!(ai.targets.is_empty());
    assert_eq!(ai.last_action, 0);
}

#[test]
fn a_route_worth_expanding_is_read_only_on_a_decision_tick() {
    let mut ai = AIPlayer::new("A".to_string(), AIDifficulty::Hard, AIStrategy::Conservative);
    ai.player.routes.push(route(0, Vec::new(), vec![CargoType::Coal], 100001));
    ai.decision_timer = 5;
    let mut world = flat_world(6, 6);
    let mut economy = Economy::new();
    assert!(ai.try_update(&mut world, &mut economy));
    assert_eq!(ai.decision_timer, 6);
}

#[test]
fn a_route_worth_expanding_with_its_stop_and_cargo_lets_the_decision_run() {
    let mut ai = AIPlayer::new("A".to_string(), AIDifficulty::Hard, AIStrategy::Conservative);
    ai.player.money = 150000;
    ai.player.routes.push(route(0, vec![(1, 1), (4, 4)], vec![CargoType::Coal], 100001));
    ai.decision_timer = 99;
    let mut world = flat_world(6, 6);
    let mut economy = Economy::new();
    assert!(ai.try_update(&mut world, &mut economy));
    assert_eq!(ai.decision_timer, 0);
    assert_eq!(ai.targets.len(), 1);
    assert!(matches!(ai.targets[0].target_type, AITargetType::ExpandExistingRoute { route_id: 0 }));
    assert_eq!(ai.targets[0].estimated_profit, 200002);
    assert_eq!(ai.targets[0].priority, 20);
    assert_eq!(ai.targets[0].location, (1, 1));
}

#[test]
fn a_chosen_route_without_cargo_stops_the_decision() {
    let mut ai = AIPlayer::new("A".to_string(), AIDifficulty::Hard, AIStrategy::Conservative);
    ai.player.money = 190000;
    ai.player.routes.push(route(7, vec![(2, 3)], Vec::new(), 100001));
    ai.decision_timer = 99;
    let mut world = flat_world(6, 6);
    let mut economy = Economy::new();
    assert!(!ai.try_update(&mut world, &mut economy));
    assert_eq!(ai.decision_timer, 100);
    assert_eq!(ai.targets.len(), 1);
    assert!(matches!(ai.targets[0].target_type, AITargetType::ExpandExistingRoute { route_id: 7 }));
    assert_eq!(ai.targets[0].location, (2, 3));
    assert!(ai.player.vehicles.is_empty());
    assert_eq!(ai.player.money, 190000);
    assert_eq!(ai.last_action, 0);
}

#[test]
fn a_route_without_cargo_that_is_not_chosen_lets_the_decision_run() {
    let mut ai = AIPlayer::new("A".to_string(), AIDifficulty::Hard, AIStrategy::Conservative);
    ai.player.money = 150000;
    ai.player.routes.push(route(7, vec![(2, 3)], Vec::new(), 100001));
    ai.decision_timer = 99;
    let mut world = flat_world(6, 6);
    let mut economy = Economy::new();
    assert!(ai.try_update(&mut world, &mut economy));
    assert_eq!(ai.decision_timer, 0);
    assert_eq!(ai.targets.len(), 1);
    assert!(ai.player.vehicles.is_empty());
}
