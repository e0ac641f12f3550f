use rust_ttd::vehicle::{Vehicle, VehicleType, VehicleState, TrainEngine, TrainCar, TruckType, ShipType, PlaneType};
use rust_ttd::player::Player;
use rust_ttd::world::{World, Tile, TileContent, TerrainType};
use rust_ttd::economy::Economy;
use rust_ttd::cargo::CargoType;

fn flat_world(width: usize, height: usize) -> World {
    let mut tiles = Vec::new();
    for _ in 0..height {
        let mut row = Vec::new();
        for _ in 0..width {
            row.push(Tile { terrain: TerrainType::Grass, content: TileContent::Empty, height: 0 });
        }
        tiles.push(row);
    }
    World { width, height, tiles, towns: Vec::new(), industries: Vec::new(), stations: Vec::new() }
}

fn bus() -> VehicleType {
    VehicleType::Road { truck_type: TruckType::Bus { capacity: 40 } }
}

fn steam_train() -> VehicleType {
    VehicleType::Train {
        engine: TrainEngine::Steam { power: 1000, reliability: 70 },
        cars: vec![
            TrainCar::Passenger { capacity: 40 },
            TrainCar::Freight { capacity: 30, cargo_type: Some(CargoType::Coal) },
            TrainCar::Mail { capacity: 20 },
        ],
    }
}

#[test]
fn a_new_vehicle_takes_its_type_figures() {
    let v = Vehicle::new(7, bus(), 3, 4);
    assert_eq!(v.id, 7);
    assert_eq!((v.x, v.y), (3, 4));
    assert_eq!(v.speed, 85);
    assert_eq!(v.reliability, 88);
    assert_eq!(v.age, 0);
    assert!(matches!(v.state, VehicleState::Idle));
    assert_eq!(v.get_capacity(), 40);
    let t = Vehicle::new(1, steam_train(), 0, 0);
    assert_eq!((t.speed, t.reliability), (60, 70));
    assert_eq!(t.get_capacity(), 90);
}

#[test]
fn purchase_costs_follow_the_type() {
    assert_eq!(Vehicle::get_purchase_cost(&bus()), 120000);
    assert_eq!(Vehicle::get_purchase_cost(&steam_train()), 220000);
    assert_eq!(Vehicle::get_purchase_cost(&VehicleType::Road { truck_type: TruckType::SmallTruck { capacity: 10 } }), 75000);
    assert_eq!(Vehicle::get_purchase_cost(&VehicleType::Ship { ship_type: ShipType::CargoShip { capacity: 500 } }), 500000);
    assert_eq!(Vehicle::get_purchase_cost(&VehicleType::Aircraft { plane_type: PlaneType::LargePlane { capacity: 300, range: 5000 } }), 10000000);
}

#[test]
fn running_costs_grow_with_age_and_wear() {
    let mut v = Vehicle::new(0, bus(), 0, 0);
    assert_eq!(v.get_running_costs(), 224);
    v.age = 365;
    assert_eq!(v.get_running_costs(), 246);
    v.reliability = 250;
    assert_eq!(v.get_running_costs(), 0);
}

#[test]
fn value_falls_with_age_to_a_fifth() {
    let mut v = Vehicle::new(0, bus(), 0, 0);
    assert_eq!(v.get_current_value(), 120000);
    v.age = 365;
    assert_eq!(v.get_current_value(), 102000);
    v.age = 10000;
    assert_eq!(v.get_current_value(), 24000);
}

#[test]
fn route_distance_and_delivery_profit() {
    let mut v = Vehicle::new(0, bus(), 0, 0);
    assert_eq!(v.calculate_route_distance(), 0);
    v.assign_route(vec![(0, 0), (3, 4), (3, 0)]);
    assert_eq!(v.calculate_route_distance(), 9000);
    v.cargo.add(CargoType::Coal, 7);
    v.cargo.add(CargoType::Mail, 3);
    assert_eq!(v.calculate_delivery_profit(), 145);
    v.assign_route(vec![(1, 1)]);
    assert_eq!(v.calculate_delivery_profit(), 100);
}

#[test]
fn on_time_means_more_than_four_in_five() {
    let mut v = Vehicle::new(0, bus(), 0, 0);
    assert!(v.is_on_time());
    assert!(!v.has_delivered_cargo());
    v.total_deliveries = 6;
    v.on_time_deliveries = 5;
    assert!(v.is_on_time());
    assert!(v.has_delivered_cargo());
    v.total_deliveries = 5;
    v.on_time_deliveries = 4;
    assert!(!v.is_on_time());
}

#[test]
fn a_vehicle_sets_off_moves_and_arrives() {
    let mut world = flat_world(8, 8);
    let mut economy = Economy::new();
    let mut v = Vehicle::new(0, bus(), 0, 0);
    v.assign_route(vec![(2, 2), (5, 5)]);
    v.update(&mut world, &mut economy);
    assert!(matches!(v.state, VehicleState::Moving { from: (0, 0), to: (2, 2), progress: 0 }));
    v.update(&mut world, &mut economy);
    assert!(matches!(v.state, VehicleState::Moving { progress: 85, .. }));
    for _ in 0..11 {
        v.update(&mut world, &mut economy);
    }
    assert!(matches!(v.state, VehicleState::Loading));
    assert_eq!((v.x, v.y), (2, 2));
    v.update(&mut world, &mut economy);
    assert!(matches!(v.state, VehicleState::Idle));
    assert_eq!(v.route_index, 1);
    assert_eq!(v.age, 14);
}

#[test]
fn unloading_books_the_delivery() {
    let mut world = flat_world(8, 8);
    let mut economy = Economy::new();
    let mut v = Vehicle::new(0, bus(), 0, 0);
    v.assign_route(vec![(0, 0), (3, 4)]);
    v.cargo.add(CargoType::Coal, 10);
    v.state = VehicleState::Unloading;
    v.update(&mut world, &mut economy);
    assert!(matches!(v.state, VehicleState::Idle));
    assert_eq!(v.cargo.sum(), 0);
    assert_eq!(v.total_deliveries, 1);
    assert_eq!(v.profit, 25);
    v.state = VehicleState::Unloading;
    v.update(&mut world, &mut economy);
    assert_eq!(v.total_deliveries, 1);
    assert_eq!(v.profit, 25);
}

#[test]
fn a_company_buys_vehicles_and_draws_routes() {
    let mut p = Player::new(String::from("Acme"), 1000);
    assert_eq!(p.reputation, 50);
    assert_eq!(p.add_vehicle(bus(), 0, 0), Some(0));
    assert_eq!(p.add_vehicle(bus(), 1, 1), Some(1));
    assert_eq!(p.money, 1000);
    let r = p.create_route(String::from("Line"), vec![(0, 0), (4, 4)], vec![CargoType::Passengers]);
    assert_eq!(r, 0);
    assert!(p.assign_vehicle_to_route(1, 0));
    assert_eq!(p.vehicles[1].route, vec![(0, 0), (4, 4)]);
    assert_eq!(p.routes[0].vehicle_ids, vec![1]);
    assert!(!p.assign_vehicle_to_route(1, 0));
    assert!(!p.assign_vehicle_to_route(0, 9));
    assert!(p.vehicles[0].route.is_empty());
}

#[test]
fn company_figures_add_up() {
    let mut p = Player::new(String::from("Acme"), 1000);
    p.add_vehicle(bus(), 0, 0);
    p.add_vehicle(bus(), 1, 1);
    p.create_route(String::from("A"), vec![(0, 0)], vec![]);
    p.create_route(String::from("B"), vec![(1, 1)], vec![]);
    p.routes[0].profit = 100;
    p.routes[1].profit = -30;
    assert_eq!(p.get_total_vehicle_value(), 240000);
    assert_eq!(p.get_monthly_profit(), 70);
    assert_eq!(p.get_monthly_expenses(), 13440);
    let stats = p.get_company_stats();
    assert_eq!(stats.name, "Acme");
    assert_eq!(stats.vehicle_count, 2);
    assert_eq!(stats.route_count, 2);
    assert_eq!(stats.total_value, 241000);
    assert_eq!(stats.monthly_profit, 70);
    assert_eq!(stats.monthly_expenses, 13440);
}

#[test]
fn a_company_tick_pays_running_costs() {
    let mut world = flat_world(8, 8);
    let mut economy = Economy::new();
    let mut p = Player::new(String::from("Acme"), 1000);
    p.add_vehicle(bus(), 0, 0);
    p.update(&mut world, &mut economy);
    assert_eq!(p.game_time, 1);
    assert_eq!(p.vehicles[0].age, 1);
    assert_eq!(p.money, 776);
    assert_eq!(p.reputation, 50);
}

#[test]
fn the_monthly_rating_rewards_punctual_fleets() {
    let mut world = flat_world(8, 8);
    let mut economy = Economy::new();
    let mut p = Player::new(String::from("Acme"), 1_000_000);
    p.add_vehicle(bus(), 0, 0);
    for _ in 0..30 {
        p.update(&mut world, &mut economy);
    }
    assert_eq!(p.game_time, 30);
    assert_eq!(p.reputation, 51);
}

#[test]
fn vehicles_show_their_map_symbols() {
    assert_eq!(World::get_vehicle_char(&steam_train()), 'T');
    assert_eq!(World::get_vehicle_char(&bus()), 'B');
    assert_eq!(World::get_vehicle_char(&VehicleType::Road { truck_type: TruckType::SmallTruck { capacity: 5 } }), 't');
    assert_eq!(World::get_vehicle_char(&VehicleType::Road { truck_type: TruckType::LargeTruck { capacity: 5 } }), 'T');
    assert_eq!(World::get_vehicle_char(&VehicleType::Ship { ship_type: ShipType::PassengerShip { capacity: 5 } }), 'S');
    assert_eq!(World::get_vehicle_char(&VehicleType::Aircraft { plane_type: PlaneType::SmallPlane { capacity: 5, range: 9 } }), 'A');
    let mut world = flat_world(4, 4);
    world.tiles[1][2].terrain = TerrainType::Water;
    let vehicles = vec![Vehicle::new(0, bus(), 3, 3), Vehicle::new(1, steam_train(), 3, 3)];
    assert_eq!(world.get_ascii_char_with_vehicles(3, 3, &vehicles), 'B');
    assert_eq!(world.get_ascii_char_with_vehicles(2, 1, &vehicles), '~');
    assert_eq!(world.get_ascii_char_with_vehicles(9, 9, &vehicles), ' ');
}

#[test]
fn money_wraps_at_the_ends_of_its_range() {
    let mut world = flat_world(8, 8);
    let mut economy = Economy::new();
    let mut p = Player::new(String::from("Acme"), i64::MIN + 100);
    p.add_vehicle(bus(), 0, 0);
    p.update(&mut world, &mut economy);
    assert_eq!(p.money, i64::MAX - 123);
    assert_eq!(p.game_time, 1);
}

#[test]
fn the_rating_follows_the_share_of_punctual_vehicles() {
    let mut p = Player::new(String::from("Acme"), 0);
    p.update_reputation();
    assert_eq!(p.reputation, 50);
    p.add_vehicle(bus(), 0, 0);
    p.add_vehicle(bus(), 0, 0);
    p.vehicles[0].total_deliveries = 5;
    p.vehicles[0].on_time_deliveries = 1;
    p.vehicles[1].total_deliveries = 5;
    p.vehicles[1].on_time_deliveries = 1;
    p.update_reputation();
    assert_eq!(p.reputation, 49);
    p.vehicles[1].on_time_deliveries = 5;
    p.update_reputation();
    assert_eq!(p.reputation, 49);
    p.vehicles[0].on_time_deliveries = 5;
    p.reputation = 100;
    p.update_reputation();
    assert_eq!(p.reputation, 100);
}
