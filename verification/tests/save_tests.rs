use rust_ttd::game::Game;
use rust_ttd::save::{save_game, load_game, TrackTypeSave, RouteSave, VehicleStateSave};
use rust_ttd::world::{World, Tile, TileContent, TerrainType, TrackType, Direction, Industry, IndustryType, Town};
use rust_ttd::ai::{AIPlayer, AIDifficulty, AIStrategy, AITarget, AITargetType};
use rust_ttd::cargo::{CargoType, CargoAmounts};
use rust_ttd::player::Route;
use rust_ttd::economy::EconomicState;
use rust_ttd::vehicle::VehicleState;

fn flat_world(width: usize, height: usize) -> World {
    let mut tiles = Vec::new();
    for _ in 0..height {
        let mut row = Vec::new();
        for _ in 0..width {
            row.push(Tile { terrain: TerrainType::Grass, content: TileContent::Empty, height: 0 });
        }
        tiles.push(row);
    }
    World { width, height, tiles, towns: Vec::new(), industries: Vec::new(), stations: Vec::new() }
}

#[test]
fn tracks_keep_their_shape_and_curves_their_directions() {
    let straight = TrackType::Straight { horizontal: false };
    assert_eq!(TrackTypeSave::from_track_type(&straight), TrackTypeSave::Straight { horizontal: false });
    assert_eq!(TrackTypeSave::from_track_type(&straight).to_track_type(), straight);
    assert_eq!(TrackTypeSave::from_track_type(&TrackType::Junction).to_track_type(), TrackType::Junction);
    let curve = TrackType::Curve { from_dir: Direction::South, to_dir: Direction::West };
    assert_eq!(TrackTypeSave::from_track_type(&curve), TrackTypeSave::Curve { from_dir: 1, to_dir: 3 });
    assert_eq!(TrackTypeSave::from_track_type(&curve).to_track_type(), curve);
    let other = TrackType::Curve { from_dir: Direction::East, to_dir: Direction::North };
    assert_eq!(TrackTypeSave::from_track_type(&other), TrackTypeSave::Curve { from_dir: 2, to_dir: 0 });
    assert_eq!(TrackTypeSave::from_track_type(&other).to_track_type(), other);
}

#[test]
fn routes_are_saved_whole() {
    let route = Route {
        id: 3,
        name: "Line".to_string(),
        stations: vec![(1, 2), (3, 4)],
        vehicle_ids: vec![0, 2],
        cargo_types: vec![CargoType::Coal],
        profit: -15,
    };
    let saved = RouteSave::from_route(&route);
    let back = saved.to_route();
    assert_eq!(back.id, 3);
    assert_eq!(back.name, "Line");
    assert_eq!(back.stations, vec![(1, 2), (3, 4)]);
    assert_eq!(back.vehicle_ids, vec![0, 2]);
    assert_eq!(back.cargo_types, vec![CargoType::Coal]);
    assert_eq!(back.profit, -15);
}

#[test]
fn vehicle_states_round_trip() {
    let moving = VehicleState::Moving { from: (1, 1), to: (4, 2), progress: 350 };
    match VehicleStateSave::from_vehicle_state(&moving).to_vehicle_state() {
        VehicleState::Moving { from, to, progress } => assert_eq!((from, to, progress), ((1, 1), (4, 2), 350)),
        _ => panic!("state changed"),
    }
}

#[test]
fn a_saved_game_loads_back() {
    let mut game = Game::new();
    game.world = flat_world(6, 4);
    let mut stockpile = CargoAmounts::new();
    stockpile.add(CargoType::Coal, 40);
    game.world.tiles[1][2].content = TileContent::Industry(Industry {
        industry_type: IndustryType::CoalMine,
        production_rate: 75,
        cargo_input: Vec::new(),
        cargo_output: vec![CargoType::Coal],
        stockpile,
    });
    game.world.industries.push((2, 1));
    game.world.tiles[0][0].content = TileContent::Track(TrackType::Curve { from_dir: Direction::West, to_dir: Direction::South });
    game.world.tiles[3][5].terrain = TerrainType::Water;
    game.build_train_station(4, 2);
    game.buy_vehicle_at_location(4, 2);
    game.player.vehicles[0].cargo.add(CargoType::Passengers, 12);
    game.player.money = 123456;
    game.player.reputation = 77;
    game.player.game_time = 999;
    game.economy.month = 14;
    game.economy.economic_state = EconomicState::Boom;
    game.economy.cargo_prices[0] = 9999;

    game.economy.supply_demand[2].demand = 4321;
    let saved = save_game(&game);
    assert_eq!(saved.game_time, 999);
    let loaded = load_game(saved);

    assert_eq!((loaded.world.width, loaded.world.height), (6, 4));
    assert_eq!(loaded.world.industries, vec![(2, 1)]);
    assert_eq!(loaded.world.stations, vec![(4, 2)]);
    assert_eq!(loaded.world.tiles[3][5].terrain, TerrainType::Water);
    match &loaded.world.tiles[1][2].content {
        TileContent::Industry(ind) => {
            assert_eq!(ind.industry_type, IndustryType::CoalMine);
            assert_eq!(ind.production_rate, 75);
            assert_eq!(ind.cargo_output, vec![CargoType::Coal]);
            assert_eq!(ind.stockpile.amount(CargoType::Coal), 40);
        },
        _ => panic!("industry lost"),
    }
    match &loaded.world.tiles[0][0].content {
        TileContent::Track(t) => assert_eq!(*t, TrackType::Curve { from_dir: Direction::West, to_dir: Direction::South }),
        _ => panic!("track lost"),
    }
    match &loaded.world.tiles[2][4].content {
        TileContent::Station(st) => assert_eq!(st.name, "Station 1"),
        _ => panic!("station lost"),
    }
    assert_eq!(loaded.player.name, "Player");
    assert_eq!(loaded.player.money, 123456);
    assert_eq!(loaded.player.reputation, 77);
    assert_eq!(loaded.player.game_time, 999);
    assert_eq!(loaded.player.stations, vec![(4, 2)]);
    assert_eq!(loaded.player.vehicles.len(), 1);
    assert_eq!((loaded.player.vehicles[0].x, loaded.player.vehicles[0].y), (4, 2));
    assert_eq!(loaded.player.vehicles[0].cargo.amount(CargoType::Passengers), 12);
    assert_eq!(loaded.economy.month, 14);
    assert_eq!(loaded.economy.economic_state, EconomicState::Boom);
    assert_eq!(loaded.economy.inflation_rate, 20);
    assert_eq!(loaded.economy.cargo_prices[0], 9999);
    assert_eq!(loaded.economy.cargo_prices[1], game.economy.cargo_prices[1]);
    assert_eq!(loaded.economy.supply_demand[2].demand, 4321);
    assert!(loaded.running);
}

#[test]
fn computer_plans_and_town_tables_survive_a_save() {
    let mut game = Game::new();
    game.world = flat_world(5, 5);
    let mut demand = CargoAmounts::new();
    demand.add(CargoType::Mail, 7);
    game.world.tiles[2][2].content = TileContent::Town(Town {
        name: "Ayton".to_string(),
        population: 1200,
        growth_rate: 90,
        cargo_demand: demand,
        cargo_supply: CargoAmounts::new(),
    });
    game.world.towns.push((2, 2));
    let mut ai = AIPlayer::new("Rival".to_string(), AIDifficulty::Medium, AIStrategy::Balanced);
    ai.targets.push(AITarget {
        target_type: AITargetType::BuildStation { location: (1, 3) },
        priority: 60,
        estimated_profit: 60000,
        location: (1, 3),
    });
    ai.decision_timer = 17;
    game.ai_players.push(ai);
    let loaded = load_game(save_game(&game));
    match &loaded.world.tiles[2][2].content {
        TileContent::Town(t) => {
            assert_eq!(t.name, "Ayton");
            assert_eq!(t.cargo_demand.amount(CargoType::Mail), 7);
        },
        _ => panic!("town lost"),
    }
    assert_eq!(loaded.ai_players.len(), 1);
    assert_eq!(loaded.ai_players[0].decision_timer, 17);
    assert_eq!(loaded.ai_players[0].targets.len(), 1);
    assert_eq!(loaded.ai_players[0].targets[0].priority, 60);
    assert!(matches!(loaded.ai_players[0].targets[0].target_type, AITargetType::BuildStation { location: (1, 3) }));
}
