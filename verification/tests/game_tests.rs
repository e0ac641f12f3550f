use rust_ttd::game::{Game, Request};
use rust_ttd::ai::{AIPlayer, AIDifficulty, AIStrategy};
use rust_ttd::player::Route;
use rust_ttd::world::{World, Tile, TileContent, TerrainType, TrackType, StationType, Town};
use rust_ttd::cargo::CargoAmounts;
use rust_ttd::ui::{InputEvent, BuildAction, VehicleOrder, CursorDirection};
use rust_ttd::vehicle::{VehicleType, TruckType, VehicleState};

fn flat_world(width: usize, height: usize) -> World {
    let mut tiles = Vec::new();
    for _ in 0..height {
        let mut row = Vec::new();
        for _ in 0..width {
            row.push(Tile { terrain: TerrainType::Grass, content: TileContent::Empty, height: 0 });
        }
        tiles.push(row);
    }
    World { width, height, tiles, towns: Vec::new(), industries: Vec::new(), stations: Vec::new() }
}

fn small_game() -> Game {
    let mut game = Game::new();
    game.world = flat_world(10, 8);
    game
}

#[test]
fn new_game_has_the_starting_company() {
    let game = Game::new();
    assert_eq!((game.world.width, game.world.height), (80, 40));
    assert_eq!(game.player.name, "Player");
    assert_eq!(game.player.money, 1000000);
    assert!(game.player.vehicles.is_empty());
    assert!(game.ai_players.is_empty());
    assert!(game.running);
}

#[test]
fn track_goes_on_an_empty_dry_tile_only() {
    let mut game = small_game();
    assert!(game.build_rail_track(2, 3));
    match &game.world.get_tile(2, 3).unwrap().content {
        TileContent::Track(TrackType::Straight { horizontal }) => assert!(*horizontal),
        _ => panic!("no track"),
    }
    assert!(!game.build_rail_track(2, 3));
    game.world.tiles[1][1].terrain = TerrainType::Water;
    assert!(!game.build_rail_track(1, 1));
    assert!(!game.build_road(10, 0));
    assert_eq!(game.player.money, 1000000);
}

#[test]
fn stations_are_numbered_after_the_map_stations() {
    let mut game = small_game();
    assert!(game.build_train_station(1, 1));
    assert!(game.build_bus_stop(2, 1));
    match &game.world.get_tile(1, 1).unwrap().content {
        TileContent::Station(st) => {
            assert_eq!(st.name, "Station 1");
            assert_eq!(st.station_type, StationType::Train);
            assert!(st.connections.is_empty());
        },
        _ => panic!("no station"),
    }
    match &game.world.get_tile(2, 1).unwrap().content {
        TileContent::Station(st) => {
            assert_eq!(st.name, "Bus Stop 2");
            assert_eq!(st.station_type, StationType::Road);
        },
        _ => panic!("no bus stop"),
    }
    assert_eq!(game.world.stations, vec![(1, 1), (2, 1)]);
    assert_eq!(game.player.stations, vec![(1, 1), (2, 1)]);
}

#[test]
fn buying_a_vehicle_adds_a_bus() {
    let mut game = small_game();
    assert!(game.buy_vehicle_at_location(4, 5));
    assert_eq!(game.player.vehicles.len(), 1);
    let v = &game.player.vehicles[0];
    assert_eq!((v.id, v.x, v.y), (0, 4, 5));
    match v.vehicle_type {
        VehicleType::Road { truck_type: TruckType::Bus { capacity } } => assert_eq!(capacity, 40),
        _ => panic!("not a bus"),
    }
}

#[test]
fn build_mode_ends_only_on_success() {
    let mut game = small_game();
    game.ui.set_build_mode(Some(BuildAction::BuildRoad));
    game.ui.cursor_x = 3;
    game.ui.cursor_y = 3;
    game.handle_build_action(BuildAction::BuildRoad);
    assert!(game.ui.get_build_mode().is_none());
    game.ui.set_build_mode(Some(BuildAction::BuildRoad));
    game.handle_build_action(BuildAction::BuildRoad);
    assert_eq!(game.ui.get_build_mode(), Some(BuildAction::BuildRoad));
}

#[test]
fn selecting_prefers_a_vehicle_over_the_tile() {
    let mut game = small_game();
    game.world.tiles[0][0].content = TileContent::Town(Town {
        name: "Alpha".to_string(),
        population: 500,
        growth_rate: 100,
        cargo_demand: CargoAmounts::new(),
        cargo_supply: CargoAmounts::new(),
    });
    game.handle_selection();
    match &game.ui.selected_tile {
        Some(t) => match &t.content {
            TileContent::Town(town) => assert_eq!((town.name.as_str(), town.population), ("Alpha", 500)),
            _ => panic!("wrong tile"),
        },
        None => panic!("nothing selected"),
    }
    game.buy_vehicle_at_location(0, 0);
    game.handle_selection();
    assert!(game.ui.show_vehicle_menu);
    assert_eq!(game.ui.get_selected_vehicle_id(), Some(0));
}

#[test]
fn orders_start_and_stop_a_vehicle() {
    let mut game = small_game();
    game.buy_vehicle_at_location(1, 1);
    assert_eq!(game.handle_vehicle_order(0, VehicleOrder::StartRoute), None);
    assert!(matches!(game.player.vehicles[0].state, VehicleState::Idle));
    game.player.vehicles[0].assign_route(vec![(5, 5), (6, 6)]);
    game.handle_vehicle_order(0, VehicleOrder::StartRoute);
    match game.player.vehicles[0].state {
        VehicleState::Moving { from, to, progress } => {
            assert_eq!((from, to, progress), ((1, 1), (5, 5), 0));
        },
        _ => panic!("not moving"),
    }
    game.handle_vehicle_order(0, VehicleOrder::Stop);
    assert!(matches!(game.player.vehicles[0].state, VehicleState::Idle));
    assert_eq!(game.handle_vehicle_order(0, VehicleOrder::SendToDepot), Some(Request::SendToDepot(0)));
    game.handle_vehicle_order(0, VehicleOrder::GoToLocation);
    assert_eq!(game.ui.get_vehicle_order_mode(), Some((0, VehicleOrder::GoToLocation)));
}

#[test]
fn go_to_location_sends_the_vehicle_to_the_cursor() {
    let mut game = small_game();
    game.buy_vehicle_at_location(1, 1);
    game.ui.cursor_x = 7;
    game.ui.cursor_y = 2;
    game.ui.set_vehicle_order_mode(Some((0, VehicleOrder::GoToLocation)));
    game.handle_vehicle_order_select(0, VehicleOrder::GoToLocation);
    assert!(game.ui.get_vehicle_order_mode().is_none());
    let v = &game.player.vehicles[0];
    assert_eq!(v.route, vec![(7, 2)]);
    assert_eq!(v.route_index, 0);
    match v.state {
        VehicleState::Moving { from, to, progress } => assert_eq!((from, to, progress), ((1, 1), (7, 2), 0)),
        _ => panic!("not moving"),
    }
}

#[test]
fn drawing_a_route_through_stations() {
    let mut game = small_game();
    game.buy_vehicle_at_location(0, 0);
    game.build_train_station(2, 2);
    game.build_train_station(5, 2);
    game.handle_vehicle_order(0, VehicleOrder::CreateRoute);
    game.ui.cursor_x = 2;
    game.ui.cursor_y = 2;
    game.handle_route_creation_select(0);
    game.ui.cursor_x = 3;
    game.handle_route_creation_select(0);
    game.ui.cursor_x = 5;
    game.handle_route_creation_select(0);
    assert_eq!(game.ui.get_route_creation_mode().unwrap().1, vec![(2, 2), (5, 2)]);
    game.finish_route_creation();
    assert!(game.ui.get_route_creation_mode().is_none());
    assert_eq!(game.player.vehicles[0].route, vec![(2, 2), (5, 2)]);
}

#[test]
fn a_one_stop_route_is_dropped() {
    let mut game = small_game();
    game.buy_vehicle_at_location(0, 0);
    game.ui.set_route_creation_mode(Some((0, vec![(1, 1)])));
    game.finish_route_creation();
    assert!(game.ui.get_route_creation_mode().is_none());
    assert!(game.player.vehicles[0].route.is_empty());
}

#[test]
fn inputs_toggle_menus_and_pass_on_requests() {
    let mut game = small_game();
    assert_eq!(game.handle_input(InputEvent::BuildMenu), None);
    assert!(game.ui.show_build_menu);
    game.handle_input(InputEvent::BuildMenu);
    assert!(!game.ui.show_build_menu);
    assert_eq!(game.handle_input(InputEvent::Save), Some(Request::Save));
    assert_eq!(game.handle_input(InputEvent::Load), Some(Request::Load));
    game.handle_input(InputEvent::Move(CursorDirection::Right));
    assert_eq!(game.ui.get_cursor_position(), (1, 0));
    game.handle_input(InputEvent::BuildAction(BuildAction::BuildRailTrack));
    game.handle_input(InputEvent::Select);
    assert!(matches!(game.world.get_tile(1, 0).unwrap().content, TileContent::Track(_)));
    game.handle_input(InputEvent::Quit);
    assert!(!game.running);
}

#[test]
fn a_tick_advances_the_clocks() {
    let mut game = small_game();
    game.update();
    assert_eq!(game.player.game_time, 1);
    assert_eq!(game.economy.month, 1);
}

#[test]
fn a_remote_input_acts_at_the_given_position() {
    let mut game = small_game();
    assert_eq!(game.handle_input_at(InputEvent::BuildAction(BuildAction::BuildRoad), 3, 2), None);
    assert_eq!((game.ui.cursor_x, game.ui.cursor_y), (3, 2));
    assert_eq!(game.ui.build_mode, Some(BuildAction::BuildRoad));
    game.handle_input_at(InputEvent::Select, 3, 2);
    assert!(matches!(game.world.tiles[2][3].content, TileContent::Road));
    assert_eq!(game.handle_input_at(InputEvent::Save, 0, 0), Some(Request::Save));
    assert!(game.can_take(InputEvent::Move(CursorDirection::Down)));
    game.ui.cursor_y = usize::MAX;
    assert!(!game.can_take(InputEvent::Move(CursorDirection::Down)));
    assert_eq!(game.handle_input_at(InputEvent::Move(CursorDirection::Right), usize::MAX, 7), None);
    assert_eq!((game.ui.cursor_x, game.ui.cursor_y), (usize::MAX, 7));
}

#[test]
fn a_tick_runs_for_a_company_at_the_edge_of_its_money() {
    let mut game = small_game();
    game.buy_vehicle_at_location(1, 1);
    game.player.money = i64::MIN + 100;
    assert!(game.tick());
    assert_eq!(game.player.game_time, 1);
    assert_eq!(game.player.money, i64::MAX - 123);
}

#[test]
fn a_computer_company_not_ready_for_its_decision_stops_the_tick() {
    let mut game = small_game();
    let mut first = AIPlayer::new("A".to_string(), AIDifficulty::Hard, AIStrategy::Conservative);
    first.decision_timer = 99;
    first.player.routes.push(Route {
        id: 0,
        name: "R".to_string(),
        stations: Vec::new(),
        vehicle_ids: Vec::new(),
        cargo_types: Vec::new(),
        profit: 500000,
    });
    let second = AIPlayer::new("B".to_string(), AIDifficulty::Easy, AIStrategy::Balanced);
    game.ai_players.push(first);
    game.ai_players.push(second);
    assert!(!game.tick());
    assert_eq!(game.player.game_time, 1);
    assert_eq!(game.economy.month, 1);
    assert_eq!(game.ai_players[0].player.game_time, 1);
    assert_eq!(game.ai_players[0].decision_timer, 100);
    assert_eq!(game.ai_players[1].player.game_time, 0);
    assert_eq!(game.ai_players[1].decision_timer, 0);
}

#[test]
fn computer_companies_without_routes_take_the_whole_tick() {
    let mut game = small_game();
    game.ai_players.push(AIPlayer::new("A".to_string(), AIDifficulty::Hard, AIStrategy::Conservative));
    game.ai_players.push(AIPlayer::new("B".to_string(), AIDifficulty::Easy, AIStrategy::Balanced));
    assert!(game.tick());
    assert_eq!(game.ai_players[0].player.game_time, 1);
    assert_eq!(game.ai_players[1].player.game_time, 1);
    assert_eq!(game.ai_players[1].decision_timer, 1);
}
