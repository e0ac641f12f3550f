use rust_ttd::ui::{UI, BuildAction, VehicleOrder};
use rust_ttd::ui_text::{TileColor, TileStyle};
use rust_ttd::world::{World, Tile, TileContent, TerrainType, TrackType, Town, Industry, IndustryType, Station, StationType, Direction};
use rust_ttd::vehicle::{Vehicle, VehicleType, VehicleState, TruckType, TrainEngine, TrainCar};
use rust_ttd::player::Player;
use rust_ttd::cargo::{CargoType, CargoAmounts};

fn flat_world(width: usize, height: usize) -> World {
    let mut tiles = Vec::new();
    for _ in 0..height {
        let mut row = Vec::new();
        for _ in 0..width {
            row.push(Tile { terrain: TerrainType::Grass, content: TileContent::Empty, height: 0 });
        }
        tiles.push(row);
    }
    World { width, height, tiles, towns: Vec::new(), industries: Vec::new(), stations: Vec::new() }
}

#[test]
fn cargo_lists_are_named_shortened_past_three() {
    assert_eq!(UI::format_cargo_list(&[]), "None");
    assert_eq!(UI::format_cargo_list(&[CargoType::Coal]), "Coal");
    assert_eq!(UI::format_cargo_list(&[CargoType::IronOre, CargoType::Coal]), "IronOre, Coal");
    assert_eq!(UI::format_cargo_list(&[CargoType::Goods, CargoType::Food, CargoType::Mail]), "Goods, Food, Mail");
    assert_eq!(
        UI::format_cargo_list(&[CargoType::Oil, CargoType::Wood, CargoType::Steel, CargoType::Passengers]),
        "Oil and 3 more"
    );
}

#[test]
fn tile_contents_are_described() {
    assert_eq!(UI::format_tile_content(&TileContent::Empty), "Empty");
    assert_eq!(UI::format_tile_content(&TileContent::Road), "Road");
    let town = TileContent::Town(Town {
        name: "Ayton".to_string(),
        population: 1234,
        growth_rate: 150,
        cargo_demand: CargoAmounts::new(),
        cargo_supply: CargoAmounts::new(),
    });
    assert_eq!(UI::format_tile_content(&town), "Town: Ayton\nPopulation: 1234\nGrowth: 1.5%");
    let mine = TileContent::Industry(Industry {
        industry_type: IndustryType::SteelMill,
        production_rate: 30,
        cargo_input: vec![CargoType::IronOre, CargoType::Coal],
        cargo_output: vec![CargoType::Steel],
        stockpile: CargoAmounts::new(),
    });
    assert_eq!(
        UI::format_tile_content(&mine),
        "Industry: SteelMill\nProduction: 30/month\nInputs: IronOre, Coal\nOutputs: Steel"
    );
    let station = TileContent::Station(Station {
        name: "Station 1".to_string(),
        station_type: StationType::Road,
        cargo_waiting: CargoAmounts::new(),
        connections: vec![(1, 1), (2, 2)],
    });
    assert_eq!(UI::format_tile_content(&station), "Station: Station 1\nType: Road\nConnections: 2");
    assert_eq!(
        UI::format_tile_content(&TileContent::Track(TrackType::Straight { horizontal: false })),
        "Railway Track (Vertical)"
    );
    assert_eq!(
        UI::format_tile_content(&TileContent::Track(TrackType::Curve { from_dir: Direction::North, to_dir: Direction::East })),
        "Railway Track (Curve)"
    );
    assert_eq!(UI::format_tile_content(&TileContent::Track(TrackType::Junction)), "Railway Junction");
}

#[test]
fn vehicle_info_lists_its_figures() {
    let mut v = Vehicle::new(3, VehicleType::Road { truck_type: TruckType::Bus { capacity: 40 } }, 2, 5);
    v.age = 800;
    v.profit = -120;
    v.on_time_deliveries = 2;
    v.total_deliveries = 3;
    v.state = VehicleState::Loading;
    assert_eq!(
        UI::format_vehicle_info(&v, 2, 5),
        "VEHICLE: Bus (40)\nPosition: (2, 5)\nState: Loading\nAge: 2 years\nReliability: 88%\nProfit: $-120\nDeliveries: 2/3"
    );
    let train = Vehicle::new(
        4,
        VehicleType::Train {
            engine: TrainEngine::Diesel { power: 900, reliability: 80 },
            cars: vec![TrainCar::Mail { capacity: 10 }, TrainCar::Passenger { capacity: 50 }],
        },
        0,
        0,
    );
    assert!(UI::format_vehicle_info(&train, 0, 0).starts_with("VEHICLE: Diesel Train (2 cars)\nPosition: (0, 0)\nState: Idle"));
}

#[test]
fn the_header_reports_company_year_and_mode() {
    let mut ui = UI::new();
    let mut player = Player::new("Acme".to_string(), 1500);
    player.game_time = 800;
    assert_eq!(ui.header_text(&player), "RusTTD - Acme | Money: $1500 | Year: 1952 | ");
    ui.paused = true;
    assert_eq!(ui.status_text(), "PAUSED");
    ui.vehicle_order_mode = Some((7, VehicleOrder::SendToDepot));
    assert_eq!(ui.status_text(), "ORDER: Vehicle 7 To Depot");
    ui.route_creation_mode = Some((7, vec![(1, 1), (2, 2)]));
    assert_eq!(ui.status_text(), "ROUTE: Vehicle 7 (2 waypoints) - Click stations, ENTER to finish");
    ui.build_mode = Some(BuildAction::BuildBusStop);
    assert_eq!(ui.status_text(), "BUILD: Bus Stop");
}

#[test]
fn the_info_panel_follows_mode_vehicle_and_selection() {
    let mut ui = UI::new();
    ui.cursor_x = 2;
    ui.cursor_y = 1;
    let vehicles = vec![Vehicle::new(0, VehicleType::Road { truck_type: TruckType::Bus { capacity: 30 } }, 2, 1)];
    let (title, text) = ui.info_panel_text(&Vec::new());
    assert_eq!(title, "Tile Info");
    assert_eq!(text, "Cursor: (2, 1)\nPress ENTER to select tile\nPress B for build menu\nPress ? for controls");
    ui.selected_tile = Some(Tile { terrain: TerrainType::Desert, content: TileContent::Road, height: 0 });
    let (_, text) = ui.info_panel_text(&Vec::new());
    assert_eq!(text, "Selected Tile: (2, 1)\nTerrain: Desert\nContent: Road");
    let (title, text) = ui.info_panel_text(&vehicles);
    assert_eq!(title, "Vehicle Info");
    assert!(text.starts_with("VEHICLE: Bus (30)\nPosition: (2, 1)"));
    ui.build_mode = Some(BuildAction::BuildRoad);
    let (title, text) = ui.info_panel_text(&vehicles);
    assert_eq!(title, "Build Mode");
    assert_eq!(text, "BUILD MODE: Building Road\nCost: $5,000\nCursor: (2, 1)\nClick to build, ESC to cancel");
}

#[test]
fn map_cells_take_the_colour_of_vehicle_content_or_terrain() {
    let mut world = flat_world(4, 4);
    world.set_tile_content(1, 0, TileContent::Road);
    world.tiles[2][2].terrain = TerrainType::Water;
    let vehicles = vec![Vehicle::new(0, VehicleType::Road { truck_type: TruckType::SmallTruck { capacity: 5 } }, 3, 3)];
    assert_eq!(UI::get_tile_style_static(&world, 0, 0), TileStyle { color: Some(TileColor::Green), bold: false });
    assert_eq!(UI::get_tile_style_static(&world, 1, 0), TileStyle { color: Some(TileColor::Gray), bold: false });
    assert_eq!(UI::get_tile_style_static(&world, 2, 2), TileStyle { color: Some(TileColor::Blue), bold: false });
    assert_eq!(UI::get_tile_style_static(&world, 9, 9), TileStyle { color: None, bold: false });
    assert_eq!(
        UI::get_tile_style_with_vehicles_static(&world, &vehicles, 3, 3),
        TileStyle { color: Some(TileColor::Red), bold: true }
    );
    assert_eq!(
        UI::get_tile_style_with_vehicles_static(&world, &vehicles, 1, 0),
        TileStyle { color: Some(TileColor::Gray), bold: false }
    );
}

#[test]
fn extreme_figures_are_written_in_full() {
    let mut v = Vehicle::new(u32::MAX, VehicleType::Road { truck_type: TruckType::Bus { capacity: u32::MAX } }, usize::MAX, 0);
    v.profit = i64::MIN;
    v.total_deliveries = 10;
    let text = UI::format_vehicle_info(&v, 0, 1000000);
    assert!(text.starts_with("VEHICLE: Bus (4294967295)\nPosition: (0, 1000000)"));
    assert!(text.contains("Profit: $-9223372036854775808\n"));
    assert!(text.ends_with("Deliveries: 0/10"));
    v.profit = i64::MAX;
    assert!(UI::format_vehicle_info(&v, 0, 0).contains("Profit: $9223372036854775807\n"));
}
