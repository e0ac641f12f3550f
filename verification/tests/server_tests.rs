use rust_ttd::server::{InputCommand, WorldRenderData, TileContentRenderData, UIRenderState};
use rust_ttd::ui::{UI, InputEvent, CursorDirection, BuildAction, VehicleOrder, VehiclePurchaseType};
use rust_ttd::world::{World, Tile, TileContent, TerrainType, TrackType, Industry, IndustryType, Town};
use rust_ttd::vehicle::{Vehicle, VehicleType, TruckType};
use rust_ttd::cargo::{CargoType, CargoAmounts};

fn command(name: &str, x: Option<usize>, y: Option<usize>) -> InputCommand {
    InputCommand {
        command_type: name.to_string(),
        x,
        y,
        vehicle_id: None,
        build_action: None,
        vehicle_order: None,
        vehicle_purchase_type: None,
    }
}

#[test]
fn commands_name_events() {
    assert_eq!(command("quit", None, None).to_input_event(), Some(InputEvent::Quit));
    assert_eq!(command("move_down", None, None).to_input_event(), Some(InputEvent::Move(CursorDirection::Down)));
    assert_eq!(command("select", None, None).to_input_event(), Some(InputEvent::Select));
    assert_eq!(command("build_bus_stop", None, None).to_input_event(), Some(InputEvent::BuildAction(BuildAction::BuildBusStop)));
    assert_eq!(command("vehicle_depot", None, None).to_input_event(), Some(InputEvent::VehicleOrder(VehicleOrder::SendToDepot)));
    assert_eq!(command("finish_route", None, None).to_input_event(), Some(InputEvent::FinishRouteCreation));
    assert_eq!(command("buy_small_plane", None, None).to_input_event(), Some(InputEvent::VehiclePurchase(VehiclePurchaseType::SmallPlane)));
    assert_eq!(command("buy_auto", None, None).to_input_event(), Some(InputEvent::VehiclePurchase(VehiclePurchaseType::Auto)));
}

#[test]
fn move_needs_both_coordinates() {
    assert_eq!(command("move", Some(1), Some(2)).to_input_event(), Some(InputEvent::Move(CursorDirection::Up)));
    assert_eq!(command("move", Some(1), None).to_input_event(), None);
    assert_eq!(command("move", None, None).to_input_event(), None);
}

#[test]
fn unknown_commands_name_nothing() {
    assert_eq!(command("fly", None, None).to_input_event(), None);
    assert_eq!(command("", None, None).to_input_event(), None);
    assert_eq!(command("Quit", None, None).to_input_event(), None);
}

#[test]
fn the_web_page_sees_the_map_and_the_vehicles() {
    let mut tiles = Vec::new();
    for _ in 0..2 {
        let mut row = Vec::new();
        for _ in 0..3 {
            row.push(Tile { terrain: TerrainType::Grass, content: TileContent::Empty, height: 0 });
        }
        tiles.push(row);
    }
    let mut world = World { width: 3, height: 2, tiles, towns: Vec::new(), industries: Vec::new(), stations: Vec::new() };
    let mut stock = CargoAmounts::new();
    stock.add(CargoType::Coal, 12);
    world.set_tile_content(1, 0, TileContent::Industry(Industry {
        industry_type: IndustryType::CoalMine,
        production_rate: 40,
        cargo_input: vec![],
        cargo_output: vec![CargoType::Coal],
        stockpile: stock,
    }));
    world.set_tile_content(2, 1, TileContent::Town(Town {
        name: "Bee".to_string(),
        population: 900,
        growth_rate: 50,
        cargo_demand: CargoAmounts::new(),
        cargo_supply: CargoAmounts::new(),
    }));
    world.set_tile_content(0, 1, TileContent::Track(TrackType::Straight { horizontal: true }));
    world.tiles[0][2].terrain = TerrainType::Water;
    let vehicles = vec![Vehicle::new(5, VehicleType::Road { truck_type: TruckType::SmallTruck { capacity: 20 } }, 2, 0)];
    let data = WorldRenderData::from_world(&world, &vehicles);
    assert_eq!((data.width, data.height), (3, 2));
    assert_eq!(data.tiles.len(), 2);
    assert_eq!(data.tiles[0].len(), 3);
    let mine = &data.tiles[0][1];
    assert_eq!((mine.x, mine.y), (1, 0));
    assert_eq!(mine.ascii_char, '▓');
    assert_eq!(mine.style_color, "red");
    match &mine.content {
        TileContentRenderData::Industry { industry_type, production_rate, stockpile } => {
            assert_eq!(industry_type, "CoalMine");
            assert_eq!(*production_rate, 40);
            assert_eq!(stockpile.amount(CargoType::Coal), 12);
        }
        _ => panic!("the mine is missing"),
    }
    match &data.tiles[1][2].content {
        TileContentRenderData::Town { name, population } => assert_eq!((name.as_str(), *population), ("Bee", 900)),
        _ => panic!("the town is missing"),
    }
    match &data.tiles[1][0].content {
        TileContentRenderData::Track { track_type } => assert_eq!(track_type, "Straight (Horizontal)"),
        _ => panic!("the track is missing"),
    }
    assert_eq!(data.tiles[0][2].style_color, "blue");
    assert_eq!(data.tiles[0][2].ascii_char, '~');
    assert_eq!(data.vehicles.len(), 1);
    assert_eq!(data.vehicles[0].vehicle_type, "Small Truck");
    assert_eq!(data.vehicles[0].state, "Idle");
    assert_eq!(data.vehicles[0].ascii_char, 't');
    assert_eq!(data.vehicles[0].style_color, "red");
    let mut ui = UI::new();
    ui.selected_tile = Some(Tile { terrain: TerrainType::Mountain, content: TileContent::Empty, height: 3 });
    let state = UIRenderState::from_ui(&ui);
    assert_eq!(state.selected_tile_info, Some("Mountain".to_string()));
    assert_eq!((state.cursor_x, state.cursor_y), (0, 0));
}
