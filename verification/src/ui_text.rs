use vstd::prelude::*;
use crate::cargo::CargoType;
use crate::world::{TileContent, TrackType, IndustryType, StationType, TerrainType, World, Tile, first_vehicle_at, find_vehicle_at, lemma_first_vehicle_at};
use crate::ui::{UI, BuildAction, VehicleOrder};
use crate::player::Player;
use crate::vehicle::{Vehicle, VehicleType, VehicleState, TrainEngine, TruckType, ShipType, PlaneType};
use crate::names::{spec_decimal, spec_signed_decimal, decimal, signed_decimal};

verus! {

/// The name a cargo kind is shown by.
pub open spec fn cargo_name(c: CargoType) -> Seq<char> {
    match c {
        CargoType::Passengers => "Passengers"@,
        CargoType::Mail => "Mail"@,
        CargoType::Coal => "Coal"@,
        CargoType::IronOre => "IronOre"@,
        CargoType::Steel => "Steel"@,
        CargoType::Wood => "Wood"@,
        CargoType::Oil => "Oil"@,
        CargoType::Goods => "Goods"@,
        CargoType::Food => "Food"@,
    }
}

/// The names of a list of cargo kinds, separated by commas.
pub open spec fn joined_cargo_names(s: Seq<CargoType>) -> Seq<char>
    decreases s.len(),
{
    if s.len() == 0 {
        Seq::empty()
    } else if s.len() == 1 {
        cargo_name(s[0])
    } else {
        joined_cargo_names(s.drop_last()) + ", "@ + cargo_name(s.last())
    }
}

/// A list of cargo kinds as the info panel shows it: "None" for an empty list, the names
/// separated by commas for up to three, and otherwise the first name and how many more.
pub open spec fn cargo_list_text(s: Seq<CargoType>) -> Seq<char> {
    if s.len() == 0 {
        "None"@
    } else if s.len() <= 3 {
        joined_cargo_names(s)
    } else {
        cargo_name(s[0]) + " and "@ + spec_decimal((s.len() - 1) as nat) + " more"@
    }
}

/// The name an industry type is shown by.
pub open spec fn industry_type_name(t: IndustryType) -> Seq<char> {
    match t {
        IndustryType::CoalMine => "CoalMine"@,
        IndustryType::IronOreMine => "IronOreMine"@,
        IndustryType::SteelMill => "SteelMill"@,
        IndustryType::Factory => "Factory"@,
        IndustryType::Farm => "Farm"@,
        IndustryType::Sawmill => "Sawmill"@,
        IndustryType::OilRig => "OilRig"@,
        IndustryType::Refinery => "Refinery"@,
    }
}

/// The name a station type is shown by.
pub open spec fn station_type_name(t: StationType) -> Seq<char> {
    match t {
        StationType::Train => "Train"@,
        StationType::Road => "Road"@,
        StationType::Airport => "Airport"@,
        StationType::Harbor => "Harbor"@,
    }
}

/// A growth rate, given in hundredths of a percent, as a percentage with one decimal,
/// rounded to the nearest tenth (halves up).
pub open spec fn growth_text(rate: u32) -> Seq<char> {
    let tenths = (rate as nat + 5) / 10;
    spec_decimal(tenths / 10) + "."@ + spec_decimal(tenths % 10)
}

/// What the info panel says of a tile's content.
pub open spec fn tile_content_text(content: TileContent) -> Seq<char> {
    match content {
        TileContent::Empty => "Empty"@,
        TileContent::Town(town) => "Town: "@ + town.name@ + "\nPopulation: "@ + spec_decimal(town.population as nat)
            + "\nGrowth: "@ + growth_text(town.growth_rate) + "%"@,
        TileContent::Industry(ind) => "Industry: "@ + industry_type_name(ind.industry_type) + "\nProduction: "@
            + spec_decimal(ind.production_rate as nat) + "/month\nInputs: "@ + cargo_list_text(ind.cargo_input@)
            + "\nOutputs: "@ + cargo_list_text(ind.cargo_output@),
        TileContent::Station(st) => "Station: "@ + st.name@ + "\nType: "@ + station_type_name(st.station_type)
            + "\nConnections: "@ + spec_decimal(st.connections@.len()),
        TileContent::Track(t) => match t {
            TrackType::Straight { horizontal } => if horizontal {
                "Railway Track (Horizontal)"@
            } else {
                "Railway Track (Vertical)"@
            },
            TrackType::Curve { .. } => "Railway Track (Curve)"@,
            TrackType::Junction => "Railway Junction"@,
        },
        TileContent::Road => "Road"@,
    }
}

/// The name of a train engine's kind.
pub open spec fn engine_name(e: TrainEngine) -> Seq<char> {
    match e {
        TrainEngine::Steam { .. } => "Steam Train"@,
        TrainEngine::Diesel { .. } => "Diesel Train"@,
        TrainEngine::Electric { .. } => "Electric Train"@,
    }
}

/// A capacity in brackets after a name.
pub open spec fn with_capacity(name: Seq<char>, capacity: u32) -> Seq<char> {
    name + " ("@ + spec_decimal(capacity as nat) + ")"@
}

/// How the info panel names a vehicle type: a train by its engine and number of cars,
/// any other vehicle by its kind and capacity.
pub open spec fn vehicle_type_text(vt: VehicleType) -> Seq<char> {
    match vt {
        VehicleType::Train { engine, cars } => engine_name(engine) + " ("@ + spec_decimal(cars@.len()) + " cars)"@,
        VehicleType::Road { truck_type } => match truck_type {
            TruckType::Bus { capacity } => with_capacity("Bus"@, capacity),
            TruckType::SmallTruck { capacity } => with_capacity("Small Truck"@, capacity),
            TruckType::LargeTruck { capacity } => with_capacity("Large Truck"@, capacity),
        },
        VehicleType::Ship { ship_type } => match ship_type {
            ShipType::CargoShip { capacity } => with_capacity("Cargo Ship"@, capacity),
            ShipType::PassengerShip { capacity } => with_capacity("Passenger Ship"@, capacity),
        },
        VehicleType::Aircraft { plane_type } => match plane_type {
            PlaneType::SmallPlane { capacity, .. } => with_capacity("Small Plane"@, capacity),
            PlaneType::LargePlane { capacity, .. } => with_capacity("Large Plane"@, capacity),
        },
    }
}

/// The name of what a vehicle is doing.
pub open spec fn vehicle_state_name(st: VehicleState) -> Seq<char> {
    match st {
        VehicleState::Idle => "Idle"@,
        VehicleState::Moving { .. } => "Moving"@,
        VehicleState::Loading => "Loading"@,
        VehicleState::Unloading => "Unloading"@,
        VehicleState::Broken => "Broken"@,
    }
}

/// What the info panel says of a vehicle at `(x, y)`: its type, position, state, age in
/// whole years of 365 ticks, reliability, profit and on-time deliveries out of all.
pub open spec fn vehicle_info_text(v: Vehicle, x: usize, y: usize) -> Seq<char> {
    "VEHICLE: "@ + vehicle_type_text(v.vehicle_type) + "\nPosition: ("@ + spec_decimal(x as nat) + ", "@
        + spec_decimal(y as nat) + ")\nState: "@ + vehicle_state_name(v.state) + "\nAge: "@
        + spec_decimal((v.age / 365) as nat) + " years\nReliability: "@ + spec_decimal(v.reliability as nat)
        + "%\nProfit: $"@ + spec_signed_decimal(v.profit as int) + "\nDeliveries: "@
        + spec_decimal(v.on_time_deliveries as nat) + "/"@ + spec_decimal(v.total_deliveries as nat)
}

/// The colours the map is drawn in.
#[derive(Clone, Copy, Debug, PartialEq, Eq, Structural)]
pub enum TileColor {
    Blue,
    Red,
    Green,
    Yellow,
    Gray,
    White,
    Cyan,
    Magenta,
}

/// How a map cell is drawn: in a colour or the terminal's default, bold or not.
#[derive(Clone, Copy, Debug, PartialEq, Eq, Structural)]
pub struct TileStyle {
    pub color: Option<TileColor>,
    pub bold: bool,
}

/// The colour of a tile: by its content, or by its terrain when it is empty.
pub open spec fn tile_color(tile: Tile) -> TileColor {
    match tile.content {
        TileContent::Town(_) => TileColor::Blue,
        TileContent::Industry(_) => TileColor::Red,
        TileContent::Station(_) => TileColor::Green,
        TileContent::Track(_) => TileColor::Yellow,
        TileContent::Road => TileColor::Gray,
        TileContent::Empty => match tile.terrain {
            TerrainType::Grass => TileColor::Green,
            TerrainType::Water => TileColor::Blue,
            TerrainType::Mountain => TileColor::White,
            TerrainType::Desert => TileColor::Yellow,
            TerrainType::Forest => TileColor::Green,
        },
    }
}

/// The colour a vehicle is drawn in.
pub open spec fn vehicle_color(vt: VehicleType) -> TileColor {
    match vt {
        VehicleType::Train { .. } => TileColor::Blue,
        VehicleType::Road { .. } => TileColor::Red,
        VehicleType::Ship { .. } => TileColor::Cyan,
        VehicleType::Aircraft { .. } => TileColor::Magenta,
    }
}

/// How the map cell `(x, y)` is drawn: the tile's colour, or the default off the map.
pub open spec fn tile_style(world: World, x: usize, y: usize) -> TileStyle {
    TileStyle {
        color: if world.in_bounds(x as int, y as int) { Some(tile_color(world.tile_at(x as int, y as int))) } else { None },
        bold: false,
    }
}

/// How the map cell `(x, y)` is drawn with vehicles on the map: the first vehicle standing
/// there in its colour and bold, or else the tile.
pub open spec fn tile_style_with_vehicles(world: World, vehicles: Seq<Vehicle>, x: usize, y: usize) -> TileStyle {
    match first_vehicle_at(vehicles, x, y) {
        Some(i) => TileStyle { color: Some(vehicle_color(vehicles[i].vehicle_type)), bold: true },
        None => tile_style(world, x, y),
    }
}

/// What the header says of the build mode.
pub open spec fn build_status(a: BuildAction) -> Seq<char> {
    match a {
        BuildAction::BuildRailTrack => "BUILD: Railway Track"@,
        BuildAction::BuildTrainStation => "BUILD: Train Station"@,
        BuildAction::BuildRoad => "BUILD: Road"@,
        BuildAction::BuildBusStop => "BUILD: Bus Stop"@,
        BuildAction::BuyVehicle => "BUILD: Buy Vehicle"@,
    }
}

/// The name of a vehicle order.
pub open spec fn order_name(o: VehicleOrder) -> Seq<char> {
    match o {
        VehicleOrder::GoToLocation => "Go To Location"@,
        VehicleOrder::CreateRoute => "Create Route"@,
        VehicleOrder::StartRoute => "Start Route"@,
        VehicleOrder::Stop => "Stop"@,
        VehicleOrder::SendToDepot => "To Depot"@,
    }
}

/// The mode the header reports: building, drawing a route, giving an order, paused, or
/// nothing, in that order of precedence.
pub open spec fn status_text(ui: UI) -> Seq<char> {
    match ui.build_mode {
        Some(a) => build_status(a),
        None => match ui.route_creation_mode {
            Some((id, waypoints)) => "ROUTE: Vehicle "@ + spec_decimal(id as nat) + " ("@ + spec_decimal(waypoints@.len())
                + " waypoints) - Click stations, ENTER to finish"@,
            None => match ui.vehicle_order_mode {
                Some((id, order)) => "ORDER: Vehicle "@ + spec_decimal(id as nat) + " "@ + order_name(order),
                None => if ui.paused { "PAUSED"@ } else { Seq::empty() },
            },
        },
    }
}

/// The header line: the company, its money, the year (1950 plus one for every 365 ticks)
/// and the mode.
pub open spec fn header_text(ui: UI, player: Player) -> Seq<char> {
    "RusTTD - "@ + player.name@ + " | Money: $"@ + spec_signed_decimal(player.money as int) + " | Year: "@
        + spec_decimal((1950 + player.game_time / 365) as nat) + " | "@ + status_text(ui)
}

/// What the info panel says a build action does and costs.
pub open spec fn build_action_lines(a: BuildAction) -> Seq<char> {
    match a {
        BuildAction::BuildRailTrack => "Building Railway Track\nCost: $10,000"@,
        BuildAction::BuildTrainStation => "Building Train Station\nCost: $50,000"@,
        BuildAction::BuildRoad => "Building Road\nCost: $5,000"@,
        BuildAction::BuildBusStop => "Building Bus Stop\nCost: $25,000"@,
        BuildAction::BuyVehicle => "Select location for vehicle\nVarious costs"@,
    }
}

/// The name a terrain is shown by.
pub open spec fn terrain_name(t: TerrainType) -> Seq<char> {
    match t {
        TerrainType::Grass => "Grass"@,
        TerrainType::Water => "Water"@,
        TerrainType::Mountain => "Mountain"@,
        TerrainType::Desert => "Desert"@,
        TerrainType::Forest => "Forest"@,
    }
}

/// The cursor position as the info panel writes it.
pub open spec fn position_text(x: usize, y: usize) -> Seq<char> {
    "("@ + spec_decimal(x as nat) + ", "@ + spec_decimal(y as nat) + ")"@
}

/// The info panel's text: the build action in build mode; else the first vehicle under
/// the cursor; else the selected tile; else the cursor position and how to go on.
pub open spec fn info_text(ui: UI, vehicles: Seq<Vehicle>) -> Seq<char> {
    match ui.build_mode {
        Some(a) => "BUILD MODE: "@ + build_action_lines(a) + "\nCursor: "@ + position_text(ui.cursor_x, ui.cursor_y)
            + "\nClick to build, ESC to cancel"@,
        None => match first_vehicle_at(vehicles, ui.cursor_x, ui.cursor_y) {
            Some(i) => vehicle_info_text(vehicles[i], ui.cursor_x, ui.cursor_y),
            None => match ui.selected_tile {
                Some(tile) => "Selected Tile: "@ + position_text(ui.cursor_x, ui.cursor_y) + "\nTerrain: "@
                    + terrain_name(tile.terrain) + "\nContent: "@ + tile_content_text(tile.content),
                None => "Cursor: "@ + position_text(ui.cursor_x, ui.cursor_y)
                    + "\nPress ENTER to select tile\nPress B for build menu\nPress ? for controls"@,
            },
        },
    }
}

/// The info panel's title.
pub open spec fn info_title(ui: UI, vehicles: Seq<Vehicle>) -> Seq<char> {
    if ui.build_mode is Some {
        "Build Mode"@
    } else if first_vehicle_at(vehicles, ui.cursor_x, ui.cursor_y) is Some {
        "Vehicle Info"@
    } else {
        "Tile Info"@
    }
}

/// The colour of a tile (see `tile_color`).
pub fn tile_color_of(tile: &Tile) -> (r: TileColor)
    ensures
        r == tile_color(*tile),
{
    match &tile.content {
        TileContent::Town(_) => TileColor::Blue,
        TileContent::Industry(_) => TileColor::Red,
        TileContent::Station(_) => TileColor::Green,
        TileContent::Track(_) => TileColor::Yellow,
        TileContent::Road => TileColor::Gray,
        TileContent::Empty => match tile.terrain {
            TerrainType::Grass => TileColor::Green,
            TerrainType::Water => TileColor::Blue,
            TerrainType::Mountain => TileColor::White,
            TerrainType::Desert => TileColor::Yellow,
            TerrainType::Forest => TileColor::Green,
        },
    }
}

/// The colour a vehicle is drawn in (see `vehicle_color`).
pub fn vehicle_color_of(vt: &VehicleType) -> (r: TileColor)
    ensures
        r == vehicle_color(*vt),
{
    match vt {
        VehicleType::Train { .. } => TileColor::Blue,
        VehicleType::Road { .. } => TileColor::Red,
        VehicleType::Ship { .. } => TileColor::Cyan,
        VehicleType::Aircraft { .. } => TileColor::Magenta,
    }
}

fn build_status_text(a: BuildAction) -> (r: &'static str)
    ensures
        r@ == build_status(a),
{
    match a {
        BuildAction::BuildRailTrack => "BUILD: Railway Track",
        BuildAction::BuildTrainStation => "BUILD: Train Station",
        BuildAction::BuildRoad => "BUILD: Road",
        BuildAction::BuildBusStop => "BUILD: Bus Stop",
        BuildAction::BuyVehicle => "BUILD: Buy Vehicle",
    }
}

fn order_text(o: VehicleOrder) -> (r: &'static str)
    ensures
        r@ == order_name(o),
{
    match o {
        VehicleOrder::GoToLocation => "Go To Location",
        VehicleOrder::CreateRoute => "Create Route",
        VehicleOrder::StartRoute => "Start Route",
        VehicleOrder::Stop => "Stop",
        VehicleOrder::SendToDepot => "To Depot",
    }
}

fn build_action_text(a: BuildAction) -> (r: &'static str)
    ensures
        r@ == build_action_lines(a),
{
    match a {
        BuildAction::BuildRailTrack => "Building Railway Track\nCost: $10,000",
        BuildAction::BuildTrainStation => "Building Train Station\nCost: $50,000",
        BuildAction::BuildRoad => "Building Road\nCost: $5,000",
        BuildAction::BuildBusStop => "Building Bus Stop\nCost: $25,000",
        BuildAction::BuyVehicle => "Select location for vehicle\nVarious costs",
    }
}

pub(crate) fn terrain_text(t: TerrainType) -> (r: &'static str)
    ensures
        r@ == terrain_name(t),
{
    match t {
        TerrainType::Grass => "Grass",
        TerrainType::Water => "Water",
        TerrainType::Mountain => "Mountain",
        TerrainType::Desert => "Desert",
        TerrainType::Forest => "Forest",
    }
}

fn format_position(x: usize, y: usize) -> (r: String)
    ensures
        r@ == position_text(x, y),
{
    let mut s = "(".to_owned();
    let xs = decimal(x as u64);
    s.append(xs.as_str());
    s.append(", ");
    let ys = decimal(y as u64);
    s.append(ys.as_str());
    s.append(")");
    s
}

fn capacity_text(name: &str, capacity: u32) -> (r: String)
    ensures
        r@ == with_capacity(name@, capacity),
{
    let mut s = name.to_owned();
    s.append(" (");
    let c = decimal(capacity as u64);
    s.append(c.as_str());
    s.append(")");
    s
}

fn format_vehicle_type(vt: &VehicleType) -> (r: String)
    ensures
        r@ == vehicle_type_text(*vt),
{
    match vt {
        VehicleType::Train { engine, cars } => {
            let name = match engine {
                TrainEngine::Steam { .. } => "Steam Train",
                TrainEngine::Diesel { .. } => "Diesel Train",
                TrainEngine::Electric { .. } => "Electric Train",
            };
            let mut s = name.to_owned();
            s.append(" (");
            let n = decimal(cars.len() as u64);
            s.append(n.as_str());
            s.append(" cars)");
            s
        },
        VehicleType::Road { truck_type } => match truck_type {
            TruckType::Bus { capacity } => capacity_text("Bus", *capacity),
            TruckType::SmallTruck { capacity } => capacity_text("Small Truck", *capacity),
            TruckType::LargeTruck { capacity } => capacity_text("Large Truck", *capacity),
        },
        VehicleType::Ship { ship_type } => match ship_type {
            ShipType::CargoShip { capacity } => capacity_text("Cargo Ship", *capacity),
            ShipType::PassengerShip { capacity } => capacity_text("Passenger Ship", *capacity),
        },
        VehicleType::Aircraft { plane_type } => match plane_type {
            PlaneType::SmallPlane { capacity, .. } => capacity_text("Small Plane", *capacity),
            PlaneType::LargePlane { capacity, .. } => capacity_text("Large Plane", *capacity),
        },
    }
}

pub(crate) fn vehicle_state_text(st: &VehicleState) -> (r: &'static str)
    ensures
        r@ == vehicle_state_name(*st),
{
    match st {
        VehicleState::Idle => "Idle",
        VehicleState::Moving { .. } => "Moving",
        VehicleState::Loading => "Loading",
        VehicleState::Unloading => "Unloading",
        VehicleState::Broken => "Broken",
    }
}

pub(crate) fn industry_type_text(t: IndustryType) -> (r: &'static str)
    ensures
        r@ == industry_type_name(t),
{
    match t {
        IndustryType::CoalMine => "CoalMine",
        IndustryType::IronOreMine => "IronOreMine",
        IndustryType::SteelMill => "SteelMill",
        IndustryType::Factory => "Factory",
        IndustryType::Farm => "Farm",
        IndustryType::Sawmill => "Sawmill",
        IndustryType::OilRig => "OilRig",
        IndustryType::Refinery => "Refinery",
    }
}

pub(crate) fn station_type_text(t: StationType) -> (r: &'static str)
    ensures
        r@ == station_type_name(t),
{
    match t {
        StationType::Train => "Train",
        StationType::Road => "Road",
        StationType::Airport => "Airport",
        StationType::Harbor => "Harbor",
    }
}

fn format_growth(rate: u32) -> (r: String)
    ensures
        r@ == growth_text(rate),
{
    let tenths: u64 = (rate as u64 + 5) / 10;
    let mut s = decimal(tenths / 10);
    s.append(".");
    let d = decimal(tenths % 10);
    s.append(d.as_str());
    s
}

fn cargo_name_text(c: CargoType) -> (r: &'static str)
    ensures
        r@ == cargo_name(c),
{
    match c {
        CargoType::Passengers => "Passengers",
        CargoType::Mail => "Mail",
        CargoType::Coal => "Coal",
        CargoType::IronOre => "IronOre",
        CargoType::Steel => "Steel",
        CargoType::Wood => "Wood",
        CargoType::Oil => "Oil",
        CargoType::Goods => "Goods",
        CargoType::Food => "Food",
    }
}

impl UI {
    /// A list of cargo kinds as the info panel shows it (see `cargo_list_text`).
    pub fn format_cargo_list(cargo_list: &[CargoType]) -> (r: String)
        ensures
            r@ == cargo_list_text(cargo_list@),
    {
        let n = cargo_list.len();
        if n == 0 {
            return "None".to_owned();
        }
        if n > 3 {
            let mut s = cargo_name_text(cargo_list[0]).to_owned();
            s.append(" and ");
            let more = decimal((n - 1) as u64);
            s.append(more.as_str());
            s.append(" more");
            return s;
        }
        let mut s = cargo_name_text(cargo_list[0]).to_owned();
        assert(cargo_list@.take(1).len() == 1);
        assert(cargo_list@.take(1)[0] == cargo_list@[0]);
        let mut i: usize = 1;
        while i < n
            invariant
                1 <= i <= n,
                n == cargo_list@.len(),
                s@ == joined_cargo_names(cargo_list@.take(i as int)),
            decreases n - i,
        {
            proof {
                let t = cargo_list@.take(i + 1);
                assert(t.drop_last() =~= cargo_list@.take(i as int));
                assert(t.last() == cargo_list@[i as int]);
            }
            s.append(", ");
            s.append(cargo_name_text(cargo_list[i]));
            i = i + 1;
        }
        assert(cargo_list@.take(n as int) =~= cargo_list@);
        s
    }
    /// What the info panel says of a tile's content (see `tile_content_text`).
    pub fn format_tile_content(content: &TileContent) -> (r: String)
        ensures
            r@ == tile_content_text(*content),
    {
        match content {
            TileContent::Empty => "Empty".to_owned(),
            TileContent::Town(town) => {
                let mut s = "Town: ".to_owned();
                s.append(town.name.as_str());
                s.append("\nPopulation: ");
                let p = decimal(town.population as u64);
                s.append(p.as_str());
                s.append("\nGrowth: ");
                let g = format_growth(town.growth_rate);
                s.append(g.as_str());
                s.append("%");
                s
            },
            TileContent::Industry(ind) => {
                let mut s = "Industry: ".to_owned();
                s.append(industry_type_text(ind.industry_type));
                s.append("\nProduction: ");
                let p = decimal(ind.production_rate as u64);
                s.append(p.as_str());
                s.append("/month\nInputs: ");
                let inputs = Self::format_cargo_list(ind.cargo_input.as_slice());
                s.append(inputs.as_str());
                s.append("\nOutputs: ");
                let outputs = Self::format_cargo_list(ind.cargo_output.as_slice());
                s.append(outputs.as_str());
                s
            },
            TileContent::Station(st) => {
                let mut s = "Station: ".to_owned();
                s.append(st.name.as_str());
                s.append("\nType: ");
                s.append(station_type_text(st.station_type));
                s.append("\nConnections: ");
                let c = decimal(st.connections.len() as u64);
                s.append(c.as_str());
                s
            },
            TileContent::Track(t) => match t {
                TrackType::Straight { horizontal } => if *horizontal {
                    "Railway Track (Horizontal)".to_owned()
                } else {
                    "Railway Track (Vertical)".to_owned()
                },
                TrackType::Curve { .. } => "Railway Track (Curve)".to_owned(),
                TrackType::Junction => "Railway Junction".to_owned(),
            },
            TileContent::Road => "Road".to_owned(),
        }
    }
    /// What the info panel says of a vehicle at `(x, y)` (see `vehicle_info_text`).
    pub fn format_vehicle_info(vehicle: &Vehicle, x: usize, y: usize) -> (r: String)
        ensures
            r@ == vehicle_info_text(*vehicle, x, y),
    {
        let mut s = "VEHICLE: ".to_owned();
        let t = format_vehicle_type(&vehicle.vehicle_type);
        s.append(t.as_str());
        s.append("\nPosition: (");
        let xs = decimal(x as u64);
        s.append(xs.as_str());
        s.append(", ");
        let ys = decimal(y as u64);
        s.append(ys.as_str());
        s.append(")\nState: ");
        s.append(vehicle_state_text(&vehicle.state));
        s.append("\nAge: ");
        let age = decimal((vehicle.age / 365) as u64);
        s.append(age.as_str());
        s.append(" years\nReliability: ");
        let rel = decimal(vehicle.reliability as u64);
        s.append(rel.as_str());
        s.append("%\nProfit: $");
        let profit = signed_decimal(vehicle.profit);
        s.append(profit.as_str());
        s.append("\nDeliveries: ");
        let on_time = decimal(vehicle.on_time_deliveries as u64);
        s.append(on_time.as_str());
        s.append("/");
        let total = decimal(vehicle.total_deliveries as u64);
        s.append(total.as_str());
        s
    }
    /// The mode the header reports (see `status_text`).
    pub fn status_text(&self) -> (r: String)
        ensures
            r@ == status_text(*self),
    {
        if let Some(a) = self.build_mode {
            build_status_text(a).to_owned()
        } else if let Some((id, waypoints)) = &self.route_creation_mode {
            let mut s = "ROUTE: Vehicle ".to_owned();
            let ids = decimal(*id as u64);
            s.append(ids.as_str());
            s.append(" (");
            let n = decimal(waypoints.len() as u64);
            s.append(n.as_str());
            s.append(" waypoints) - Click stations, ENTER to finish");
            s
        } else if let Some((id, order)) = self.vehicle_order_mode {
            let mut s = "ORDER: Vehicle ".to_owned();
            let ids = decimal(id as u64);
            s.append(ids.as_str());
            s.append(" ");
            s.append(order_text(order));
            s
        } else if self.paused {
            "PAUSED".to_owned()
        } else {
            String::new()
        }
    }

    /// The header line (see `header_text`).
    pub fn header_text(&self, player: &Player) -> (r: String)
        ensures
            r@ == header_text(*self, *player),
    {
        let mut s = "RusTTD - ".to_owned();
        s.append(player.name.as_str());
        s.append(" | Money: $");
        let money = signed_decimal(player.money);
        s.append(money.as_str());
        s.append(" | Year: ");
        let year = decimal(1950 + (player.game_time / 365) as u64);
        s.append(year.as_str());
        s.append(" | ");
        let status = self.status_text();
        s.append(status.as_str());
        s
    }

    /// The info panel's title and text (see `info_title` and `info_text`).
    pub fn info_panel_text(&self, vehicles: &Vec<Vehicle>) -> (r: (String, String))
        ensures
            r.0@ == info_title(*self, vehicles@),
            r.1@ == info_text(*self, vehicles@),
    {
        let (x, y) = (self.cursor_x, self.cursor_y);
        if let Some(a) = self.build_mode {
            let mut s = "BUILD MODE: ".to_owned();
            s.append(build_action_text(a));
            s.append("\nCursor: ");
            let p = format_position(x, y);
            s.append(p.as_str());
            s.append("\nClick to build, ESC to cancel");
            return ("Build Mode".to_owned(), s);
        }
        match find_vehicle_at(vehicles, x, y) {
            Some(i) => {
                proof {
                    lemma_first_vehicle_at(vehicles@, x, y);
                }
                ("Vehicle Info".to_owned(), Self::format_vehicle_info(&vehicles[i], x, y))
            },
            None => {
                let body = match &self.selected_tile {
                    Some(tile) => {
                        let mut s = "Selected Tile: ".to_owned();
                        let p = format_position(x, y);
                        s.append(p.as_str());
                        s.append("\nTerrain: ");
                        s.append(terrain_text(tile.terrain));
                        s.append("\nContent: ");
                        let c = Self::format_tile_content(&tile.content);
                        s.append(c.as_str());
                        s
                    },
                    None => {
                        let mut s = "Cursor: ".to_owned();
                        let p = format_position(x, y);
                        s.append(p.as_str());
                        s.append("\nPress ENTER to select tile\nPress B for build menu\nPress ? for controls");
                        s
                    },
                };
                ("Tile Info".to_owned(), body)
            },
        }
    }
    /// How the map cell `(x, y)` is drawn (see `tile_style`).
    pub fn get_tile_style_static(world: &World, x: usize, y: usize) -> (r: TileStyle)
        ensures
            r == tile_style(*world, x, y),
    {
        let color = match world.get_tile(x, y) {
            Some(tile) => Some(tile_color_of(tile)),
            None => None,
        };
        TileStyle { color, bold: false }
    }

    /// How the map cell `(x, y)` is drawn with vehicles on the map (see
    /// `tile_style_with_vehicles`).
    pub fn get_tile_style_with_vehicles_static(world: &World, vehicles: &Vec<Vehicle>, x: usize, y: usize) -> (r: TileStyle)
        ensures
            r == tile_style_with_vehicles(*world, vehicles@, x, y),
    {
        match find_vehicle_at(vehicles, x, y) {
            Some(i) => {
                proof {
                    lemma_first_vehicle_at(vehicles@, x, y);
                }
                let color = vehicle_color_of(&vehicles[i].vehicle_type);
                TileStyle { color: Some(color), bold: true }
            },
            None => Self::get_tile_style_static(world, x, y),
        }
    }
}

} // verus!
