use vstd::prelude::*;
use crate::cargo::CargoAmounts;
use crate::world::TerrainType;
use crate::ui::{InputEvent, CursorDirection, BuildAction, VehicleOrder, VehiclePurchaseType};

verus! {

pub struct WorldRenderData {
    pub width: usize,
    pub height: usize,
    pub tiles: Vec<Vec<TileRenderData>>,
    pub vehicles: Vec<VehicleRenderData>,
}

pub struct TileRenderData {
    pub x: usize,
    pub y: usize,
    pub terrain: TerrainType,
    pub content: TileContentRenderData,
    pub ascii_char: char,
    pub style_color: String,
}

pub enum TileContentRenderData {
    Empty,
    Town { name: String, population: u32 },
    Industry { industry_type: String, production_rate: u32, stockpile: CargoAmounts },
    Station { name: String, station_type: String, cargo_waiting: CargoAmounts },
    Track { track_type: String },
    Road,
}

pub struct VehicleRenderData {
    pub id: u32,
    pub x: usize,
    pub y: usize,
    pub vehicle_type: String,
    pub state: String,
    pub cargo: CargoAmounts,
    pub ascii_char: char,
    pub style_color: String,
}

pub struct UIRenderState {
    pub cursor_x: usize,
    pub cursor_y: usize,
    pub camera_x: usize,
    pub camera_y: usize,
    pub selected_tile_info: Option<String>,
    pub show_build_menu: bool,
    pub show_vehicle_menu: bool,
    pub selected_vehicle_id: Option<u32>,
}

/// A command sent to the game server.
pub struct InputCommand {
    pub command_type: String,
    pub x: Option<usize>,
    pub y: Option<usize>,
    pub vehicle_id: Option<u32>,
    pub build_action: Option<String>,
    pub vehicle_order: Option<String>,
    pub vehicle_purchase_type: Option<String>,
}

/// The server's answer to a command.
pub struct CommandResponse {
    pub success: bool,
    pub message: String,
}

/// The event a command names: "quit", "move" (with both coordinates given, read as a
/// step up), "move_up", "move_down", "move_left", "move_right", "select", "save",
/// "load", "pause", "build_menu", "show_controls", the build actions "build_rail",
/// "build_station", "build_road", "build_bus_stop", "buy_vehicle", the vehicle orders
/// "vehicle_go_to", "vehicle_create_route", "vehicle_start_route", "vehicle_stop",
/// "vehicle_depot", "finish_route", and the purchases "buy_train", "buy_bus",
/// "buy_small_truck", "buy_large_truck", "buy_ship", "buy_small_plane",
/// "buy_large_plane", "buy_auto"; any other command names none.
pub open spec fn spec_command_event(cmd: Seq<char>, x: Option<usize>, y: Option<usize>) -> Option<InputEvent> {
    if cmd == "quit"@ {
        Some(InputEvent::Quit)
    } else if cmd == "move"@ {
        if x is Some && y is Some { Some(InputEvent::Move(CursorDirection::Up)) } else { None }
    } else if cmd == "move_up"@ {
        Some(InputEvent::Move(CursorDirection::Up))
    } else if cmd == "move_down"@ {
        Some(InputEvent::Move(CursorDirection::Down))
    } else if cmd == "move_left"@ {
        Some(InputEvent::Move(CursorDirection::Left))
    } else if cmd == "move_right"@ {
        Some(InputEvent::Move(CursorDirection::Right))
    } else if cmd == "select"@ {
        Some(InputEvent::Select)
    } else if cmd == "save"@ {
        Some(InputEvent::Save)
    } else if cmd == "load"@ {
        Some(InputEvent::Load)
    } else if cmd == "pause"@ {
        Some(InputEvent::Pause)
    } else if cmd == "build_menu"@ {
        Some(InputEvent::BuildMenu)
    } else if cmd == "show_controls"@ {
        Some(InputEvent::ShowControls)
    } else if cmd == "build_rail"@ {
        Some(InputEvent::BuildAction(BuildAction::BuildRailTrack))
    } else if cmd == "build_station"@ {
        Some(InputEvent::BuildAction(BuildAction::BuildTrainStation))
    } else if cmd == "build_road"@ {
        Some(InputEvent::BuildAction(BuildAction::BuildRoad))
    } else if cmd == "build_bus_stop"@ {
        Some(InputEvent::BuildAction(BuildAction::BuildBusStop))
    } else if cmd == "buy_vehicle"@ {
        Some(InputEvent::BuildAction(BuildAction::BuyVehicle))
    } else if cmd == "vehicle_go_to"@ {
        Some(InputEvent::VehicleOrder(VehicleOrder::GoToLocation))
    } else if cmd == "vehicle_create_route"@ {
        Some(InputEvent::VehicleOrder(VehicleOrder::CreateRoute))
    } else if cmd == "vehicle_start_route"@ {
        Some(InputEvent::VehicleOrder(VehicleOrder::StartRoute))
    } else if cmd == "vehicle_stop"@ {
        Some(InputEvent::VehicleOrder(VehicleOrder::Stop))
    } else if cmd == "vehicle_depot"@ {
        Some(InputEvent::VehicleOrder(VehicleOrder::SendToDepot))
    } else if cmd == "finish_route"@ {
        Some(InputEvent::FinishRouteCreation)
    } else if cmd == "buy_train"@ {
        Some(InputEvent::VehiclePurchase(VehiclePurchaseType::Train))
    } else if cmd == "buy_bus"@ {
        Some(InputEvent::VehiclePurchase(VehiclePurchaseType::Bus))
    } else if cmd == "buy_small_truck"@ {
        Some(InputEvent::VehiclePurchase(VehiclePurchaseType::SmallTruck))
    } else if cmd == "buy_large_truck"@ {
        Some(InputEvent::VehiclePurchase(VehiclePurchaseType::LargeTruck))
    } else if cmd == "buy_ship"@ {
        Some(InputEvent::VehiclePurchase(VehiclePurchaseType::Ship))
    } else if cmd == "buy_small_plane"@ {
        Some(InputEvent::VehiclePurchase(VehiclePurchaseType::SmallPlane))
    } else if cmd == "buy_large_plane"@ {
        Some(InputEvent::VehiclePurchase(VehiclePurchaseType::LargePlane))
    } else if cmd == "buy_auto"@ {
        Some(InputEvent::VehiclePurchase(VehiclePurchaseType::Auto))
    } else {
        None
    }
}

/// Whether `s` reads `name`.
fn is_command(s: &String, name: &str) -> (r: bool)
    ensures
        r == (s@ == name@),
{
    *s == String::from_str(name)
}

impl InputCommand {
    /// The event the command names (see `spec_command_event`).
    pub fn to_input_event(&self) -> (r: Option<InputEvent>)
        ensures
            r == spec_command_event(self.command_type@, self.x, self.y),
    {
        let c = &self.command_type;
        if is_command(c, "quit") {
            Some(InputEvent::Quit)
        } else if is_command(c, "move") {
            if self.x.is_some() && self.y.is_some() { Some(InputEvent::Move(CursorDirection::Up)) } else { None }
        } else if is_command(c, "move_up") {
            Some(InputEvent::Move(CursorDirection::Up))
        } else if is_command(c, "move_down") {
            Some(InputEvent::Move(CursorDirection::Down))
        } else if is_command(c, "move_left") {
            Some(InputEvent::Move(CursorDirection::Left))
        } else if is_command(c, "move_right") {
            Some(InputEvent::Move(CursorDirection::Right))
        } else if is_command(c, "select") {
            Some(InputEvent::Select)
        } else if is_command(c, "save") {
            Some(InputEvent::Save)
        } else if is_command(c, "load") {
            Some(InputEvent::Load)
        } else if is_command(c, "pause") {
            Some(InputEvent::Pause)
        } else if is_command(c, "build_menu") {
            Some(InputEvent::BuildMenu)
        } else if is_command(c, "show_controls") {
            Some(InputEvent::ShowControls)
        } else if is_command(c, "build_rail") {
            Some(InputEvent::BuildAction(BuildAction::BuildRailTrack))
        } else if is_command(c, "build_station") {
            Some(InputEvent::BuildAction(BuildAction::BuildTrainStation))
        } else if is_command(c, "build_road") {
            Some(InputEvent::BuildAction(BuildAction::BuildRoad))
        } else if is_command(c, "build_bus_stop") {
            Some(InputEvent::BuildAction(BuildAction::BuildBusStop))
        } else if is_command(c, "buy_vehicle") {
            Some(InputEvent::BuildAction(BuildAction::BuyVehicle))
        } else if is_command(c, "vehicle_go_to") {
            Some(InputEvent::VehicleOrder(VehicleOrder::GoToLocation))
        } else if is_command(c, "vehicle_create_route") {
            Some(InputEvent::VehicleOrder(VehicleOrder::CreateRoute))
        } else if is_command(c, "vehicle_start_route") {
            Some(InputEvent::VehicleOrder(VehicleOrder::StartRoute))
        } else if is_command(c, "vehicle_stop") {
            Some(InputEvent::VehicleOrder(VehicleOrder::Stop))
        } else if is_command(c, "vehicle_depot") {
            Some(InputEvent::VehicleOrder(VehicleOrder::SendToDepot))
        } else if is_command(c, "finish_route") {
            Some(InputEvent::FinishRouteCreation)
        } else if is_command(c, "buy_train") {
            Some(InputEvent::VehiclePurchase(VehiclePurchaseType::Train))
        } else if is_command(c, "buy_bus") {
            Some(InputEvent::VehiclePurchase(VehiclePurchaseType::Bus))
        } else if is_command(c, "buy_small_truck") {
            Some(InputEvent::VehiclePurchase(VehiclePurchaseType::SmallTruck))
        } else if is_command(c, "buy_large_truck") {
            Some(InputEvent::VehiclePurchase(VehiclePurchaseType::LargeTruck))
        } else if is_command(c, "buy_ship") {
            Some(InputEvent::VehiclePurchase(VehiclePurchaseType::Ship))
        } else if is_command(c, "buy_small_plane") {
            Some(InputEvent::VehiclePurchase(VehiclePurchaseType::SmallPlane))
        } else if is_command(c, "buy_large_plane") {
            Some(InputEvent::VehiclePurchase(VehiclePurchaseType::LargePlane))
        } else if is_command(c, "buy_auto") {
            Some(InputEvent::VehiclePurchase(VehiclePurchaseType::Auto))
        } else {
            None
        }
    }
}

/// A request to move the cursor.
pub struct MoveQuery {
    pub direction: String,
}

/// A request for an action, at a position if one is given.
pub struct ActionQuery {
    pub action: String,
    pub x: Option<usize>,
    pub y: Option<usize>,
}

/// The step a direction names: "up", "down", "left" or "right".
pub open spec fn spec_direction_named(d: Seq<char>) -> Option<CursorDirection> {
    if d == "up"@ {
        Some(CursorDirection::Up)
    } else if d == "down"@ {
        Some(CursorDirection::Down)
    } else if d == "left"@ {
        Some(CursorDirection::Left)
    } else if d == "right"@ {
        Some(CursorDirection::Right)
    } else {
        None
    }
}

/// The event an action names: "select", "build_menu", "save" or "load".
pub open spec fn spec_action_named(a: Seq<char>) -> Option<InputEvent> {
    if a == "select"@ {
        Some(InputEvent::Select)
    } else if a == "build_menu"@ {
        Some(InputEvent::BuildMenu)
    } else if a == "save"@ {
        Some(InputEvent::Save)
    } else if a == "load"@ {
        Some(InputEvent::Load)
    } else {
        None
    }
}

/// The build action a name stands for: "rail", "station", "road", "bus_stop" or "vehicle".
pub open spec fn spec_build_action_named(a: Seq<char>) -> Option<BuildAction> {
    if a == "rail"@ {
        Some(BuildAction::BuildRailTrack)
    } else if a == "station"@ {
        Some(BuildAction::BuildTrainStation)
    } else if a == "road"@ {
        Some(BuildAction::BuildRoad)
    } else if a == "bus_stop"@ {
        Some(BuildAction::BuildBusStop)
    } else if a == "vehicle"@ {
        Some(BuildAction::BuyVehicle)
    } else {
        None
    }
}

/// The order a name stands for: "go_to", "create_route", "start_route", "stop" or "depot".
pub open spec fn spec_vehicle_order_named(a: Seq<char>) -> Option<VehicleOrder> {
    if a == "go_to"@ {
        Some(VehicleOrder::GoToLocation)
    } else if a == "create_route"@ {
        Some(VehicleOrder::CreateRoute)
    } else if a == "start_route"@ {
        Some(VehicleOrder::StartRoute)
    } else if a == "stop"@ {
        Some(VehicleOrder::Stop)
    } else if a == "depot"@ {
        Some(VehicleOrder::SendToDepot)
    } else {
        None
    }
}

/// The kind of vehicle a name stands for: "train", "bus", "small_truck", "large_truck",
/// "ship", "small_plane", "large_plane" or "auto".
pub open spec fn spec_purchase_type_named(a: Seq<char>) -> Option<VehiclePurchaseType> {
    if a == "train"@ {
        Some(VehiclePurchaseType::Train)
    } else if a == "bus"@ {
        Some(VehiclePurchaseType::Bus)
    } else if a == "small_truck"@ {
        Some(VehiclePurchaseType::SmallTruck)
    } else if a == "large_truck"@ {
        Some(VehiclePurchaseType::LargeTruck)
    } else if a == "ship"@ {
        Some(VehiclePurchaseType::Ship)
    } else if a == "small_plane"@ {
        Some(VehiclePurchaseType::SmallPlane)
    } else if a == "large_plane"@ {
        Some(VehiclePurchaseType::LargePlane)
    } else if a == "auto"@ {
        Some(VehiclePurchaseType::Auto)
    } else {
        None
    }
}

impl MoveQuery {
    /// The move the query asks for (see `spec_direction_named`).
    pub fn to_input_event(&self) -> (r: Option<InputEvent>)
        ensures
            r == match spec_direction_named(self.direction@) {
                Some(d) => Some(InputEvent::Move(d)),
                None => None,
            },
    {
        let d = &self.direction;
        if is_command(d, "up") {
            Some(InputEvent::Move(CursorDirection::Up))
        } else if is_command(d, "down") {
            Some(InputEvent::Move(CursorDirection::Down))
        } else if is_command(d, "left") {
            Some(InputEvent::Move(CursorDirection::Left))
        } else if is_command(d, "right") {
            Some(InputEvent::Move(CursorDirection::Right))
        } else {
            None
        }
    }
}

impl ActionQuery {
    /// The event the query's action names (see `spec_action_named`).
    pub fn to_input_event(&self) -> (r: Option<InputEvent>)
        ensures
            r == spec_action_named(self.action@),
    {
        let a = &self.action;
        if is_command(a, "select") {
            Some(InputEvent::Select)
        } else if is_command(a, "build_menu") {
            Some(InputEvent::BuildMenu)
        } else if is_command(a, "save") {
            Some(InputEvent::Save)
        } else if is_command(a, "load") {
            Some(InputEvent::Load)
        } else {
            None
        }
    }

    /// The vehicle order the query's action names (see `spec_vehicle_order_named`).
    pub fn vehicle_order(&self) -> (r: Option<VehicleOrder>)
        ensures
            r == spec_vehicle_order_named(self.action@),
    {
        let a = &self.action;
        if is_command(a, "go_to") {
            Some(VehicleOrder::GoToLocation)
        } else if is_command(a, "create_route") {
            Some(VehicleOrder::CreateRoute)
        } else if is_command(a, "start_route") {
            Some(VehicleOrder::StartRoute)
        } else if is_command(a, "stop") {
            Some(VehicleOrder::Stop)
        } else if is_command(a, "depot") {
            Some(VehicleOrder::SendToDepot)
        } else {
            None
        }
    }
}

/// The build action a name stands for (see `spec_build_action_named`).
pub fn build_action_named(name: &String) -> (r: Option<BuildAction>)
    ensures
        r == spec_build_action_named(name@),
{
    if is_command(name, "rail") {
        Some(BuildAction::BuildRailTrack)
    } else if is_command(name, "station") {
        Some(BuildAction::BuildTrainStation)
    } else if is_command(name, "road") {
        Some(BuildAction::BuildRoad)
    } else if is_command(name, "bus_stop") {
        Some(BuildAction::BuildBusStop)
    } else if is_command(name, "vehicle") {
        Some(BuildAction::BuyVehicle)
    } else {
        None
    }
}

/// The kind of vehicle a name stands for (see `spec_purchase_type_named`).
pub fn purchase_type_named(name: &String) -> (r: Option<VehiclePurchaseType>)
    ensures
        r == spec_purchase_type_named(name@),
{
    if is_command(name, "train") {
        Some(VehiclePurchaseType::Train)
    } else if is_command(name, "bus") {
        Some(VehiclePurchaseType::Bus)
    } else if is_command(name, "small_truck") {
        Some(VehiclePurchaseType::SmallTruck)
    } else if is_command(name, "large_truck") {
        Some(VehiclePurchaseType::LargeTruck)
    } else if is_command(name, "ship") {
        Some(VehiclePurchaseType::Ship)
    } else if is_command(name, "small_plane") {
        Some(VehiclePurchaseType::SmallPlane)
    } else if is_command(name, "large_plane") {
        Some(VehiclePurchaseType::LargePlane)
    } else if is_command(name, "auto") {
        Some(VehiclePurchaseType::Auto)
    } else {
        None
    }
}

} // verus!
