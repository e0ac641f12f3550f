use vstd::prelude::*;
use crate::server::{WorldRenderData, TileRenderData, TileContentRenderData, VehicleRenderData, UIRenderState};
use crate::world::{World, Tile, TileContent, TrackType, spec_tile_char, spec_vehicle_char};
use crate::vehicle::{Vehicle, VehicleType, TruckType};
use crate::ui::UI;
use crate::ui_text::{
    TileColor, tile_color, vehicle_color, tile_color_of, vehicle_color_of, industry_type_name, station_type_name,
    terrain_name, vehicle_state_name, terrain_text, vehicle_state_text, industry_type_text, station_type_text,
};

verus! {

/// The name of a colour as the web page takes it.
pub open spec fn color_name(c: TileColor) -> Seq<char> {
    match c {
        TileColor::Blue => "blue"@,
        TileColor::Red => "red"@,
        TileColor::Green => "green"@,
        TileColor::Yellow => "yellow"@,
        TileColor::Gray => "gray"@,
        TileColor::White => "white"@,
        TileColor::Cyan => "cyan"@,
        TileColor::Magenta => "magenta"@,
    }
}

/// How the web page names a kind of track.
pub open spec fn track_text(t: TrackType) -> Seq<char> {
    match t {
        TrackType::Straight { horizontal } => if horizontal { "Straight (Horizontal)"@ } else { "Straight (Vertical)"@ },
        TrackType::Curve { .. } => "Curve"@,
        TrackType::Junction => "Junction"@,
    }
}

/// How the web page names a kind of vehicle.
pub open spec fn vehicle_kind_name(vt: VehicleType) -> Seq<char> {
    match vt {
        VehicleType::Train { .. } => "Train"@,
        VehicleType::Road { truck_type } => match truck_type {
            TruckType::Bus { .. } => "Bus"@,
            TruckType::SmallTruck { .. } => "Small Truck"@,
            TruckType::LargeTruck { .. } => "Large Truck"@,
        },
        VehicleType::Ship { .. } => "Ship"@,
        VehicleType::Aircraft { .. } => "Aircraft"@,
    }
}

/// `r` shows content `c`: a town by name and population, an industry by type, rate and
/// stockpile, a station by name, type and waiting cargo, a track by its kind.
pub open spec fn content_shown(r: TileContentRenderData, c: TileContent) -> bool {
    match c {
        TileContent::Empty => r is Empty,
        TileContent::Town(t) => r matches TileContentRenderData::Town { name, population }
            && name@ == t.name@ && population == t.population,
        TileContent::Industry(i) => r matches TileContentRenderData::Industry { industry_type, production_rate, stockpile }
            && industry_type@ == industry_type_name(i.industry_type) && production_rate == i.production_rate
            && stockpile == i.stockpile,
        TileContent::Station(st) => r matches TileContentRenderData::Station { name, station_type, cargo_waiting }
            && name@ == st.name@ && station_type@ == station_type_name(st.station_type) && cargo_waiting == st.cargo_waiting,
        TileContent::Track(t) => r matches TileContentRenderData::Track { track_type } && track_type@ == track_text(t),
        TileContent::Road => r is Road,
    }
}

/// `r` shows `tile`, standing at `(x, y)`, with its symbol and colour.
pub open spec fn tile_shown(r: TileRenderData, tile: Tile, x: int, y: int) -> bool {
    &&& r.x == x
    &&& r.y == y
    &&& r.terrain == tile.terrain
    &&& content_shown(r.content, tile.content)
    &&& r.ascii_char == spec_tile_char(tile)
    &&& r.style_color@ == color_name(tile_color(tile))
}

/// `r` shows vehicle `v`: its id, place, kind, state, cargo, symbol and colour.
pub open spec fn vehicle_shown(r: VehicleRenderData, v: Vehicle) -> bool {
    &&& r.id == v.id
    &&& r.x == v.x
    &&& r.y == v.y
    &&& r.vehicle_type@ == vehicle_kind_name(v.vehicle_type)
    &&& r.state@ == vehicle_state_name(v.state)
    &&& r.cargo == v.cargo
    &&& r.ascii_char == spec_vehicle_char(v.vehicle_type)
    &&& r.style_color@ == color_name(vehicle_color(v.vehicle_type))
}

/// `r` shows the map of `w`, row by row and tile by tile, and the vehicles `vs` in order.
pub open spec fn world_shown(r: WorldRenderData, w: World, vs: Seq<Vehicle>) -> bool {
    &&& r.width == w.width
    &&& r.height == w.height
    &&& r.tiles@.len() == w.tiles@.len()
    &&& forall|y: int| 0 <= y < w.tiles@.len() ==> #[trigger] r.tiles@[y]@.len() == w.tiles@[y]@.len()
    &&& forall|y: int, x: int| 0 <= y < w.tiles@.len() && 0 <= x < w.tiles@[y]@.len() ==>
        tile_shown(#[trigger] r.tiles@[y]@[x], w.tiles@[y]@[x], x, y)
    &&& r.vehicles@.len() == vs.len()
    &&& forall|i: int| 0 <= i < vs.len() ==> vehicle_shown(#[trigger] r.vehicles@[i], vs[i])
}

/// `r` shows the interface `ui`: cursor, view, open menus, the selected vehicle, and the
/// terrain of the selected tile.
pub open spec fn ui_shown(r: UIRenderState, ui: UI) -> bool {
    &&& r.cursor_x == ui.cursor_x
    &&& r.cursor_y == ui.cursor_y
    &&& r.camera_x == ui.camera_x
    &&& r.camera_y == ui.camera_y
    &&& r.show_build_menu == ui.show_build_menu
    &&& r.show_vehicle_menu == ui.show_vehicle_menu
    &&& r.selected_vehicle_id == ui.selected_vehicle_id
    &&& match ui.selected_tile {
        Some(t) => r.selected_tile_info matches Some(info) && info@ == terrain_name(t.terrain),
        None => r.selected_tile_info is None,
    }
}

fn color_text(c: TileColor) -> (r: &'static str)
    ensures
        r@ == color_name(c),
{
    match c {
        TileColor::Blue => "blue",
        TileColor::Red => "red",
        TileColor::Green => "green",
        TileColor::Yellow => "yellow",
        TileColor::Gray => "gray",
        TileColor::White => "white",
        TileColor::Cyan => "cyan",
        TileColor::Magenta => "magenta",
    }
}

fn track_type_text(t: &TrackType) -> (r: &'static str)
    ensures
        r@ == track_text(*t),
{
    match t {
        TrackType::Straight { horizontal } => if *horizontal { "Straight (Horizontal)" } else { "Straight (Vertical)" },
        TrackType::Curve { .. } => "Curve",
        TrackType::Junction => "Junction",
    }
}

fn vehicle_kind_text(vt: &VehicleType) -> (r: &'static str)
    ensures
        r@ == vehicle_kind_name(*vt),
{
    match vt {
        VehicleType::Train { .. } => "Train",
        VehicleType::Road { truck_type } => match truck_type {
            TruckType::Bus { .. } => "Bus",
            TruckType::SmallTruck { .. } => "Small Truck",
            TruckType::LargeTruck { .. } => "Large Truck",
        },
        VehicleType::Ship { .. } => "Ship",
        VehicleType::Aircraft { .. } => "Aircraft",
    }
}

impl TileContentRenderData {
    /// What the web page shows of a tile's content (see `content_shown`).
    pub fn from_content(content: &TileContent) -> (r: TileContentRenderData)
        ensures
            content_shown(r, *content),
    {
        match content {
            TileContent::Empty => TileContentRenderData::Empty,
            TileContent::Town(t) => TileContentRenderData::Town { name: t.name.clone(), population: t.population },
            TileContent::Industry(i) => TileContentRenderData::Industry {
                industry_type: industry_type_text(i.industry_type).to_owned(),
                production_rate: i.production_rate,
                stockpile: i.stockpile,
            },
            TileContent::Station(st) => TileContentRenderData::Station {
                name: st.name.clone(),
                station_type: station_type_text(st.station_type).to_owned(),
                cargo_waiting: st.cargo_waiting,
            },
            TileContent::Track(t) => TileContentRenderData::Track { track_type: track_type_text(t).to_owned() },
            TileContent::Road => TileContentRenderData::Road,
        }
    }
}

impl TileRenderData {
    /// What the web page shows of `tile` at `(x, y)` (see `tile_shown`).
    pub fn from_tile(tile: &Tile, x: usize, y: usize) -> (r: TileRenderData)
        ensures
            tile_shown(r, *tile, x as int, y as int),
    {
        TileRenderData {
            x,
            y,
            terrain: tile.terrain,
            content: TileContentRenderData::from_content(&tile.content),
            ascii_char: tile.ascii_char(),
            style_color: color_text(tile_color_of(tile)).to_owned(),
        }
    }
}

impl VehicleRenderData {
    /// What the web page shows of a vehicle (see `vehicle_shown`).
    pub fn from_vehicle(v: &Vehicle) -> (r: VehicleRenderData)
        ensures
            vehicle_shown(r, *v),
    {
        VehicleRenderData {
            id: v.id,
            x: v.x,
            y: v.y,
            vehicle_type: vehicle_kind_text(&v.vehicle_type).to_owned(),
            state: vehicle_state_text(&v.state).to_owned(),
            cargo: v.cargo,
            ascii_char: World::get_vehicle_char(&v.vehicle_type),
            style_color: color_text(vehicle_color_of(&v.vehicle_type)).to_owned(),
        }
    }
}

impl WorldRenderData {
    /// What the web page shows of the map and the vehicles (see `world_shown`).
    pub fn from_world(world: &World, vehicles: &Vec<Vehicle>) -> (r: WorldRenderData)
        ensures
            world_shown(r, *world, vehicles@),
    {
        let mut tiles: Vec<Vec<TileRenderData>> = Vec::new();
        let mut y: usize = 0;
        while y < world.tiles.len()
            invariant
                0 <= y <= world.tiles@.len(),
                tiles@.len() == y,
                forall|j: int| 0 <= j < y ==> #[trigger] tiles@[j]@.len() == world.tiles@[j]@.len(),
                forall|j: int, i: int| 0 <= j < y && 0 <= i < world.tiles@[j]@.len() ==>
                    tile_shown(#[trigger] tiles@[j]@[i], world.tiles@[j]@[i], i, j),
            decreases world.tiles@.len() - y,
        {
            let mut row: Vec<TileRenderData> = Vec::new();
            let mut x: usize = 0;
            while x < world.tiles[y].len()
                invariant
                    0 <= y < world.tiles@.len(),
                    0 <= x <= world.tiles@[y as int]@.len(),
                    row@.len() == x,
                    forall|i: int| 0 <= i < x ==> tile_shown(#[trigger] row@[i], world.tiles@[y as int]@[i], i, y as int),
                decreases world.tiles@[y as int]@.len() - x,
            {
                row.push(TileRenderData::from_tile(&world.tiles[y][x], x, y));
                x = x + 1;
            }
            tiles.push(row);
            y = y + 1;
        }
        let mut shown: Vec<VehicleRenderData> = Vec::new();
        let mut i: usize = 0;
        while i < vehicles.len()
            invariant
                0 <= i <= vehicles@.len(),
                shown@.len() == i,
                forall|k: int| 0 <= k < i ==> vehicle_shown(#[trigger] shown@[k], vehicles@[k]),
            decreases vehicles@.len() - i,
        {
            shown.push(VehicleRenderData::from_vehicle(&vehicles[i]));
            i = i + 1;
        }
        WorldRenderData { width: world.width, height: world.height, tiles, vehicles: shown }
    }
}

impl UIRenderState {
    /// What the web page shows of the interface (see `ui_shown`).
    pub fn from_ui(ui: &UI) -> (r: UIRenderState)
        ensures
            ui_shown(r, *ui),
    {
        let selected_tile_info = match &ui.selected_tile {
            Some(t) => Some(terrain_text(t.terrain).to_owned()),
            None => None,
        };
        UIRenderState {
            cursor_x: ui.cursor_x,
            cursor_y: ui.cursor_y,
            camera_x: ui.camera_x,
            camera_y: ui.camera_y,
            selected_tile_info,
            show_build_menu: ui.show_build_menu,
            show_vehicle_menu: ui.show_vehicle_menu,
            selected_vehicle_id: ui.selected_vehicle_id,
        }
    }
}

} // verus!
