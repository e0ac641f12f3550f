use vstd::prelude::*;
use crate::cargo::{CargoType, CargoAmounts};
use crate::world::{World, Tile, TerrainType, TileContent, Town, Industry, IndustryType, Station, StationType, TrackType, Direction};
use crate::player::{Player, Route};
use crate::vehicle::{Vehicle, VehicleType, VehicleState, same_vehicle_type};
use crate::economy::{Economy, EconomicState, SupplyDemand};
use crate::ai::{AIPlayer, AIDifficulty, AIStrategy, AITarget, same_target};
use crate::ui::spec_initial_ui;
use crate::game::Game;
use crate::seqs::copy_positions;

verus! {

/// A saved game.
pub struct GameSave {
    pub world: WorldSave,
    pub player: PlayerSave,
    pub ai_players: Vec<AIPlayerSave>,
    pub economy: EconomySave,
    pub game_time: u32,
}

pub struct WorldSave {
    pub width: usize,
    pub height: usize,
    pub tiles: Vec<Vec<TileSave>>,
    pub towns: Vec<(usize, usize)>,
    pub industries: Vec<(usize, usize)>,
    pub stations: Vec<(usize, usize)>,
}

pub struct TileSave {
    pub terrain: TerrainType,
    pub content: TileContentSave,
    pub height: u8,
}

pub enum TileContentSave {
    Empty,
    Town(TownSave),
    Industry(IndustrySave),
    Station(StationSave),
    Track(TrackTypeSave),
    Road,
}

/// A saved town; `growth_rate` in hundredths of a percent, as in `Town`.
pub struct TownSave {
    pub name: String,
    pub population: u32,
    pub growth_rate: u32,
    pub cargo_demand: CargoAmounts,
    pub cargo_supply: CargoAmounts,
}

pub struct IndustrySave {
    pub industry_type: IndustryType,
    pub production_rate: u32,
    pub cargo_input: Vec<CargoType>,
    pub cargo_output: Vec<CargoType>,
    pub stockpile: CargoAmounts,
}

pub struct StationSave {
    pub name: String,
    pub station_type: StationType,
    pub connections: Vec<(usize, usize)>,
    pub cargo_waiting: CargoAmounts,
}

#[derive(Clone, Copy, Debug, PartialEq, Eq, Structural)]
pub enum TrackTypeSave {
    Straight { horizontal: bool },
    Curve { from_dir: u8, to_dir: u8 },
    Junction,
}

/// A saved company; `reputation` in whole points, as in `Player`.
pub struct PlayerSave {
    pub name: String,
    pub money: i64,
    pub vehicles: Vec<VehicleSave>,
    pub stations: Vec<(usize, usize)>,
    pub routes: Vec<RouteSave>,
    pub reputation: u32,
    pub game_time: u32,
}

pub struct RouteSave {
    pub id: u32,
    pub name: String,
    pub stations: Vec<(usize, usize)>,
    pub vehicle_ids: Vec<u32>,
    pub cargo_types: Vec<CargoType>,
    pub profit: i64,
}

pub struct VehicleSave {
    pub id: u32,
    pub vehicle_type: VehicleType,
    pub x: usize,
    pub y: usize,
    pub state: VehicleStateSave,
    pub cargo: CargoAmounts,
    pub route: Vec<(usize, usize)>,
    pub route_index: usize,
    pub current_path: Vec<(usize, usize)>,
    pub path_index: usize,
    pub age: u32,
    pub reliability: u8,
    pub speed: u32,
    pub last_service: u32,
    pub profit: i64,
    pub on_time_deliveries: u32,
    pub total_deliveries: u32,
}

/// A saved vehicle state; `progress` in thousandths, as in `VehicleState`.
#[derive(Clone, Copy, Debug)]
pub enum VehicleStateSave {
    Idle,
    Moving { from: (usize, usize), to: (usize, usize), progress: u32 },
    Loading,
    Unloading,
    Broken,
}

/// A saved market: prices in thousandths and `inflation_rate` in thousandths, as in
/// `Economy`.
pub struct EconomySave {
    pub cargo_prices: [u64; 9],
    pub supply_demand: [SupplyDemand; 9],
    pub inflation_rate: u32,
    pub economic_state: EconomicState,
    pub month: u32,
}

pub struct AIPlayerSave {
    pub player: PlayerSave,
    pub difficulty: AIDifficulty,
    pub strategy: AIStrategy,
    pub decision_timer: u32,
    pub last_action: u32,
    pub targets: Vec<AITarget>,
}

/// The number a direction is saved as: north 0, south 1, east 2, west 3.
pub open spec fn spec_direction_code(d: Direction) -> u8 {
    match d {
        Direction::North => 0,
        Direction::South => 1,
        Direction::East => 2,
        Direction::West => 3,
    }
}

/// The direction a saved number stands for; any number above 2 reads as west.
pub open spec fn spec_direction_of(code: u8) -> Direction {
    if code == 0 {
        Direction::North
    } else if code == 1 {
        Direction::South
    } else if code == 2 {
        Direction::East
    } else {
        Direction::West
    }
}

/// A track is saved by its shape, a curve with its two directions.
pub open spec fn spec_track_saved(t: TrackType) -> TrackTypeSave {
    match t {
        TrackType::Straight { horizontal } => TrackTypeSave::Straight { horizontal },
        TrackType::Curve { from_dir, to_dir } => TrackTypeSave::Curve {
            from_dir: spec_direction_code(from_dir),
            to_dir: spec_direction_code(to_dir),
        },
        TrackType::Junction => TrackTypeSave::Junction,
    }
}

/// A saved track is loaded by its shape, a curve with its two directions.
pub open spec fn spec_track_loaded(s: TrackTypeSave) -> TrackType {
    match s {
        TrackTypeSave::Straight { horizontal } => TrackType::Straight { horizontal },
        TrackTypeSave::Curve { from_dir, to_dir } => TrackType::Curve {
            from_dir: spec_direction_of(from_dir),
            to_dir: spec_direction_of(to_dir),
        },
        TrackTypeSave::Junction => TrackType::Junction,
    }
}

pub open spec fn spec_vehicle_state_saved(st: VehicleState) -> VehicleStateSave {
    match st {
        VehicleState::Idle => VehicleStateSave::Idle,
        VehicleState::Moving { from, to, progress } => VehicleStateSave::Moving { from, to, progress },
        VehicleState::Loading => VehicleStateSave::Loading,
        VehicleState::Unloading => VehicleStateSave::Unloading,
        VehicleState::Broken => VehicleStateSave::Broken,
    }
}

pub open spec fn spec_vehicle_state_loaded(s: VehicleStateSave) -> VehicleState {
    match s {
        VehicleStateSave::Idle => VehicleState::Idle,
        VehicleStateSave::Moving { from, to, progress } => VehicleState::Moving { from, to, progress },
        VehicleStateSave::Loading => VehicleState::Loading,
        VehicleStateSave::Unloading => VehicleState::Unloading,
        VehicleStateSave::Broken => VehicleState::Broken,
    }
}

/// `s` is the saved form of tile content `c`: the same kind, with the town's name,
/// population, growth and cargo tables, the industry's type, rate, cargo lists and
/// stockpile, the station's name, type, connections and waiting cargo, and the track.
pub open spec fn spec_content_saved(c: TileContent, s: TileContentSave) -> bool {
    match (c, s) {
        (TileContent::Empty, TileContentSave::Empty) => true,
        (TileContent::Town(t), TileContentSave::Town(ts)) => ts.name == t.name && ts.population == t.population
            && ts.growth_rate == t.growth_rate && ts.cargo_demand == t.cargo_demand && ts.cargo_supply == t.cargo_supply,
        (TileContent::Industry(i), TileContentSave::Industry(is)) => is.industry_type == i.industry_type
            && is.production_rate == i.production_rate && is.cargo_input@ == i.cargo_input@ && is.cargo_output@ == i.cargo_output@
            && is.stockpile == i.stockpile,
        (TileContent::Station(st), TileContentSave::Station(ss)) => ss.name == st.name && ss.station_type == st.station_type
            && ss.connections@ == st.connections@ && ss.cargo_waiting == st.cargo_waiting,
        (TileContent::Track(t), TileContentSave::Track(ts)) => ts == spec_track_saved(t),
        (TileContent::Road, TileContentSave::Road) => true,
        _ => false,
    }
}

/// `c` is the content saved as `s`: the same kind, figures and cargo.
pub open spec fn spec_content_loaded(s: TileContentSave, c: TileContent) -> bool {
    match (s, c) {
        (TileContentSave::Empty, TileContent::Empty) => true,
        (TileContentSave::Town(ts), TileContent::Town(t)) => t.name == ts.name && t.population == ts.population
            && t.growth_rate == ts.growth_rate && t.cargo_demand == ts.cargo_demand && t.cargo_supply == ts.cargo_supply,
        (TileContentSave::Industry(is), TileContent::Industry(i)) => i.industry_type == is.industry_type
            && i.production_rate == is.production_rate && i.cargo_input@ == is.cargo_input@
            && i.cargo_output@ == is.cargo_output@ && i.stockpile == is.stockpile,
        (TileContentSave::Station(ss), TileContent::Station(st)) => st.name == ss.name && st.station_type == ss.station_type
            && st.connections@ == ss.connections@ && st.cargo_waiting == ss.cargo_waiting,
        (TileContentSave::Track(ts), TileContent::Track(t)) => t == spec_track_loaded(ts),
        (TileContentSave::Road, TileContent::Road) => true,
        _ => false,
    }
}

pub open spec fn spec_tile_saved(t: Tile, s: TileSave) -> bool {
    s.terrain == t.terrain && s.height == t.height && spec_content_saved(t.content, s.content)
}

pub open spec fn spec_tile_loaded(s: TileSave, t: Tile) -> bool {
    t.terrain == s.terrain && t.height == s.height && spec_content_loaded(s.content, t.content)
}

/// `s` is the saved form of the map: its size, lists and every tile.
pub open spec fn spec_world_saved(w: World, s: WorldSave) -> bool {
    &&& s.width == w.width
    &&& s.height == w.height
    &&& s.towns@ == w.towns@
    &&& s.industries@ == w.industries@
    &&& s.stations@ == w.stations@
    &&& s.tiles@.len() == w.tiles@.len()
    &&& forall|y: int| 0 <= y < w.tiles@.len() ==> (#[trigger] s.tiles@[y])@.len() == w.tiles@[y]@.len()
    &&& forall|y: int, x: int| 0 <= y < w.tiles@.len() && 0 <= x < w.tiles@[y]@.len() ==>
        spec_tile_saved(w.tiles@[y]@[x], #[trigger] s.tiles@[y]@[x])
}

/// `w` is the map saved as `s`.
pub open spec fn spec_world_loaded(s: WorldSave, w: World) -> bool {
    &&& w.width == s.width
    &&& w.height == s.height
    &&& w.towns == s.towns
    &&& w.industries == s.industries
    &&& w.stations == s.stations
    &&& w.tiles@.len() == s.tiles@.len()
    &&& forall|y: int| 0 <= y < s.tiles@.len() ==> (#[trigger] w.tiles@[y])@.len() == s.tiles@[y]@.len()
    &&& forall|y: int, x: int| 0 <= y < s.tiles@.len() && 0 <= x < s.tiles@[y]@.len() ==>
        spec_tile_loaded(s.tiles@[y]@[x], #[trigger] w.tiles@[y]@[x])
}

/// `s` is the saved form of the vehicle: all of it.
pub open spec fn spec_vehicle_saved(v: Vehicle, s: VehicleSave) -> bool {
    &&& s.id == v.id
    &&& same_vehicle_type(s.vehicle_type, v.vehicle_type)
    &&& s.x == v.x
    &&& s.y == v.y
    &&& s.state == spec_vehicle_state_saved(v.state)
    &&& s.cargo == v.cargo
    &&& s.route@ == v.route@
    &&& s.route_index == v.route_index
    &&& s.current_path@ == v.current_path@
    &&& s.path_index == v.path_index
    &&& s.age == v.age
    &&& s.reliability == v.reliability
    &&& s.speed == v.speed
    &&& s.last_service == v.last_service
    &&& s.profit == v.profit
    &&& s.on_time_deliveries == v.on_time_deliveries
    &&& s.total_deliveries == v.total_deliveries
}

/// `v` is the vehicle saved as `s`.
pub open spec fn spec_vehicle_loaded(s: VehicleSave, v: Vehicle) -> bool {
    &&& v.id == s.id
    &&& v.vehicle_type == s.vehicle_type
    &&& v.x == s.x
    &&& v.y == s.y
    &&& v.state == spec_vehicle_state_loaded(s.state)
    &&& v.cargo == s.cargo
    &&& v.route == s.route
    &&& v.route_index == s.route_index
    &&& v.current_path == s.current_path
    &&& v.path_index == s.path_index
    &&& v.age == s.age
    &&& v.reliability == s.reliability
    &&& v.speed == s.speed
    &&& v.last_service == s.last_service
    &&& v.profit == s.profit
    &&& v.on_time_deliveries == s.on_time_deliveries
    &&& v.total_deliveries == s.total_deliveries
}

pub open spec fn spec_route_saved(r: Route, s: RouteSave) -> bool {
    &&& s.id == r.id
    &&& s.name == r.name
    &&& s.stations@ == r.stations@
    &&& s.vehicle_ids@ == r.vehicle_ids@
    &&& s.cargo_types@ == r.cargo_types@
    &&& s.profit == r.profit
}

/// `s` is the saved form of the company: all of it, vehicles as `spec_vehicle_saved` says.
pub open spec fn spec_player_saved(p: Player, s: PlayerSave) -> bool {
    &&& s.name == p.name
    &&& s.money == p.money
    &&& s.vehicles@.len() == p.vehicles@.len()
    &&& forall|i: int| 0 <= i < p.vehicles@.len() ==> spec_vehicle_saved(p.vehicles@[i], #[trigger] s.vehicles@[i])
    &&& s.stations@ == p.stations@
    &&& s.routes@.len() == p.routes@.len()
    &&& forall|i: int| 0 <= i < p.routes@.len() ==> spec_route_saved(p.routes@[i], #[trigger] s.routes@[i])
    &&& s.reputation == p.reputation
    &&& s.game_time == p.game_time
}

/// `p` is the company saved as `s`.
pub open spec fn spec_player_loaded(s: PlayerSave, p: Player) -> bool {
    &&& p.name == s.name
    &&& p.money == s.money
    &&& p.vehicles@.len() == s.vehicles@.len()
    &&& forall|i: int| 0 <= i < s.vehicles@.len() ==> spec_vehicle_loaded(s.vehicles@[i], #[trigger] p.vehicles@[i])
    &&& p.stations == s.stations
    &&& p.routes@.len() == s.routes@.len()
    &&& forall|i: int| 0 <= i < s.routes@.len() ==> spec_route_saved(#[trigger] p.routes@[i], s.routes@[i])
    &&& p.reputation == s.reputation
    &&& p.game_time == s.game_time
}

/// `s` is the saved form of the market: all of it.
pub open spec fn spec_economy_saved(e: Economy, s: EconomySave) -> bool {
    &&& s.cargo_prices == e.cargo_prices
    &&& s.supply_demand == e.supply_demand
    &&& s.inflation_rate == e.inflation_rate
    &&& s.economic_state == e.economic_state
    &&& s.month == e.month
}

/// `e` is the market saved as `s`.
pub open spec fn spec_economy_loaded(s: EconomySave, e: Economy) -> bool {
    e == Economy {
        cargo_prices: s.cargo_prices,
        supply_demand: s.supply_demand,
        inflation_rate: s.inflation_rate,
        economic_state: s.economic_state,
        month: s.month,
    }
}

/// `t` and `u` hold the same targets, in order.
pub open spec fn same_targets(t: Seq<AITarget>, u: Seq<AITarget>) -> bool {
    &&& t.len() == u.len()
    &&& forall|k: int| 0 <= k < t.len() ==> same_target(#[trigger] t[k], u[k])
}

pub open spec fn spec_ai_saved(a: AIPlayer, s: AIPlayerSave) -> bool {
    &&& spec_player_saved(a.player, s.player)
    &&& s.difficulty == a.difficulty
    &&& s.strategy == a.strategy
    &&& s.decision_timer == a.decision_timer
    &&& s.last_action == a.last_action
    &&& same_targets(s.targets@, a.targets@)
}

/// `a` is the computer company saved as `s`.
pub open spec fn spec_ai_loaded(s: AIPlayerSave, a: AIPlayer) -> bool {
    &&& spec_player_loaded(s.player, a.player)
    &&& a.difficulty == s.difficulty
    &&& a.strategy == s.strategy
    &&& a.decision_timer == s.decision_timer
    &&& a.last_action == s.last_action
    &&& a.targets == s.targets
}

/// `s` is the saved form of the game: map, company, computer companies, market, and the
/// company's clock.
pub open spec fn spec_game_saved(g: Game, s: GameSave) -> bool {
    &&& spec_world_saved(g.world, s.world)
    &&& spec_player_saved(g.player, s.player)
    &&& s.ai_players@.len() == g.ai_players@.len()
    &&& forall|i: int| 0 <= i < g.ai_players@.len() ==> spec_ai_saved(g.ai_players@[i], #[trigger] s.ai_players@[i])
    &&& spec_economy_saved(g.economy, s.economy)
    &&& s.game_time == g.player.game_time
}

/// `g` is the game saved as `s`, with a fresh interface, running.
pub open spec fn spec_game_loaded(s: GameSave, g: Game) -> bool {
    &&& spec_world_loaded(s.world, g.world)
    &&& spec_player_loaded(s.player, g.player)
    &&& g.ai_players@.len() == s.ai_players@.len()
    &&& forall|i: int| 0 <= i < s.ai_players@.len() ==> spec_ai_loaded(s.ai_players@[i], #[trigger] g.ai_players@[i])
    &&& spec_economy_loaded(s.economy, g.economy)
    &&& spec_initial_ui(g.ui)
    &&& g.running
}

fn copy_cargo_types(v: &Vec<CargoType>) -> (r: Vec<CargoType>)
    ensures
        r@ == v@,
{
    let mut r: Vec<CargoType> = Vec::new();
    let mut i: usize = 0;
    while i < v.len()
        invariant
            0 <= i <= v@.len(),
            r@ == v@.take(i as int),
        decreases v@.len() - i,
    {
        r.push(v[i]);
        i = i + 1;
        assert(r@ =~= v@.take(i as int));
    }
    assert(v@.take(v@.len() as int) =~= v@);
    r
}

fn copy_ids(v: &Vec<u32>) -> (r: Vec<u32>)
    ensures
        r@ == v@,
{
    let mut r: Vec<u32> = Vec::new();
    let mut i: usize = 0;
    while i < v.len()
        invariant
            0 <= i <= v@.len(),
            r@ == v@.take(i as int),
        decreases v@.len() - i,
    {
        r.push(v[i]);
        i = i + 1;
        assert(r@ =~= v@.take(i as int));
    }
    assert(v@.take(v@.len() as int) =~= v@);
    r
}

fn direction_code(d: Direction) -> (r: u8)
    ensures
        r == spec_direction_code(d),
{
    match d {
        Direction::North => 0,
        Direction::South => 1,
        Direction::East => 2,
        Direction::West => 3,
    }
}

fn direction_of(code: u8) -> (r: Direction)
    ensures
        r == spec_direction_of(code),
{
    if code == 0 {
        Direction::North
    } else if code == 1 {
        Direction::South
    } else if code == 2 {
        Direction::East
    } else {
        Direction::West
    }
}

fn copy_targets(v: &Vec<AITarget>) -> (r: Vec<AITarget>)
    ensures
        same_targets(r@, v@),
{
    let mut r: Vec<AITarget> = Vec::new();
    let mut i: usize = 0;
    while i < v.len()
        invariant
            0 <= i <= v@.len(),
            r@.len() == i,
            forall|k: int| 0 <= k < i ==> same_target(#[trigger] r@[k], v@[k]),
        decreases v@.len() - i,
    {
        r.push(v[i].duplicate());
        i = i + 1;
    }
    r
}

impl TrackTypeSave {
    /// The saved form of a track (see `spec_track_saved`).
    pub fn from_track_type(track: &TrackType) -> (r: TrackTypeSave)
        ensures
            r == spec_track_saved(*track),
    {
        match track {
            TrackType::Straight { horizontal } => TrackTypeSave::Straight { horizontal: *horizontal },
            TrackType::Curve { from_dir, to_dir } => TrackTypeSave::Curve {
                from_dir: direction_code(*from_dir),
                to_dir: direction_code(*to_dir),
            },
            TrackType::Junction => TrackTypeSave::Junction,
        }
    }

    /// The track a saved form stands for (see `spec_track_loaded`).
    pub fn to_track_type(self) -> (r: TrackType)
        ensures
            r == spec_track_loaded(self),
    {
        match self {
            TrackTypeSave::Straight { horizontal } => TrackType::Straight { horizontal },
            TrackTypeSave::Curve { from_dir, to_dir } => TrackType::Curve {
                from_dir: direction_of(from_dir),
                to_dir: direction_of(to_dir),
            },
            TrackTypeSave::Junction => TrackType::Junction,
        }
    }
}

impl IndustrySave {
    /// The saved form of an industry: all of it.
    pub fn from_industry(industry: &Industry) -> (r: IndustrySave)
        ensures
            r.industry_type == industry.industry_type,
            r.production_rate == industry.production_rate,
            r.cargo_input@ == industry.cargo_input@,
            r.cargo_output@ == industry.cargo_output@,
            r.stockpile == industry.stockpile,
    {
        IndustrySave {
            industry_type: industry.industry_type,
            production_rate: industry.production_rate,
            cargo_input: copy_cargo_types(&industry.cargo_input),
            cargo_output: copy_cargo_types(&industry.cargo_output),
            stockpile: industry.stockpile,
        }
    }

    /// The industry a saved form stands for.
    pub fn to_industry(self) -> (r: Industry)
        ensures
            r.industry_type == self.industry_type,
            r.production_rate == self.production_rate,
            r.cargo_input == self.cargo_input,
            r.cargo_output == self.cargo_output,
            r.stockpile == self.stockpile,
    {
        Industry {
            industry_type: self.industry_type,
            production_rate: self.production_rate,
            cargo_input: self.cargo_input,
            cargo_output: self.cargo_output,
            stockpile: self.stockpile,
        }
    }
}

impl StationSave {
    /// The saved form of a station: all of it.
    pub fn from_station(station: &Station) -> (r: StationSave)
        ensures
            r.name == station.name,
            r.station_type == station.station_type,
            r.connections@ == station.connections@,
            r.cargo_waiting == station.cargo_waiting,
    {
        StationSave {
            name: station.name.clone(),
            station_type: station.station_type,
            connections: copy_positions(&station.connections),
            cargo_waiting: station.cargo_waiting,
        }
    }

    /// The station a saved form stands for.
    pub fn to_station(self) -> (r: Station)
        ensures
            r.name == self.name,
            r.station_type == self.station_type,
            r.connections == self.connections,
            r.cargo_waiting == self.cargo_waiting,
    {
        Station {
            name: self.name,
            station_type: self.station_type,
            cargo_waiting: self.cargo_waiting,
            connections: self.connections,
        }
    }
}

impl RouteSave {
    /// The saved form of a route: all of it.
    pub fn from_route(route: &Route) -> (r: RouteSave)
        ensures
            r.id == route.id,
            r.name == route.name,
            r.stations@ == route.stations@,
            r.vehicle_ids@ == route.vehicle_ids@,
            r.cargo_types@ == route.cargo_types@,
            r.profit == route.profit,
    {
        RouteSave {
            id: route.id,
            name: route.name.clone(),
            stations: copy_positions(&route.stations),
            vehicle_ids: copy_ids(&route.vehicle_ids),
            cargo_types: copy_cargo_types(&route.cargo_types),
            profit: route.profit,
        }
    }

    /// The route a saved form stands for.
    pub fn to_route(self) -> (r: Route)
        ensures
            r.id == self.id,
            r.name == self.name,
            r.stations == self.stations,
            r.vehicle_ids == self.vehicle_ids,
            r.cargo_types == self.cargo_types,
            r.profit == self.profit,
    {
        Route {
            id: self.id,
            name: self.name,
            stations: self.stations,
            vehicle_ids: self.vehicle_ids,
            cargo_types: self.cargo_types,
            profit: self.profit,
        }
    }
}

impl VehicleStateSave {
    pub fn from_vehicle_state(state: &VehicleState) -> (r: VehicleStateSave)
        ensures
            r == spec_vehicle_state_saved(*state),
    {
        match state {
            VehicleState::Idle => VehicleStateSave::Idle,
            VehicleState::Moving { from, to, progress } => VehicleStateSave::Moving { from: *from, to: *to, progress: *progress },
            VehicleState::Loading => VehicleStateSave::Loading,
            VehicleState::Unloading => VehicleStateSave::Unloading,
            VehicleState::Broken => VehicleStateSave::Broken,
        }
    }

    pub fn to_vehicle_state(self) -> (r: VehicleState)
        ensures
            r == spec_vehicle_state_loaded(self),
    {
        match self {
            VehicleStateSave::Idle => VehicleState::Idle,
            VehicleStateSave::Moving { from, to, progress } => VehicleState::Moving { from, to, progress },
            VehicleStateSave::Loading => VehicleState::Loading,
            VehicleStateSave::Unloading => VehicleState::Unloading,
            VehicleStateSave::Broken => VehicleState::Broken,
        }
    }
}

impl TownSave {
    /// The saved form of a town: all of it.
    pub fn from_town(town: &Town) -> (r: TownSave)
        ensures
            r.name == town.name,
            r.population == town.population,
            r.growth_rate == town.growth_rate,
            r.cargo_demand == town.cargo_demand,
            r.cargo_supply == town.cargo_supply,
    {
        TownSave {
            name: town.name.clone(),
            population: town.population,
            growth_rate: town.growth_rate,
            cargo_demand: town.cargo_demand,
            cargo_supply: town.cargo_supply,
        }
    }

    /// The town a saved form stands for.
    pub fn to_town(self) -> (r: Town)
        ensures
            r.name == self.name,
            r.population == self.population,
            r.growth_rate == self.growth_rate,
            r.cargo_demand == self.cargo_demand,
            r.cargo_supply == self.cargo_supply,
    {
        Town {
            name: self.name,
            population: self.population,
            growth_rate: self.growth_rate,
            cargo_demand: self.cargo_demand,
            cargo_supply: self.cargo_supply,
        }
    }
}

impl TileContentSave {
    pub fn from_tile_content(content: &TileContent) -> (r: TileContentSave)
        ensures
            spec_content_saved(*content, r),
    {
        match content {
            TileContent::Empty => TileContentSave::Empty,
            TileContent::Town(town) => TileContentSave::Town(TownSave::from_town(town)),
            TileContent::Industry(industry) => TileContentSave::Industry(IndustrySave::from_industry(industry)),
            TileContent::Station(station) => TileContentSave::Station(StationSave::from_station(station)),
            TileContent::Track(track) => TileContentSave::Track(TrackTypeSave::from_track_type(track)),
            TileContent::Road => TileContentSave::Road,
        }
    }

    pub fn to_tile_content(self) -> (r: TileContent)
        ensures
            spec_content_loaded(self, r),
    {
        match self {
            TileContentSave::Empty => TileContent::Empty,
            TileContentSave::Town(town) => TileContent::Town(town.to_town()),
            TileContentSave::Industry(industry) => TileContent::Industry(industry.to_industry()),
            TileContentSave::Station(station) => TileContent::Station(station.to_station()),
            TileContentSave::Track(track) => TileContent::Track(track.to_track_type()),
            TileContentSave::Road => TileContent::Road,
        }
    }
}

impl TileSave {
    pub fn from_tile(tile: &Tile) -> (r: TileSave)
        ensures
            spec_tile_saved(*tile, r),
    {
        TileSave { terrain: tile.terrain, content: TileContentSave::from_tile_content(&tile.content), height: tile.height }
    }

    pub fn to_tile(self) -> (r: Tile)
        ensures
            spec_tile_loaded(self, r),
    {
        Tile { terrain: self.terrain, content: self.content.to_tile_content(), height: self.height }
    }
}

impl WorldSave {
    /// The saved form of the map (see `spec_world_saved`).
    pub fn from_world(world: &World) -> (r: WorldSave)
        ensures
            spec_world_saved(*world, r),
    {
        let mut tiles: Vec<Vec<TileSave>> = Vec::new();
        let mut y: usize = 0;
        while y < world.tiles.len()
            invariant
                0 <= y <= world.tiles@.len(),
                tiles@.len() == y,
                forall|j: int| 0 <= j < y ==> (#[trigger] tiles@[j])@.len() == world.tiles@[j]@.len(),
                forall|j: int, i: int| 0 <= j < y && 0 <= i < world.tiles@[j]@.len() ==>
                    spec_tile_saved(world.tiles@[j]@[i], #[trigger] tiles@[j]@[i]),
            decreases world.tiles@.len() - y,
        {
            let row_src = &world.tiles[y];
            let mut row: Vec<TileSave> = Vec::new();
            let mut x: usize = 0;
            while x < row_src.len()
                invariant
                    0 <= x <= row_src@.len(),
                    row@.len() == x,
                    forall|i: int| 0 <= i < x ==> spec_tile_saved(row_src@[i], #[trigger] row@[i]),
                decreases row_src@.len() - x,
            {
                row.push(TileSave::from_tile(&row_src[x]));
                x = x + 1;
            }
            tiles.push(row);
            y = y + 1;
        }
        WorldSave {
            width: world.width,
            height: world.height,
            tiles,
            towns: copy_positions(&world.towns),
            industries: copy_positions(&world.industries),
            stations: copy_positions(&world.stations),
        }
    }

    /// The map saved here: a new random map of the saved size is made first, then the
    /// saved tiles and lists take its place.
    pub fn to_world(self) -> (r: World)
        requires
            self.width > 0,
            self.height > 0,
        ensures
            spec_world_loaded(self, r),
    {
        let ghost s = self;
        let mut world = World::new(self.width, self.height);
        let mut rows = self.tiles;
        let mut loaded: Vec<Vec<Tile>> = Vec::new();
        while rows.len() > 0
            invariant
                loaded@.len() + rows@.len() == s.tiles@.len(),
                rows@ == s.tiles@.subrange(loaded@.len() as int, s.tiles@.len() as int),
                forall|j: int| 0 <= j < loaded@.len() ==> (#[trigger] loaded@[j])@.len() == s.tiles@[j]@.len(),
                forall|j: int, i: int| 0 <= j < loaded@.len() && 0 <= i < s.tiles@[j]@.len() ==>
                    spec_tile_loaded(s.tiles@[j]@[i], #[trigger] loaded@[j]@[i]),
            decreases rows@.len(),
        {
            let ghost j = loaded@.len() as int;
            let mut row = rows.remove(0);
            assert(row@ == s.tiles@[j]@);
            let ghost row0 = row@;
            let mut out: Vec<Tile> = Vec::new();
            while row.len() > 0
                invariant
                    out@.len() + row@.len() == row0.len(),
                    row@ == row0.subrange(out@.len() as int, row0.len() as int),
                    forall|i: int| 0 <= i < out@.len() ==> spec_tile_loaded(row0[i], #[trigger] out@[i]),
                decreases row@.len(),
            {
                let ghost i = out@.len() as int;
                let tile = row.remove(0);
                assert(tile == row0[i]);
                out.push(tile.to_tile());
                assert(row@ =~= row0.subrange(out@.len() as int, row0.len() as int));
            }
            loaded.push(out);
            assert(rows@ =~= s.tiles@.subrange(loaded@.len() as int, s.tiles@.len() as int));
        }
        world.tiles = loaded;
        world.towns = self.towns;
        world.industries = self.industries;
        world.stations = self.stations;
        world
    }
}

impl VehicleSave {
    /// The saved form of a vehicle (see `spec_vehicle_saved`).
    pub fn from_vehicle(vehicle: &Vehicle) -> (r: VehicleSave)
        ensures
            spec_vehicle_saved(*vehicle, r),
    {
        VehicleSave {
            id: vehicle.id,
            vehicle_type: vehicle.vehicle_type.duplicate(),
            x: vehicle.x,
            y: vehicle.y,
            state: VehicleStateSave::from_vehicle_state(&vehicle.state),
            cargo: vehicle.cargo,
            route: copy_positions(&vehicle.route),
            route_index: vehicle.route_index,
            current_path: copy_positions(&vehicle.current_path),
            path_index: vehicle.path_index,
            age: vehicle.age,
            reliability: vehicle.reliability,
            speed: vehicle.speed,
            last_service: vehicle.last_service,
            profit: vehicle.profit,
            on_time_deliveries: vehicle.on_time_deliveries,
            total_deliveries: vehicle.total_deliveries,
        }
    }

    /// The vehicle saved here (see `spec_vehicle_loaded`).
    pub fn to_vehicle(self) -> (r: Vehicle)
        ensures
            spec_vehicle_loaded(self, r),
    {
        Vehicle {
            id: self.id,
            vehicle_type: self.vehicle_type,
            x: self.x,
            y: self.y,
            state: self.state.to_vehicle_state(),
            cargo: self.cargo,
            route: self.route,
            route_index: self.route_index,
            current_path: self.current_path,
            path_index: self.path_index,
            age: self.age,
            reliability: self.reliability,
            speed: self.speed,
            last_service: self.last_service,
            profit: self.profit,
            on_time_deliveries: self.on_time_deliveries,
            total_deliveries: self.total_deliveries,
        }
    }
}

impl PlayerSave {
    /// The saved form of a company (see `spec_player_saved`).
    pub fn from_player(player: &Player) -> (r: PlayerSave)
        ensures
            spec_player_saved(*player, r),
    {
        let mut vehicles: Vec<VehicleSave> = Vec::new();
        let mut i: usize = 0;
        while i < player.vehicles.len()
            invariant
                0 <= i <= player.vehicles@.len(),
                vehicles@.len() == i,
                forall|k: int| 0 <= k < i ==> spec_vehicle_saved(player.vehicles@[k], #[trigger] vehicles@[k]),
            decreases player.vehicles@.len() - i,
        {
            vehicles.push(VehicleSave::from_vehicle(&player.vehicles[i]));
            i = i + 1;
        }
        let mut routes: Vec<RouteSave> = Vec::new();
        let mut i: usize = 0;
        while i < player.routes.len()
            invariant
                0 <= i <= player.routes@.len(),
                routes@.len() == i,
                forall|k: int| 0 <= k < i ==> spec_route_saved(player.routes@[k], #[trigger] routes@[k]),
            decreases player.routes@.len() - i,
        {
            routes.push(RouteSave::from_route(&player.routes[i]));
            i = i + 1;
        }
        PlayerSave {
            name: player.name.clone(),
            money: player.money,
            vehicles,
            stations: copy_positions(&player.stations),
            routes,
            reputation: player.reputation,
            game_time: player.game_time,
        }
    }

    /// The company saved here (see `spec_player_loaded`).
    pub fn to_player(self) -> (r: Player)
        ensures
            spec_player_loaded(self, r),
    {
        let ghost s = self;
        let mut player = Player::new(self.name, self.money);
        let mut pending = self.vehicles;
        let mut vehicles: Vec<Vehicle> = Vec::new();
        while pending.len() > 0
            invariant
                vehicles@.len() + pending@.len() == s.vehicles@.len(),
                pending@ == s.vehicles@.subrange(vehicles@.len() as int, s.vehicles@.len() as int),
                forall|k: int| 0 <= k < vehicles@.len() ==> spec_vehicle_loaded(s.vehicles@[k], #[trigger] vehicles@[k]),
            decreases pending@.len(),
        {
            let ghost k = vehicles@.len() as int;
            let v = pending.remove(0);
            assert(v == s.vehicles@[k]);
            vehicles.push(v.to_vehicle());
            assert(pending@ =~= s.vehicles@.subrange(vehicles@.len() as int, s.vehicles@.len() as int));
        }
        let mut pending_routes = self.routes;
        let mut routes: Vec<Route> = Vec::new();
        while pending_routes.len() > 0
            invariant
                routes@.len() + pending_routes@.len() == s.routes@.len(),
                pending_routes@ == s.routes@.subrange(routes@.len() as int, s.routes@.len() as int),
                forall|k: int| 0 <= k < routes@.len() ==> spec_route_saved(#[trigger] routes@[k], s.routes@[k]),
            decreases pending_routes@.len(),
        {
            let ghost k = routes@.len() as int;
            let r = pending_routes.remove(0);
            assert(r == s.routes@[k]);
            routes.push(r.to_route());
            assert(pending_routes@ =~= s.routes@.subrange(routes@.len() as int, s.routes@.len() as int));
        }
        player.vehicles = vehicles;
        player.stations = self.stations;
        player.routes = routes;
        player.reputation = self.reputation;
        player.game_time = self.game_time;
        player
    }
}

impl EconomySave {
    /// The saved form of the market: all of it.
    pub fn from_economy(economy: &Economy) -> (r: EconomySave)
        ensures
            spec_economy_saved(*economy, r),
    {
        EconomySave {
            cargo_prices: economy.cargo_prices,
            supply_demand: economy.supply_demand,
            inflation_rate: economy.inflation_rate,
            economic_state: economy.economic_state,
            month: economy.month,
        }
    }

    /// The market saved here (see `spec_economy_loaded`).
    pub fn to_economy(self) -> (r: Economy)
        ensures
            spec_economy_loaded(self, r),
    {
        Economy {
            cargo_prices: self.cargo_prices,
            supply_demand: self.supply_demand,
            inflation_rate: self.inflation_rate,
            economic_state: self.economic_state,
            month: self.month,
        }
    }
}

impl AIPlayerSave {
    pub fn from_ai_player(ai_player: &AIPlayer) -> (r: AIPlayerSave)
        ensures
            spec_ai_saved(*ai_player, r),
    {
        AIPlayerSave {
            player: PlayerSave::from_player(&ai_player.player),
            difficulty: ai_player.difficulty,
            strategy: ai_player.strategy,
            decision_timer: ai_player.decision_timer,
            last_action: ai_player.last_action,
            targets: copy_targets(&ai_player.targets),
        }
    }

    /// The computer company saved here, with its plans.
    pub fn to_ai_player(self) -> (r: AIPlayer)
        ensures
            spec_ai_loaded(self, r),
    {
        AIPlayer {
            player: self.player.to_player(),
            difficulty: self.difficulty,
            strategy: self.strategy,
            decision_timer: self.decision_timer,
            last_action: self.last_action,
            targets: self.targets,
        }
    }
}

impl GameSave {
    /// The saved form of the game (see `spec_game_saved`).
    pub fn from_game(game: &Game) -> (r: GameSave)
        ensures
            spec_game_saved(*game, r),
    {
        let mut ai_players: Vec<AIPlayerSave> = Vec::new();
        let mut i: usize = 0;
        while i < game.ai_players.len()
            invariant
                0 <= i <= game.ai_players@.len(),
                ai_players@.len() == i,
                forall|k: int| 0 <= k < i ==> spec_ai_saved(game.ai_players@[k], #[trigger] ai_players@[k]),
            decreases game.ai_players@.len() - i,
        {
            ai_players.push(AIPlayerSave::from_ai_player(&game.ai_players[i]));
            i = i + 1;
        }
        GameSave {
            world: WorldSave::from_world(&game.world),
            player: PlayerSave::from_player(&game.player),
            ai_players,
            economy: EconomySave::from_economy(&game.economy),
            game_time: game.player.game_time,
        }
    }

    /// The game saved here (see `spec_game_loaded`): a new game is made first, then the
    /// saved parts take their places.
    pub fn to_game(self) -> (r: Game)
        requires
            self.world.width > 0,
            self.world.height > 0,
        ensures
            spec_game_loaded(self, r),
    {
        let ghost s = self;
        let mut game = Game::new();
        game.world = self.world.to_world();
        game.player = self.player.to_player();
        let mut pending = self.ai_players;
        let mut ais: Vec<AIPlayer> = Vec::new();
        while pending.len() > 0
            invariant
                ais@.len() + pending@.len() == s.ai_players@.len(),
                pending@ == s.ai_players@.subrange(ais@.len() as int, s.ai_players@.len() as int),
                forall|k: int| 0 <= k < ais@.len() ==> spec_ai_loaded(s.ai_players@[k], #[trigger] ais@[k]),
            decreases pending@.len(),
        {
            let ghost k = ais@.len() as int;
            let a = pending.remove(0);
            assert(a == s.ai_players@[k]);
            ais.push(a.to_ai_player());
            assert(pending@ =~= s.ai_players@.subrange(ais@.len() as int, s.ai_players@.len() as int));
        }
        game.ai_players = ais;
        game.economy = self.economy.to_economy();
        game
    }
}

/// The saved form of a game, to be written out.
pub fn save_game(game: &Game) -> (r: GameSave)
    ensures
        spec_game_saved(*game, r),
{
    GameSave::from_game(game)
}

/// The game a save stands for (see `GameSave::to_game`).
pub fn load_game(save: GameSave) -> (r: Game)
    requires
        save.world.width > 0,
        save.world.height > 0,
    ensures
        spec_game_loaded(save, r),
{
    save.to_game()
}

/// `b` is tile content `a` after saving and loading: the same, lists compared by their
/// elements.
pub open spec fn spec_content_restored(a: TileContent, b: TileContent) -> bool {
    match (a, b) {
        (TileContent::Industry(x), TileContent::Industry(y)) => y.industry_type == x.industry_type
            && y.production_rate == x.production_rate && y.cargo_input@ == x.cargo_input@
            && y.cargo_output@ == x.cargo_output@ && y.stockpile == x.stockpile,
        (TileContent::Station(x), TileContent::Station(y)) => y.name == x.name && y.station_type == x.station_type
            && y.connections@ == x.connections@ && y.cargo_waiting == x.cargo_waiting,
        _ => b == a,
    }
}

/// `w` is vehicle `v` after saving and loading: the same, lists compared by their
/// elements.
pub open spec fn spec_vehicle_restored(v: Vehicle, w: Vehicle) -> bool {
    &&& same_vehicle_type(w.vehicle_type, v.vehicle_type)
    &&& w.route@ == v.route@
    &&& w.current_path@ == v.current_path@
    &&& w == (Vehicle { vehicle_type: w.vehicle_type, route: w.route, current_path: w.current_path, ..v })
}

/// `q` is company `p` after saving and loading: the same, lists compared by their
/// elements.
pub open spec fn spec_player_restored(p: Player, q: Player) -> bool {
    &&& q.name == p.name
    &&& q.money == p.money
    &&& q.stations@ == p.stations@
    &&& q.reputation == p.reputation
    &&& q.game_time == p.game_time
    &&& q.vehicles@.len() == p.vehicles@.len()
    &&& forall|i: int| 0 <= i < p.vehicles@.len() ==> spec_vehicle_restored(p.vehicles@[i], #[trigger] q.vehicles@[i])
    &&& q.routes@.len() == p.routes@.len()
    &&& forall|i: int| 0 <= i < p.routes@.len() ==> {
        &&& (#[trigger] q.routes@[i]).id == p.routes@[i].id
        &&& q.routes@[i].name == p.routes@[i].name
        &&& q.routes@[i].stations@ == p.routes@[i].stations@
        &&& q.routes@[i].vehicle_ids@ == p.routes@[i].vehicle_ids@
        &&& q.routes@[i].cargo_types@ == p.routes@[i].cargo_types@
        &&& q.routes@[i].profit == p.routes@[i].profit
    }
}

/// `b` is computer company `a` after saving and loading: the same company, settings,
/// clocks and plans.
pub open spec fn spec_ai_restored(a: AIPlayer, b: AIPlayer) -> bool {
    &&& spec_player_restored(a.player, b.player)
    &&& b.difficulty == a.difficulty
    &&& b.strategy == a.strategy
    &&& b.decision_timer == a.decision_timer
    &&& b.last_action == a.last_action
    &&& same_targets(b.targets@, a.targets@)
}

/// `v` is map `w` after saving and loading: the same size, lists and tiles.
pub open spec fn spec_world_restored(w: World, v: World) -> bool {
    &&& v.width == w.width
    &&& v.height == w.height
    &&& v.towns@ == w.towns@
    &&& v.industries@ == w.industries@
    &&& v.stations@ == w.stations@
    &&& v.tiles@.len() == w.tiles@.len()
    &&& forall|y: int| 0 <= y < w.tiles@.len() ==> (#[trigger] v.tiles@[y])@.len() == w.tiles@[y]@.len()
    &&& forall|y: int, x: int| 0 <= y < w.tiles@.len() && 0 <= x < w.tiles@[y]@.len() ==> {
        &&& (#[trigger] v.tiles@[y]@[x]).terrain == w.tiles@[y]@[x].terrain
        &&& v.tiles@[y]@[x].height == w.tiles@[y]@[x].height
        &&& spec_content_restored(w.tiles@[y]@[x].content, v.tiles@[y]@[x].content)
    }
}

/// `h` is game `g` after saving and loading: the same map, market, company and computer
/// companies, lists compared by their elements; a fresh interface, running.
pub open spec fn spec_restored(g: Game, h: Game) -> bool {
    &&& spec_world_restored(g.world, h.world)
    &&& h.economy == g.economy
    &&& spec_player_restored(g.player, h.player)
    &&& h.ai_players@.len() == g.ai_players@.len()
    &&& forall|i: int| 0 <= i < g.ai_players@.len() ==> spec_ai_restored(g.ai_players@[i], #[trigger] h.ai_players@[i])
    &&& spec_initial_ui(h.ui)
    &&& h.running
}

proof fn lemma_player_round_trip(p: Player, s: PlayerSave, q: Player)
    requires
        spec_player_saved(p, s),
        spec_player_loaded(s, q),
    ensures
        spec_player_restored(p, q),
{
    assert forall|i: int| 0 <= i < p.vehicles@.len() implies spec_vehicle_restored(p.vehicles@[i], #[trigger] q.vehicles@[i]) by {
        assert(spec_vehicle_saved(p.vehicles@[i], s.vehicles@[i]));
        assert(spec_vehicle_loaded(s.vehicles@[i], q.vehicles@[i]));
        lemma_vehicle_state_round_trip(p.vehicles@[i].state);
    }
    assert forall|i: int| 0 <= i < p.routes@.len() implies {
        &&& (#[trigger] q.routes@[i]).id == p.routes@[i].id
        &&& q.routes@[i].name == p.routes@[i].name
        &&& q.routes@[i].stations@ == p.routes@[i].stations@
        &&& q.routes@[i].vehicle_ids@ == p.routes@[i].vehicle_ids@
        &&& q.routes@[i].cargo_types@ == p.routes@[i].cargo_types@
        &&& q.routes@[i].profit == p.routes@[i].profit
    } by {
        assert(spec_route_saved(p.routes@[i], s.routes@[i]));
        assert(spec_route_saved(q.routes@[i], s.routes@[i]));
    }
}

/// Loading a saved game gives back the whole game: the same map with every tile's
/// contents and cargo, the same market with its prices and supply and demand, the same
/// company and computer companies with their vehicles, cargo, routes and plans; only the
/// interface starts afresh.
pub proof fn lemma_save_load_round_trip(g: Game, s: GameSave, h: Game)
    requires
        spec_game_saved(g, s),
        spec_game_loaded(s, h),
    ensures
        spec_restored(g, h),
{
    assert forall|y: int| 0 <= y < g.world.tiles@.len() implies (#[trigger] h.world.tiles@[y])@.len() == g.world.tiles@[y]@.len() by {
        assert(s.world.tiles@[y]@.len() == g.world.tiles@[y]@.len());
    }
    assert forall|y: int, x: int| 0 <= y < g.world.tiles@.len() && 0 <= x < g.world.tiles@[y]@.len() implies {
        &&& (#[trigger] h.world.tiles@[y]@[x]).terrain == g.world.tiles@[y]@[x].terrain
        &&& h.world.tiles@[y]@[x].height == g.world.tiles@[y]@[x].height
        &&& spec_content_restored(g.world.tiles@[y]@[x].content, h.world.tiles@[y]@[x].content)
    } by {
        assert(s.world.tiles@[y]@.len() == g.world.tiles@[y]@.len());
        assert(spec_tile_saved(g.world.tiles@[y]@[x], s.world.tiles@[y]@[x]));
        assert(spec_tile_loaded(s.world.tiles@[y]@[x], h.world.tiles@[y]@[x]));
        match g.world.tiles@[y]@[x].content {
            TileContent::Track(t) => lemma_track_round_trip(t),
            _ => {},
        }
    }
    lemma_player_round_trip(g.player, s.player, h.player);
    assert forall|i: int| 0 <= i < g.ai_players@.len() implies spec_ai_restored(g.ai_players@[i], #[trigger] h.ai_players@[i]) by {
        assert(spec_ai_saved(g.ai_players@[i], s.ai_players@[i]));
        assert(spec_ai_loaded(s.ai_players@[i], h.ai_players@[i]));
        lemma_player_round_trip(g.ai_players@[i].player, s.ai_players@[i].player, h.ai_players@[i].player);
        let a = g.ai_players@[i].targets@;
        let b = h.ai_players@[i].targets@;
        assert forall|k: int| 0 <= k < b.len() implies same_target(#[trigger] b[k], a[k]) by {
            assert(same_target(s.ai_players@[i].targets@[k], a[k]));
        }
    }
}

/// Loading a saved track gives it back.
pub proof fn lemma_track_round_trip(t: TrackType)
    ensures
        spec_track_loaded(spec_track_saved(t)) == t,
{
}

/// Loading a saved vehicle state gives it back.
pub proof fn lemma_vehicle_state_round_trip(st: VehicleState)
    ensures
        spec_vehicle_state_loaded(spec_vehicle_state_saved(st)) == st,
{
}

} // verus!
