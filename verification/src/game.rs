use vstd::prelude::*;
use crate::cargo::{CargoAmounts, CargoType};
use crate::world::{World, is_generated_world, Tile, TileContent, TerrainType, TrackType, Station, StationType, same_tile, spec_world_updated, first_vehicle_at, find_vehicle_at, lemma_first_vehicle_at};
use crate::economy::{Economy, EconomicState, spec_economy_updated, spec_initial_price};
use crate::player::{Player, vehicle_index_of, spec_ticked};
use crate::vehicle::{Vehicle, VehicleType, TruckType, VehicleState, spec_is_new_vehicle};
use crate::ai::{AIPlayer, spec_ai_can_start, spec_ai_can_update, spec_ai_updated, spec_ai_halted, routes_complete, lemma_complete_routes_can_update};
use crate::ui::{UI, InputEvent, BuildAction, VehicleOrder, CursorDirection, can_move, spec_moved, spec_initial_ui};
use crate::names::{numbered_name, spec_decimal};

verus! {

/// A game: the map, the interface, the market, the player's company and the computer
/// companies.
pub struct Game {
    pub world: World,
    pub ui: UI,
    pub economy: Economy,
    pub player: Player,
    pub ai_players: Vec<AIPlayer>,
    pub running: bool,
}

/// What the game asks its surroundings to do after an input.
#[derive(Clone, Copy, Debug, PartialEq, Eq, Structural)]
pub enum Request {
    Save,
    Load,
    SendToDepot(u32),
}

/// A structure can go at `(x, y)`: the tile exists, is not water and is empty.
pub open spec fn spec_buildable(w: World, x: usize, y: usize) -> bool {
    &&& w.in_bounds(x as int, y as int)
    &&& w.tile_at(x as int, y as int).terrain != TerrainType::Water
    &&& w.tile_at(x as int, y as int).content is Empty
}

/// `new` is `old` with the content of tile `(x, y)` replaced as `placed` says, and the
/// same lists of towns and industries.
pub open spec fn spec_tile_replaced(old: World, new: World, x: usize, y: usize, placed: spec_fn(Tile) -> bool) -> bool {
    &&& new.same_shape(&old)
    &&& new.width == old.width
    &&& new.height == old.height
    &&& new.towns == old.towns
    &&& new.industries == old.industries
    &&& forall|i: int, j: int| #[trigger] new.in_bounds(i, j) ==> if i == x && j == y {
        &&& new.tile_at(i, j).terrain == old.tile_at(i, j).terrain
        &&& new.tile_at(i, j).height == old.tile_at(i, j).height
        &&& placed(new.tile_at(i, j))
    } else {
        new.tile_at(i, j) == old.tile_at(i, j)
    }
}

/// `t` holds a new station named `name` of the given type, with nothing waiting and no
/// connections.
pub open spec fn spec_new_station(t: Tile, name: Seq<char>, station_type: StationType) -> bool {
    t.content matches TileContent::Station(st) && st.name@ == name && st.station_type == station_type
        && (forall|c: crate::cargo::CargoType| st.cargo_waiting.get(c) == 0) && st.connections@.len() == 0
}

/// `(nw, np)` is `(w, p)` after laying a structure at `(x, y)`, when the tile is
/// buildable: a straight horizontal track, a road, or a station of the given name
/// prefix and type numbered after the stations of the map, listed by the map and the
/// company. Otherwise nothing changes.
pub open spec fn spec_built(w: World, p: Player, nw: World, np: Player, x: usize, y: usize, action: BuildAction) -> bool {
    if !spec_buildable(w, x, y) {
        nw == w && np == p
    } else {
        match action {
            BuildAction::BuildRailTrack => {
                &&& spec_tile_replaced(w, nw, x, y, |t: Tile| t.content == TileContent::Track(TrackType::Straight { horizontal: true }))
                &&& nw.stations == w.stations
                &&& np == p
            },
            BuildAction::BuildRoad => {
                &&& spec_tile_replaced(w, nw, x, y, |t: Tile| t.content == TileContent::Road)
                &&& nw.stations == w.stations
                &&& np == p
            },
            BuildAction::BuildTrainStation => {
                &&& spec_tile_replaced(w, nw, x, y, |t: Tile| spec_new_station(t, "Station "@ + spec_decimal(w.stations@.len() + 1), StationType::Train))
                &&& nw.stations@ == w.stations@.push((x, y))
                &&& np == (Player { stations: np.stations, ..p })
                &&& np.stations@ == p.stations@.push((x, y))
            },
            BuildAction::BuildBusStop => {
                &&& spec_tile_replaced(w, nw, x, y, |t: Tile| spec_new_station(t, "Bus Stop "@ + spec_decimal(w.stations@.len() + 1), StationType::Road))
                &&& nw.stations@ == w.stations@.push((x, y))
                &&& np == (Player { stations: np.stations, ..p })
                &&& np.stations@ == p.stations@.push((x, y))
            },
            BuildAction::BuyVehicle => nw == w && np == p,
        }
    }
}

/// `np` is `p` with a new bus of capacity 40 standing at `(x, y)`.
pub open spec fn spec_bus_bought(p: Player, np: Player, x: usize, y: usize) -> bool {
    &&& np.vehicles@.len() == p.vehicles@.len() + 1
    &&& np.vehicles@.drop_last() == p.vehicles@
    &&& spec_is_new_vehicle(np.vehicles@.last(), p.vehicles@.len() as u32,
        VehicleType::Road { truck_type: TruckType::Bus { capacity: 40 } }, x, y)
    &&& np == (Player { vehicles: np.vehicles, ..p })
}

/// `nvs` is `vs` with the first vehicle with the given id, if any, changed as `change`
/// says and every other vehicle kept.
pub open spec fn spec_vehicle_changed(vs: Seq<Vehicle>, nvs: Seq<Vehicle>, id: u32, change: spec_fn(Vehicle, Vehicle) -> bool) -> bool {
    &&& nvs.len() == vs.len()
    &&& match vehicle_index_of(vs, id) {
        Some(i) => {
            &&& change(vs[i], nvs[i])
            &&& forall|k: int| 0 <= k < vs.len() && k != i ==> #[trigger] nvs[k] == vs[k]
        },
        None => nvs == vs,
    }
}

/// The first step of a tick can run: the map's industries can produce and the month
/// can advance.
pub open spec fn spec_tick_can_start(g: Game) -> bool {
    &&& g.world.production_fits()
    &&& g.economy.month < u32::MAX
    &&& g.economy.inflation_rate <= 0x1_0000_0000 - 1000
}

/// The rest of a tick can start on the map `w` that the first step left: the market can
/// count supply and demand, the company can take its tick and each computer company's
/// tick can start.
pub open spec fn spec_tick_can_finish(g: Game, w: World) -> bool {
    &&& Economy::flows_fit(w)
    &&& g.player.can_update(&w)
    &&& forall|i: int| 0 <= i < g.ai_players@.len() ==> spec_ai_can_start(#[trigger] g.ai_players@[i], w)
}

/// Every computer company's tick can run to its end on the map `w` and the market `e`
/// (`spec_ai_can_update`).
pub open spec fn spec_ais_can_update(g: Game, w: World, e: Economy) -> bool {
    forall|i: int| 0 <= i < g.ai_players@.len() ==> spec_ai_can_update(#[trigger] g.ai_players@[i], w, e)
}

/// The whole tick can run, on every map its first step can lead to and every market the
/// second can.
pub open spec fn spec_can_tick(g: Game) -> bool {
    &&& spec_tick_can_start(g)
    &&& forall|w: World| #[trigger] spec_world_updated(g.world, w) ==> spec_tick_can_finish(g, w)
    &&& forall|w: World, e: Economy| #[trigger] spec_economy_updated(g.economy, e, w) && spec_world_updated(g.world, w)
        ==> spec_ais_can_update(g, w, e)
}

/// When every computer company's routes have a stop and a cargo, no computer company
/// stops a tick: wherever the rest of the tick can start, every company's tick runs to
/// its end, whatever the market's step left.
pub proof fn lemma_complete_routes_never_stop_a_tick(g: Game, w: World, e: Economy)
    requires
        spec_tick_can_finish(g, w),
        forall|i: int| 0 <= i < g.ai_players@.len() ==> routes_complete((#[trigger] g.ai_players@[i]).player.routes@),
    ensures
        spec_ais_can_update(g, w, e),
{
    assert forall|i: int| 0 <= i < g.ai_players@.len() implies spec_ai_can_update(#[trigger] g.ai_players@[i], w, e) by {
        lemma_complete_routes_can_update(g.ai_players@[i], w, e);
    }
}

/// `new` is `old` after the steps of a tick that follow the map's, stopped at the `k`th
/// computer company: the market and the company took their steps on `new`'s map, the
/// computer companies before the `k`th took theirs, the `k`th stopped before its decision
/// (`spec_ai_halted`), and those after it are as they were.
pub open spec fn spec_rest_halted(old: Game, new: Game, k: int) -> bool {
    &&& spec_economy_updated(old.economy, new.economy, new.world)
    &&& spec_ticked(old.player, new.player, new.world)
    &&& new.ai_players@.len() == old.ai_players@.len()
    &&& 0 <= k < old.ai_players@.len()
    &&& forall|i: int| 0 <= i < k ==>
        spec_ai_updated(#[trigger] old.ai_players@[i], new.ai_players@[i], new.world, new.economy)
    &&& spec_ai_halted(old.ai_players@[k], new.ai_players@[k], new.world, new.economy)
    &&& forall|i: int| k < i < old.ai_players@.len() ==> #[trigger] new.ai_players@[i] == old.ai_players@[i]
    &&& new.ui == old.ui
    &&& new.running == old.running
}

/// `new` is `old` after a tick that stopped at the `k`th computer company: the map took
/// its step, and the rest went as `spec_rest_halted` says.
pub open spec fn spec_tick_halted(old: Game, new: Game, k: int) -> bool {
    &&& spec_world_updated(old.world, new.world)
    &&& spec_rest_halted(old, new, k)
}

/// `new` is `old` after a tick: the map, then the market, then the company, then each
/// computer company in turn, all on the map as the first step left it.
pub open spec fn spec_game_ticked(old: Game, new: Game) -> bool {
    &&& spec_world_updated(old.world, new.world)
    &&& spec_economy_updated(old.economy, new.economy, new.world)
    &&& spec_ticked(old.player, new.player, new.world)
    &&& new.ai_players@.len() == old.ai_players@.len()
    &&& forall|i: int| 0 <= i < old.ai_players@.len() ==>
        spec_ai_updated(#[trigger] old.ai_players@[i], new.ai_players@[i], new.world, new.economy)
    &&& new.ui == old.ui
    &&& new.running == old.running
}

/// `new` is `old` after the build action at the cursor is carried out and, when it succeeds, build mode ends (see `Game::handle_build_action`).
pub open spec fn spec_build_action_done(old: Game, new: Game, build_action: BuildAction) -> bool {
    &&& ({
        let (x, y) = (old.ui.cursor_x, old.ui.cursor_y);
        let ok = build_action == BuildAction::BuyVehicle || spec_buildable(old.world, x, y);
        &&& if build_action == BuildAction::BuyVehicle {
            new.world == old.world && spec_bus_bought(old.player, new.player, x, y)
        } else {
            spec_built(old.world, old.player, new.world, new.player, x, y, build_action)
        }
        &&& new.ui == if ok { (UI { build_mode: None, ..old.ui }) } else { old.ui }
    })
    &&& new.economy == old.economy
    &&& new.ai_players == old.ai_players
    &&& new.running == old.running
}

/// `new` is `old` after selecting at the cursor (see `Game::handle_selection`).
pub open spec fn spec_selection_done(old: Game, new: Game) -> bool {
    &&& ({
        let (x, y) = (old.ui.cursor_x, old.ui.cursor_y);
        match first_vehicle_at(old.player.vehicles@, x, y) {
            Some(i) => new.ui == (UI {
                selected_vehicle_id: Some(old.player.vehicles@[i].id),
                show_vehicle_menu: true,
                ..old.ui
            }),
            None => if old.world.in_bounds(x as int, y as int) {
                &&& new.ui.selected_tile matches Some(t) && same_tile(t, old.world.tile_at(x as int, y as int))
                &&& new.ui == (UI { selected_tile: new.ui.selected_tile, ..old.ui })
            } else {
                new.ui == old.ui
            },
        }
    })
    &&& new.world == old.world
    &&& new.player == old.player
    &&& new.economy == old.economy
    &&& new.ai_players == old.ai_players
    &&& new.running == old.running
}

/// `new` is `old` after giving the order (see `Game::handle_vehicle_order`).
pub open spec fn spec_order_done(old: Game, new: Game, vehicle_id: u32, order: VehicleOrder) -> bool {
    &&& new.ui == match order {
        VehicleOrder::GoToLocation => (UI { vehicle_order_mode: Some((vehicle_id, order)), ..old.ui }),
        VehicleOrder::CreateRoute => (UI { route_creation_mode: new.ui.route_creation_mode, ..old.ui }),
        _ => old.ui
    }
    &&& order == VehicleOrder::CreateRoute ==> (new.ui.route_creation_mode matches Some((id, stops))
        && id == vehicle_id && stops@.len() == 0)
    &&& new.player == (Player { vehicles: new.player.vehicles, ..old.player })
    &&& match order {
        VehicleOrder::StartRoute => spec_vehicle_changed(old.player.vehicles@, new.player.vehicles@, vehicle_id,
            |v: Vehicle, nv: Vehicle| nv == if v.route@.len() > 0 {
                (Vehicle { state: VehicleState::Moving { from: (v.x, v.y), to: v.route@[0], progress: 0 }, ..v })
            } else {
                v
            }),
        VehicleOrder::Stop => spec_vehicle_changed(old.player.vehicles@, new.player.vehicles@, vehicle_id,
            |v: Vehicle, nv: Vehicle| nv == (Vehicle { state: VehicleState::Idle, ..v })),
        _ => new.player == old.player
    }
    &&& new.world == old.world
    &&& new.economy == old.economy
    &&& new.ai_players == old.ai_players
    &&& new.running == old.running
}

/// `new` is `old` after carrying out the pending order at the cursor (see `Game::handle_vehicle_order_select`).
pub open spec fn spec_order_select_done(old: Game, new: Game, vehicle_id: u32, order: VehicleOrder) -> bool {
    &&& new.ui == (UI { vehicle_order_mode: None, ..old.ui })
    &&& new.player == (Player { vehicles: new.player.vehicles, ..old.player })
    &&& ({
        let (x, y) = (old.ui.cursor_x, old.ui.cursor_y);
        if order == VehicleOrder::GoToLocation {
            spec_vehicle_changed(old.player.vehicles@, new.player.vehicles@, vehicle_id,
                |v: Vehicle, nv: Vehicle| nv.route@ == seq![(x, y)] && nv == (Vehicle {
                    route: nv.route,
                    route_index: 0,
                    state: VehicleState::Moving { from: (v.x, v.y), to: (x, y), progress: 0 },
                    ..v
                }))
        } else {
            new.player == old.player
        }
    })
    &&& new.world == old.world
    &&& new.economy == old.economy
    &&& new.ai_players == old.ai_players
    &&& new.running == old.running
}

/// `new` is `old` after adding the station at the cursor to the route being drawn (see `Game::handle_route_creation_select`).
pub open spec fn spec_route_select_done(old: Game, new: Game) -> bool {
    &&& ({
        let (x, y) = (old.ui.cursor_x, old.ui.cursor_y);
        if old.world.in_bounds(x as int, y as int) && old.world.tile_at(x as int, y as int).content is Station
            && old.ui.route_creation_mode is Some {
            let (id, stops) = old.ui.route_creation_mode->Some_0;
            &&& new.ui.route_creation_mode matches Some((nid, nstops)) && nid == id && nstops@ == stops@.push((x, y))
            &&& new.ui == (UI { route_creation_mode: new.ui.route_creation_mode, ..old.ui })
        } else {
            new.ui == old.ui
        }
    })
    &&& new.world == old.world
    &&& new.player == old.player
    &&& new.economy == old.economy
    &&& new.ai_players == old.ai_players
    &&& new.running == old.running
}

/// `new` is `old` after ending the route being drawn (see `Game::finish_route_creation`).
pub open spec fn spec_route_finished(old: Game, new: Game) -> bool {
    &&& match old.ui.route_creation_mode {
        None => new == old,
        Some((id, stops)) => {
            &&& new.ui == (UI { route_creation_mode: None, ..old.ui })
            &&& new.player == (Player { vehicles: new.player.vehicles, ..old.player })
            &&& if stops@.len() >= 2 {
                spec_vehicle_changed(old.player.vehicles@, new.player.vehicles@, id,
                    |v: Vehicle, nv: Vehicle| nv.route@ == stops@ && nv == (Vehicle { route: nv.route, route_index: 0, ..v }))
            } else {
                new.player == old.player
            }
            &&& new.world == old.world
            &&& new.economy == old.economy
            &&& new.ai_players == old.ai_players
            &&& new.running == old.running
        }
    }
}

/// `new` and `r` are what acting on `input` makes of `old` (see `Game::handle_input`).
pub open spec fn spec_input_handled(old: Game, new: Game, input: InputEvent, r: Option<Request>) -> bool {
    &&& r == match input {
        InputEvent::Save => Some(Request::Save),
        InputEvent::Load => Some(Request::Load),
        InputEvent::VehicleOrder(VehicleOrder::SendToDepot) => match old.ui.selected_vehicle_id {
            Some(id) => Some(Request::SendToDepot(id)),
            None => None,
        },
        _ => None,
    }
    &&& new.running == (old.running && input != InputEvent::Quit)
    &&& new.economy == old.economy
    &&& new.ai_players == old.ai_players
    &&& match input {
        InputEvent::Move(d) => spec_moved(old.ui, new.ui, d)
            && new.world == old.world && new.player == old.player,
        InputEvent::BuildMenu => new.ui == (UI { show_build_menu: !old.ui.show_build_menu, ..old.ui })
            && new.world == old.world && new.player == old.player,
        InputEvent::ShowControls => new.ui == (UI { show_controls: !old.ui.show_controls, ..old.ui })
            && new.world == old.world && new.player == old.player,
        InputEvent::BuildAction(a) => new.ui == (UI { build_mode: Some(a), ..old.ui })
            && new.world == old.world && new.player == old.player,
        InputEvent::Quit | InputEvent::Pause | InputEvent::Save | InputEvent::Load | InputEvent::VehiclePurchase(_) =>
            new.ui == old.ui && new.world == old.world && new.player == old.player,
        InputEvent::VehicleOrder(o) => match old.ui.selected_vehicle_id {
            Some(id) => spec_order_done(old, new, id, o),
            None => new.ui == old.ui && new.world == old.world && new.player == old.player,
        },
        InputEvent::Select => match old.ui.build_mode {
            Some(a) => spec_build_action_done(old, new, a),
            None => match old.ui.vehicle_order_mode {
                Some((id, o)) => spec_order_select_done(old, new, id, o),
                None => if old.ui.route_creation_mode is Some {
                    spec_route_select_done(old, new)
                } else {
                    spec_selection_done(old, new)
                },
            },
        },
        InputEvent::FinishRouteCreation => spec_route_finished(old, new),
    }
}

/// The game can take `input`: a cursor step stays within the `usize` range, and one more
/// station can be numbered.
pub open spec fn input_allowed(g: Game, input: InputEvent) -> bool {
    &&& input matches InputEvent::Move(d) ==> can_move(g.ui, d)
    &&& g.world.stations@.len() < usize::MAX
}

/// `g` with the cursor placed at `(x, y)`.
pub open spec fn with_cursor(g: Game, x: usize, y: usize) -> Game {
    Game { ui: UI { cursor_x: x, cursor_y: y, ..g.ui }, ..g }
}

impl Game {
    /// Whether the game can take `input` (see `input_allowed`).
    pub fn can_take(&self, input: InputEvent) -> (r: bool)
        ensures
            r == input_allowed(*self, input),
    {
        let ui = &self.ui;
        let step_ok = match input {
            InputEvent::Move(CursorDirection::Down) => {
                ui.cursor_y < usize::MAX && ui.camera_y <= usize::MAX - ui.view_height
                    && (ui.view_height > 0 || ui.cursor_y < usize::MAX - 1)
            },
            InputEvent::Move(CursorDirection::Right) => {
                ui.cursor_x < usize::MAX && ui.camera_x <= usize::MAX - ui.view_width
                    && (ui.view_width > 0 || ui.cursor_x < usize::MAX - 1)
            },
            _ => true,
        };
        step_ok && self.world.stations.len() < usize::MAX
    }

    /// Acts on `input` with the cursor placed at `(x, y)` first, as a remote player who
    /// points at a tile does: when the game can take the input it is handled as
    /// `handle_input` does; otherwise only the cursor moves and nothing is requested.
    pub fn handle_input_at(&mut self, input: InputEvent, x: usize, y: usize) -> (r: Option<Request>)
        ensures
            input_allowed(with_cursor(*old(self), x, y), input) ==>
                spec_input_handled(with_cursor(*old(self), x, y), *final(self), input, r),
            !input_allowed(with_cursor(*old(self), x, y), input) ==>
                *final(self) == with_cursor(*old(self), x, y) && r is None,
    {
        self.ui.cursor_x = x;
        self.ui.cursor_y = y;
        if self.can_take(input) {
            self.handle_input(input)
        } else {
            None
        }
    }
}

impl Game {
    /// A new game on an 80 by 40 map, with a company named "Player" holding 1000000 and
    /// no computer companies.
    pub fn new() -> (g: Game)
        ensures
            g.world.width == 80,
            g.world.height == 40,
            g.world.is_fresh(),
            spec_initial_ui(g.ui),
            g.player.name@ == "Player"@,
            g.player.money == 1000000,
            g.player.vehicles@.len() == 0,
            g.player.stations@.len() == 0,
            g.player.routes@.len() == 0,
            g.player.reputation == 50,
            g.player.game_time == 0,
            g.economy.month == 0,
            g.economy.inflation_rate == 20,
            g.economy.economic_state == EconomicState::Stable,
            forall|c: CargoType| #[trigger] g.economy.price(c) == spec_initial_price(c),
            forall|c: CargoType| #![trigger g.economy.market(c)] g.economy.market(c).supply == 1000
                && g.economy.market(c).demand == 1000 && g.economy.market(c).price_multiplier == 1000,
            g.world.industries@.no_duplicates(),
            is_generated_world(g.world, 80, 40),
            g.world.towns@.len() + g.world.industries@.len() >= 1,
            g.ai_players@.len() == 0,
            g.running,
    {
        Game {
            world: World::new(80, 40),
            ui: UI::new(),
            economy: Economy::new(),
            player: Player::new(String::from_str("Player"), 1000000),
            ai_players: Vec::new(),
            running: true,
        }
    }

    /// Lays a straight horizontal track at `(x, y)` if the tile is buildable.
    pub fn build_rail_track(&mut self, x: usize, y: usize) -> (r: bool)
        ensures
            r == spec_buildable(old(self).world, x, y),
            spec_built(old(self).world, old(self).player, final(self).world, final(self).player, x, y, BuildAction::BuildRailTrack),
            final(self).ui == old(self).ui,
            final(self).economy == old(self).economy,
            final(self).ai_players == old(self).ai_players,
            final(self).running == old(self).running,
    {
        self.build_plain(x, y, 10000, TileContent::Track(TrackType::Straight { horizontal: true }))
    }

    /// Lays a road at `(x, y)` if the tile is buildable.
    pub fn build_road(&mut self, x: usize, y: usize) -> (r: bool)
        ensures
            r == spec_buildable(old(self).world, x, y),
            spec_built(old(self).world, old(self).player, final(self).world, final(self).player, x, y, BuildAction::BuildRoad),
            final(self).ui == old(self).ui,
            final(self).economy == old(self).economy,
            final(self).ai_players == old(self).ai_players,
            final(self).running == old(self).running,
    {
        self.build_plain(x, y, 5000, TileContent::Road)
    }

    /// Whether `(x, y)` is buildable (see `spec_buildable`).
    fn is_buildable(&self, x: usize, y: usize) -> (r: bool)
        ensures
            r == spec_buildable(self.world, x, y),
    {
        match self.world.get_tile(x, y) {
            Some(tile) => {
                if let TerrainType::Water = tile.terrain {
                    false
                } else if let TileContent::Empty = tile.content {
                    true
                } else {
                    false
                }
            },
            None => false,
        }
    }

    /// Puts `content` on a buildable tile, paying `cost`.
    fn build_plain(&mut self, x: usize, y: usize, cost: i64, content: TileContent) -> (r: bool)
        ensures
            r == spec_buildable(old(self).world, x, y),
            !r ==> *final(self) == *old(self),
            r ==> {
                &&& spec_tile_replaced(old(self).world, final(self).world, x, y, |t: Tile| t.content == content)
                &&& final(self).world.stations == old(self).world.stations
                &&& final(self).player == old(self).player
            },
            final(self).ui == old(self).ui,
            final(self).economy == old(self).economy,
            final(self).ai_players == old(self).ai_players,
            final(self).running == old(self).running,
    {
        if !self.player.can_afford(cost) {
            return false;
        }
        if !self.is_buildable(x, y) {
            return false;
        }
        self.player.spend_money(cost);
        let ghost w0 = self.world;
        self.world.set_tile_content(x, y, content);
        proof {
            assert forall|i: int, j: int| #[trigger] self.world.in_bounds(i, j) implies if i == x && j == y {
                &&& self.world.tile_at(i, j).terrain == w0.tile_at(i, j).terrain
                &&& self.world.tile_at(i, j).height == w0.tile_at(i, j).height
                &&& (|t: Tile| t.content == content)(self.world.tile_at(i, j))
            } else {
                self.world.tile_at(i, j) == w0.tile_at(i, j)
            } by {}
        }
        true
    }

    /// Builds a station of the given type and name prefix on a buildable tile.
    fn build_station(&mut self, x: usize, y: usize, cost: i64, prefix: &str, station_type: StationType) -> (r: bool)
        requires
            old(self).world.stations@.len() < usize::MAX,
        ensures
            r == spec_buildable(old(self).world, x, y),
            !r ==> *final(self) == *old(self),
            r ==> {
                &&& spec_tile_replaced(old(self).world, final(self).world, x, y,
                    |t: Tile| spec_new_station(t, prefix@ + spec_decimal(old(self).world.stations@.len() + 1), station_type))
                &&& final(self).world.stations@ == old(self).world.stations@.push((x, y))
                &&& final(self).player == (Player { stations: final(self).player.stations, ..old(self).player })
                &&& final(self).player.stations@ == old(self).player.stations@.push((x, y))
            },
            final(self).ui == old(self).ui,
            final(self).economy == old(self).economy,
            final(self).ai_players == old(self).ai_players,
            final(self).running == old(self).running,
    {
        if !self.player.can_afford(cost) {
            return false;
        }
        if !self.is_buildable(x, y) {
            return false;
        }
        self.player.spend_money(cost);
        let name = numbered_name(prefix, self.world.stations.len() + 1);
        let station = Station {
            name,
            station_type,
            cargo_waiting: CargoAmounts::new(),
            connections: Vec::new(),
        };
        let ghost w0 = self.world;
        let ghost n = w0.stations@.len();
        let ghost placed = |t: Tile| spec_new_station(t, prefix@ + spec_decimal(n + 1), station_type);
        self.world.set_tile_content(x, y, TileContent::Station(station));
        let ghost w1 = self.world;
        self.world.stations.push((x, y));
        self.player.stations.push((x, y));
        proof {
            assert forall|i: int, j: int| #[trigger] self.world.in_bounds(i, j) implies if i == x && j == y {
                &&& self.world.tile_at(i, j).terrain == w0.tile_at(i, j).terrain
                &&& self.world.tile_at(i, j).height == w0.tile_at(i, j).height
                &&& placed(self.world.tile_at(i, j))
            } else {
                self.world.tile_at(i, j) == w0.tile_at(i, j)
            } by {
                assert(self.world.in_bounds(i, j) == w1.in_bounds(i, j));
                assert(self.world.tile_at(i, j) == w1.tile_at(i, j));
            }
            assert(self.world.same_shape(&w0));
        }
        true
    }

    /// Builds a train station at `(x, y)` if the tile is buildable.
    pub fn build_train_station(&mut self, x: usize, y: usize) -> (r: bool)
        requires
            old(self).world.stations@.len() < usize::MAX,
        ensures
            r == spec_buildable(old(self).world, x, y),
            spec_built(old(self).world, old(self).player, final(self).world, final(self).player, x, y, BuildAction::BuildTrainStation),
            final(self).ui == old(self).ui,
            final(self).economy == old(self).economy,
            final(self).ai_players == old(self).ai_players,
            final(self).running == old(self).running,
    {
        self.build_station(x, y, 50000, "Station ", StationType::Train)
    }

    /// Builds a bus stop at `(x, y)` if the tile is buildable.
    pub fn build_bus_stop(&mut self, x: usize, y: usize) -> (r: bool)
        requires
            old(self).world.stations@.len() < usize::MAX,
        ensures
            r == spec_buildable(old(self).world, x, y),
            spec_built(old(self).world, old(self).player, final(self).world, final(self).player, x, y, BuildAction::BuildBusStop),
            final(self).ui == old(self).ui,
            final(self).economy == old(self).economy,
            final(self).ai_players == old(self).ai_players,
            final(self).running == old(self).running,
    {
        self.build_station(x, y, 25000, "Bus Stop ", StationType::Road)
    }

    /// Buys a bus of capacity 40 standing at `(x, y)`; money is unlimited, so this
    /// always succeeds.
    pub fn buy_vehicle_at_location(&mut self, x: usize, y: usize) -> (r: bool)
        ensures
            r,
            spec_bus_bought(old(self).player, final(self).player, x, y),
            final(self).world == old(self).world,
            final(self).ui == old(self).ui,
            final(self).economy == old(self).economy,
            final(self).ai_players == old(self).ai_players,
            final(self).running == old(self).running,
    {
        let vehicle_type = VehicleType::Road { truck_type: TruckType::Bus { capacity: 40 } };
        if let Some(_vehicle_id) = self.player.add_vehicle(vehicle_type, x, y) {
            assert(self.player == (Player { vehicles: self.player.vehicles, ..old(self).player }));
            true
        } else {
            false
        }
    }

    /// Carries out the build mode's action at the cursor and, when it succeeds, leaves
    /// build mode; a failed build stays in build mode for another try.
    pub fn handle_build_action(&mut self, build_action: BuildAction)
        requires
            old(self).world.stations@.len() < usize::MAX,
        ensures
            spec_build_action_done(*old(self), *final(self), build_action),
    {
        let (x, y) = self.ui.get_cursor_position();
        let build_result = match build_action {
            BuildAction::BuildRailTrack => self.build_rail_track(x, y),
            BuildAction::BuildTrainStation => self.build_train_station(x, y),
            BuildAction::BuildRoad => self.build_road(x, y),
            BuildAction::BuildBusStop => self.build_bus_stop(x, y),
            BuildAction::BuyVehicle => self.buy_vehicle_at_location(x, y),
        };
        if build_result {
            self.ui.set_build_mode(None);
        }
    }

    /// Selects at the cursor: the menu of the first vehicle standing there, or else the
    /// tile, when it exists.
    pub fn handle_selection(&mut self)
        ensures
            spec_selection_done(*old(self), *final(self)),
    {
        let (x, y) = self.ui.get_cursor_position();
        proof {
            lemma_first_vehicle_at(self.player.vehicles@, x, y);
        }
        if let Some(i) = find_vehicle_at(&self.player.vehicles, x, y) {
            let id = self.player.vehicles[i].id;
            self.ui.show_vehicle_menu(id);
            return;
        }
        if let Some(tile) = self.world.get_tile(x, y) {
            let copy = tile.duplicate();
            self.ui.set_selected_tile(Some(copy));
        }
    }

    /// Gives the first vehicle with the given id an order from its menu: going to a
    /// place or drawing a route enter the matching mode; starting sets a vehicle with a
    /// route moving towards its first stop; stopping makes it idle; sending it to the
    /// depot is passed on as a request.
    pub fn handle_vehicle_order(&mut self, vehicle_id: u32, order: VehicleOrder) -> (r: Option<Request>)
        ensures
            r == if order == VehicleOrder::SendToDepot { Some(Request::SendToDepot(vehicle_id)) } else { None },
            spec_order_done(*old(self), *final(self), vehicle_id, order),
    {
        match order {
            VehicleOrder::GoToLocation => {
                self.ui.set_vehicle_order_mode(Some((vehicle_id, order)));
                None
            },
            VehicleOrder::CreateRoute => {
                self.ui.set_route_creation_mode(Some((vehicle_id, Vec::new())));
                None
            },
            VehicleOrder::StartRoute => {
                if let Some(i) = self.player.find_vehicle(vehicle_id) {
                    if self.player.vehicles[i].route.len() > 0 {
                        let from = (self.player.vehicles[i].x, self.player.vehicles[i].y);
                        let to = self.player.vehicles[i].route[0];
                        self.player.vehicles[i].state = VehicleState::Moving { from, to, progress: 0 };
                    }
                }
                None
            },
            VehicleOrder::Stop => {
                if let Some(i) = self.player.find_vehicle(vehicle_id) {
                    self.player.vehicles[i].state = VehicleState::Idle;
                }
                None
            },
            VehicleOrder::SendToDepot => Some(Request::SendToDepot(vehicle_id)),
        }
    }
    /// Carries out a pending order at the cursor: going to a place sets the first
    /// vehicle with the id on a route of that one stop, moving there from where it
    /// stands. Every order mode ends.
    pub fn handle_vehicle_order_select(&mut self, vehicle_id: u32, order: VehicleOrder)
        ensures
            spec_order_select_done(*old(self), *final(self), vehicle_id, order),
    {
        let (x, y) = self.ui.get_cursor_position();
        match order {
            VehicleOrder::GoToLocation => {
                if let Some(i) = self.player.find_vehicle(vehicle_id) {
                    let from = (self.player.vehicles[i].x, self.player.vehicles[i].y);
                    self.player.vehicles[i].route = vec![(x, y)];
                    self.player.vehicles[i].route_index = 0;
                    self.player.vehicles[i].state = VehicleState::Moving { from, to: (x, y), progress: 0 };
                    assert(self.player.vehicles@[i as int].route@ =~= seq![(x, y)]);
                }
                self.ui.set_vehicle_order_mode(None);
            },
            _ => {
                self.ui.set_vehicle_order_mode(None);
            },
        }
    }

    /// While a route is drawn, a station at the cursor becomes its next stop.
    pub fn handle_route_creation_select(&mut self, _vehicle_id: u32)
        ensures
            spec_route_select_done(*old(self), *final(self)),
    {
        let (x, y) = self.ui.get_cursor_position();
        if let Some(tile) = self.world.get_tile(x, y) {
            if let TileContent::Station(_) = &tile.content {
                self.ui.add_waypoint_to_route(x, y);
            }
        }
    }

    /// Ends drawing a route: with at least two stops, the first vehicle with the id
    /// follows them from the first one.
    pub fn finish_route_creation(&mut self)
        ensures
            spec_route_finished(*old(self), *final(self)),
    {
        if let Some((vehicle_id, waypoints)) = self.ui.get_route_creation_mode() {
            if waypoints.len() >= 2 {
                if let Some(i) = self.player.find_vehicle(vehicle_id) {
                    self.player.vehicles[i].assign_route(waypoints);
                }
            }
            self.ui.set_route_creation_mode(None);
        }
    }

    /// Acts on an input: quitting stops the game; moving moves the cursor; selecting
    /// acts in the current mode (build, then order, then route drawing) or selects at
    /// the cursor; the menus and the controls are toggled; a build action enters build
    /// mode; an order goes to the selected vehicle; saving, loading and sending a
    /// vehicle to the depot are passed on as requests; pausing and purchase requests,
    /// which no handler treats, change nothing.
    pub fn handle_input(&mut self, input: InputEvent) -> (r: Option<Request>)
        requires
            input matches InputEvent::Move(d) ==> can_move(old(self).ui, d),
            old(self).world.stations@.len() < usize::MAX,
        ensures
            spec_input_handled(*old(self), *final(self), input, r),
    {
        match input {
            InputEvent::Quit => {
                self.running = false;
                None
            },
            InputEvent::Move(direction) => {
                self.ui.move_cursor(direction);
                None
            },
            InputEvent::Select => {
                if let Some(build_action) = self.ui.get_build_mode() {
                    self.handle_build_action(build_action);
                } else if let Some((vehicle_id, order)) = self.ui.get_vehicle_order_mode() {
                    self.handle_vehicle_order_select(vehicle_id, order);
                } else if let Some((vehicle_id, _waypoints)) = self.ui.get_route_creation_mode() {
                    self.handle_route_creation_select(vehicle_id);
                } else {
                    self.handle_selection();
                }
                None
            },
            InputEvent::Save => Some(Request::Save),
            InputEvent::Load => Some(Request::Load),
            InputEvent::Pause => None,
            InputEvent::BuildMenu => {
                self.ui.show_build_menu = !self.ui.show_build_menu;
                None
            },
            InputEvent::ShowControls => {
                self.ui.show_controls = !self.ui.show_controls;
                None
            },
            InputEvent::BuildAction(build_action) => {
                self.ui.set_build_mode(Some(build_action));
                None
            },
            InputEvent::VehicleOrder(vehicle_order) => {
                if let Some(vehicle_id) = self.ui.get_selected_vehicle_id() {
                    self.handle_vehicle_order(vehicle_id, vehicle_order)
                } else {
                    None
                }
            },
            InputEvent::FinishRouteCreation => {
                self.finish_route_creation();
                None
            },
            InputEvent::VehiclePurchase(_) => None,
        }
    }

    /// Takes the loaded game's map, market and companies; the interface stays.
    pub fn apply_loaded(&mut self, loaded: Game)
        ensures
            final(self).world == loaded.world,
            final(self).economy == loaded.economy,
            final(self).player == loaded.player,
            final(self).ai_players == loaded.ai_players,
            final(self).ui == old(self).ui,
            final(self).running == old(self).running,
    {
        self.world = loaded.world;
        self.economy = loaded.economy;
        self.player = loaded.player;
        self.ai_players = loaded.ai_players;
    }

    /// One tick of the game (see `spec_game_ticked`).
    pub fn update(&mut self)
        requires
            spec_can_tick(*old(self)),
        ensures
            spec_game_ticked(*old(self), *final(self)),
    {
        self.world.update();
        assert(spec_world_updated(old(self).world, self.world));
        let done = self.finish_tick();
        assert(spec_economy_updated(old(self).economy, self.economy, self.world));
        assert(done);
    }

    /// A tick that first checks that it can run: when its first step cannot, nothing
    /// changes; when the rest cannot start on the map the first step left, only the map
    /// has changed; otherwise the market and the companies take their steps, and a
    /// computer company whose routes are not ready for its decision stops the tick there
    /// (`spec_tick_halted`). The result says whether the whole tick ran; it does wherever
    /// `spec_ais_can_update` holds, and it is then the tick of `Game::update`.
    pub fn tick(&mut self) -> (r: bool)
        ensures
            !spec_tick_can_start(*old(self)) ==> !r && *final(self) == *old(self),
            spec_tick_can_start(*old(self)) ==> {
                &&& spec_world_updated(old(self).world, final(self).world)
                &&& !spec_tick_can_finish(*old(self), final(self).world) ==>
                    !r && *final(self) == (Game { world: final(self).world, ..*old(self) })
                &&& spec_tick_can_finish(*old(self), final(self).world) ==> {
                    &&& r ==> spec_game_ticked(*old(self), *final(self))
                    &&& !r ==> exists|k: int| #[trigger] spec_tick_halted(*old(self), *final(self), k)
                    &&& spec_ais_can_update(*old(self), final(self).world, final(self).economy) ==> r
                }
            },
    {
        if !(self.world.production_within_limits() && self.economy.month < u32::MAX
            && self.economy.inflation_rate <= 0xFFFF_FC18) {
            return false;
        }
        self.world.update();
        let ghost w = self.world;
        if !Economy::flows_within_limits(&self.world) || !self.player.can_tick(&self.world) {
            return false;
        }
        let mut i: usize = 0;
        while i < self.ai_players.len()
            invariant
                0 <= i <= self.ai_players@.len(),
                spec_tick_can_start(*old(self)),
                spec_world_updated(old(self).world, w),
                *self == (Game { world: w, ..*old(self) }),
                Economy::flows_fit(w),
                old(self).player.can_update(&w),
                forall|j: int| 0 <= j < i ==> spec_ai_can_start(#[trigger] self.ai_players@[j], self.world),
            decreases self.ai_players@.len() - i,
        {
            if !self.ai_players[i].can_tick(&self.world) {
                return false;
            }
            i = i + 1;
        }
        let r = self.finish_tick();
        proof {
            if !r {
                let g0 = Game { world: w, ..*old(self) };
                let k = choose|k: int| #[trigger] spec_rest_halted(g0, *self, k);
                assert(spec_tick_halted(*old(self), *self, k));
            }
        }
        r
    }

    /// The steps of a tick after the map's: the market, the company, then each computer
    /// company in turn, on the map as it is, until one stops before its decision.
    fn finish_tick(&mut self) -> (r: bool)
        requires
            spec_tick_can_finish(*old(self), old(self).world),
            old(self).economy.month < u32::MAX,
            old(self).economy.inflation_rate <= 0x1_0000_0000 - 1000,
        ensures
            final(self).world == old(self).world,
            r ==> {
                &&& spec_economy_updated(old(self).economy, final(self).economy, old(self).world)
                &&& spec_ticked(old(self).player, final(self).player, old(self).world)
                &&& final(self).ai_players@.len() == old(self).ai_players@.len()
                &&& forall|i: int| 0 <= i < old(self).ai_players@.len() ==>
                    spec_ai_updated(#[trigger] old(self).ai_players@[i], final(self).ai_players@[i], old(self).world, final(self).economy)
                &&& final(self).ui == old(self).ui
                &&& final(self).running == old(self).running
            },
            !r ==> exists|k: int| #[trigger] spec_rest_halted(*old(self), *final(self), k),
            spec_economy_updated(old(self).economy, final(self).economy, old(self).world),
            spec_ais_can_update(*old(self), old(self).world, final(self).economy) ==> r,
    {
        let ghost w = self.world;
        self.economy.update(&mut self.world);
        self.player.update(&mut self.world, &mut self.economy);
        let mut pending: Vec<AIPlayer> = Vec::new();
        std::mem::swap(&mut pending, &mut self.ai_players);
        let ghost all = pending@;
        let mut done: Vec<AIPlayer> = Vec::new();
        assert(all.len() == pending.len());
        while pending.len() > 0
            invariant
                all == old(self).ai_players@,
                w == old(self).world,
                all.len() <= usize::MAX,
                done@.len() + pending@.len() == all.len(),
                pending@ == all.subrange(done@.len() as int, all.len() as int),
                forall|i: int| 0 <= i < all.len() ==> spec_ai_can_start(#[trigger] all[i], w),
                forall|e: Economy| spec_ais_can_update(*old(self), w, e) ==>
                    forall|i: int| 0 <= i < all.len() ==> spec_ai_can_update(#[trigger] all[i], w, e),
                forall|i: int| 0 <= i < done@.len() ==> spec_ai_updated(#[trigger] all[i], done@[i], w, self.economy),
                self.world == w,
                spec_economy_updated(old(self).economy, self.economy, w),
                spec_ticked(old(self).player, self.player, w),
                self.ui == old(self).ui,
                self.running == old(self).running,
            decreases pending@.len(),
        {
            let mut ai = pending.remove(0);
            let ghost k = done@.len() as int;
            assert(ai == all[k]);
            let ok = ai.try_update(&mut self.world, &mut self.economy);
            proof {
                if spec_ais_can_update(*old(self), w, self.economy) {
                    assert(spec_ai_can_update(all[k], w, self.economy));
                }
            }
            done.push(ai);
            if !ok {
                let ghost before = done@;
                done.append(&mut pending);
                self.ai_players = done;
                proof {
                    assert(self.ai_players@ =~= before + all.subrange(k + 1, all.len() as int));
                }
                assert(spec_rest_halted(*old(self), *self, k));
                return false;
            }
            assert(pending@ =~= all.subrange(done@.len() as int, all.len() as int));
        }
        self.ai_players = done;
        true
    }
}

} // verus!
