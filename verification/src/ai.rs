use vstd::prelude::*;
use crate::cargo::CargoType;
use crate::world::{World, Tile, TileContent};
use crate::economy::{Economy, spec_cargo_price};
use crate::player::{Player, Route, route_index_of, spec_can_assign, spec_assigned, spec_ticked};
use crate::vehicle::{Vehicle, VehicleType, TrainEngine, TrainCar, TruckType, same_vehicle_type, spec_purchase_cost, spec_cars_capacity, lemma_cars_capacity_nonneg, spec_is_new_vehicle};
use crate::names::{numbered_name, spec_decimal};
use crate::geometry::{distance_milli, spec_distance_milli};
use crate::rng::random_range;
use crate::seqs::{first_index, lemma_first_index, lemma_first_index_step, lemma_first_index_extend};

verus! {

#[derive(Clone, Copy, Debug, PartialEq, Eq, Structural)]
pub enum AIDifficulty {
    Easy,
    Medium,
    Hard,
}

#[derive(Clone, Copy, Debug, PartialEq, Eq, Structural)]
pub enum AIStrategy {
    Aggressive,
    Conservative,
    Balanced,
    Specialist { focus: CargoType },
}

#[derive(Debug)]
pub struct AITarget {
    pub target_type: AITargetType,
    pub priority: u32,
    pub estimated_profit: i64,
    pub location: (usize, usize),
}

#[derive(Debug)]
pub enum AITargetType {
    BuildRoute { from: (usize, usize), to: (usize, usize), cargo: CargoType },
    ExpandExistingRoute { route_id: u32 },
    BuyVehicle { vehicle_type: VehicleType },
    BuildStation { location: (usize, usize) },
}

/// A computer-controlled company.
pub struct AIPlayer {
    pub player: Player,
    pub difficulty: AIDifficulty,
    pub strategy: AIStrategy,
    pub decision_timer: u32,
    pub last_action: u32,
    pub targets: Vec<AITarget>,
}

/// Money a computer company starts with.
pub open spec fn spec_starting_money(d: AIDifficulty) -> i64 {
    match d {
        AIDifficulty::Easy => 500000,
        AIDifficulty::Medium => 800000,
        AIDifficulty::Hard => 1200000,
    }
}

/// Ticks between two decisions.
pub open spec fn spec_decision_frequency(d: AIDifficulty) -> u32 {
    match d {
        AIDifficulty::Easy => 300,
        AIDifficulty::Medium => 200,
        AIDifficulty::Hard => 100,
    }
}

/// Two target kinds are the same, vehicle types compared by `same_vehicle_type`.
pub open spec fn same_target_type(a: AITargetType, b: AITargetType) -> bool {
    match (a, b) {
        (AITargetType::BuyVehicle { vehicle_type: x }, AITargetType::BuyVehicle { vehicle_type: y }) => same_vehicle_type(x, y),
        (AITargetType::BuyVehicle { .. }, _) => false,
        (_, AITargetType::BuyVehicle { .. }) => false,
        _ => a == b,
    }
}

/// Two targets are the same.
pub open spec fn same_target(a: AITarget, b: AITarget) -> bool {
    &&& same_target_type(a.target_type, b.target_type)
    &&& a.priority == b.priority
    &&& a.estimated_profit == b.estimated_profit
    &&& a.location == b.location
}

impl AITarget {
    /// A copy of the target.
    pub fn duplicate(&self) -> (r: AITarget)
        ensures
            same_target(r, *self),
    {
        let target_type = match &self.target_type {
            AITargetType::BuildRoute { from, to, cargo } => AITargetType::BuildRoute { from: *from, to: *to, cargo: *cargo },
            AITargetType::ExpandExistingRoute { route_id } => AITargetType::ExpandExistingRoute { route_id: *route_id },
            AITargetType::BuyVehicle { vehicle_type } => AITargetType::BuyVehicle { vehicle_type: vehicle_type.duplicate() },
            AITargetType::BuildStation { location } => AITargetType::BuildStation { location: *location },
        };
        AITarget {
            target_type,
            priority: self.priority,
            estimated_profit: self.estimated_profit,
            location: self.location,
        }
    }
}

/// The bonus a strategy gives a route for the given cargo: a specialist likes its own
/// cargo, an aggressive company likes every route and a conservative one dislikes them.
pub open spec fn spec_strategy_modifier(s: AIStrategy, c: CargoType) -> i32 {
    match s {
        AIStrategy::Specialist { focus } => if focus == c { 50 } else { 0 },
        AIStrategy::Aggressive => 20,
        AIStrategy::Conservative => -10i32,
        AIStrategy::Balanced => 0,
    }
}

/// The low 32 bits of `v`, read as a signed number.
pub open spec fn spec_low_i32(v: int) -> i32 {
    let low = v % 0x1_0000_0000;
    if low > i32::MAX { (low - 0x1_0000_0000) as i32 } else { low as i32 }
}

/// Priority of a route worth `profit`: the profit in thousands, reduced to 32 bits and
/// read as signed, plus the strategy's bonus (wrapping on overflow), and at least 0.
pub open spec fn spec_target_priority(profit: i64, modifier: i32) -> u32 {
    let s = vstd::wrapping::i32_specs::wrapping_add(spec_low_i32(profit / 1000), modifier);
    if s < 0 { 0 } else { s as u32 }
}

/// Cargo a route is expected to move each month.
pub open spec fn spec_monthly_cargo(c: CargoType) -> int {
    match c {
        CargoType::Passengers => 200,
        CargoType::Mail => 100,
        _ => 150,
    }
}

/// A year's income of a route whose cargo sells at `price_milli` thousandths a unit,
/// rounded down and stopping at `i64::MAX`.
pub open spec fn spec_route_profit(price_milli: u64, c: CargoType) -> i64 {
    let p = price_milli * spec_monthly_cargo(c) * 12 / 1000;
    if p > i64::MAX { i64::MAX } else { p as i64 }
}

/// The estimated profit of carrying `c` over `d` thousandths of a tile.
pub open spec fn spec_estimated_route_profit(e: Economy, c: CargoType, d: u64) -> i64 {
    spec_route_profit(spec_cargo_price(e.price(c), d, e.economic_state), c)
}

/// The target of building a route from `from` to `to` for `cargo`, worth `profit`.
pub open spec fn spec_route_target(s: AIStrategy, from: (usize, usize), to: (usize, usize), cargo: CargoType, profit: i64) -> AITarget {
    AITarget {
        target_type: AITargetType::BuildRoute { from, to, cargo },
        priority: spec_target_priority(profit, spec_strategy_modifier(s, cargo)),
        estimated_profit: profit,
        location: from,
    }
}

/// Route targets for each of `cargos` in turn, over `d` thousandths of a tile, keeping
/// those worth more than `min_profit`.
pub open spec fn spec_cargo_targets(
    s: AIStrategy,
    e: Economy,
    from: (usize, usize),
    to: (usize, usize),
    d: u64,
    cargos: Seq<CargoType>,
    min_profit: i64,
) -> Seq<AITarget>
    decreases cargos.len(),
{
    if cargos.len() == 0 {
        seq![]
    } else {
        let rest = spec_cargo_targets(s, e, from, to, d, cargos.drop_last(), min_profit);
        let c = cargos.last();
        let profit = spec_estimated_route_profit(e, c, d);
        if profit > min_profit {
            rest.push(spec_route_target(s, from, to, c, profit))
        } else {
            rest
        }
    }
}

/// Route targets between two places, when their distance lies strictly between `lo`
/// and `hi` thousandths of a tile.
pub open spec fn spec_pair_targets(
    s: AIStrategy,
    e: Economy,
    from: (usize, usize),
    to: (usize, usize),
    lo: u64,
    hi: u64,
    cargos: Seq<CargoType>,
    min_profit: i64,
) -> Seq<AITarget> {
    let d = spec_distance_milli(from, to);
    if lo < d && d < hi {
        spec_cargo_targets(s, e, from, to, d as u64, cargos, min_profit)
    } else {
        seq![]
    }
}

/// Cargo carried between two towns.
pub open spec fn spec_town_cargos() -> Seq<CargoType> {
    seq![CargoType::Passengers, CargoType::Mail]
}

/// Cargo carried from an industry to a town.
pub open spec fn spec_industry_cargos() -> Seq<CargoType> {
    seq![CargoType::Goods, CargoType::Coal, CargoType::Steel]
}

/// Targets between town `i` and the towns after it, before town `j`.
pub open spec fn spec_town_row(s: AIStrategy, e: Economy, towns: Seq<(usize, usize)>, i: int, j: int) -> Seq<AITarget>
    decreases j - i,
{
    if j <= i + 1 {
        seq![]
    } else {
        spec_town_row(s, e, towns, i, j - 1)
            + spec_pair_targets(s, e, towns[i], towns[j - 1], 5000, 50000, spec_town_cargos(), 50000)
    }
}

/// Targets between pairs of towns whose first town comes before town `i`.
pub open spec fn spec_town_targets(s: AIStrategy, e: Economy, towns: Seq<(usize, usize)>, i: int) -> Seq<AITarget>
    decreases i,
{
    if i <= 0 {
        seq![]
    } else {
        spec_town_targets(s, e, towns, i - 1) + spec_town_row(s, e, towns, i - 1, towns.len() as int)
    }
}

/// Targets from industry `i` to the towns before town `j`.
pub open spec fn spec_industry_row(
    s: AIStrategy,
    e: Economy,
    industries: Seq<(usize, usize)>,
    towns: Seq<(usize, usize)>,
    i: int,
    j: int,
) -> Seq<AITarget>
    decreases j,
{
    if j <= 0 {
        seq![]
    } else {
        spec_industry_row(s, e, industries, towns, i, j - 1)
            + spec_pair_targets(s, e, industries[i], towns[j - 1], 3000, 40000, spec_industry_cargos(), 30000)
    }
}

/// Targets from the industries before industry `i` to every town.
pub open spec fn spec_industry_targets(
    s: AIStrategy,
    e: Economy,
    industries: Seq<(usize, usize)>,
    towns: Seq<(usize, usize)>,
    i: int,
) -> Seq<AITarget>
    decreases i,
{
    if i <= 0 {
        seq![]
    } else {
        spec_industry_targets(s, e, industries, towns, i - 1)
            + spec_industry_row(s, e, industries, towns, i - 1, towns.len() as int)
    }
}

/// Every profitable new route: first between towns, then from industries to towns.
pub open spec fn spec_route_targets(s: AIStrategy, e: Economy, world: World) -> Seq<AITarget> {
    spec_town_targets(s, e, world.towns@, world.towns@.len() as int)
        + spec_industry_targets(s, e, world.industries@, world.towns@, world.industries@.len() as int)
}

/// A route worth a further vehicle: it made more than 100000 and runs fewer than three.
pub open spec fn spec_worth_expanding(r: Route) -> bool {
    r.profit > 100000 && r.vehicle_ids@.len() < 3
}

/// Twice `p`, wrapped into the `i64` range as the release build's arithmetic does.
pub open spec fn spec_doubled(p: i64) -> i64 {
    if 2 * p > i64::MAX { (2 * p - 0x1_0000_0000_0000_0000) as i64 } else if 2 * p < i64::MIN { (2 * p + 0x1_0000_0000_0000_0000) as i64 } else { (2 * p) as i64 }
}

/// The low 32 bits of `e / 10000`, the quotient rounded toward zero.
pub open spec fn spec_ten_thousands_low(e: i64) -> u32 {
    if e >= 0 {
        ((e / 10000) % 0x1_0000_0000) as u32
    } else {
        let low = ((-e) / 10000) % 0x1_0000_0000;
        if low == 0 { 0 } else { (0x1_0000_0000 - low) as u32 }
    }
}

/// The target of adding a vehicle to route `r`: worth twice the route's profit, with
/// the ten-thousands of that (low 32 bits) as priority, located at its first stop.
pub open spec fn spec_expand_target(r: Route) -> AITarget {
    AITarget {
        target_type: AITargetType::ExpandExistingRoute { route_id: r.id },
        priority: spec_ten_thousands_low(spec_doubled(r.profit)),
        estimated_profit: spec_doubled(r.profit),
        location: r.stations@[0],
    }
}

/// The expansion targets of the routes, in order.
pub open spec fn spec_expand_targets(rs: Seq<Route>) -> Seq<AITarget>
    decreases rs.len(),
{
    if rs.len() == 0 {
        seq![]
    } else {
        let rest = spec_expand_targets(rs.drop_last());
        if spec_worth_expanding(rs.last()) {
            rest.push(spec_expand_target(rs.last()))
        } else {
            rest
        }
    }
}

/// Every route worth expanding has a first stop.
pub open spec fn routes_expandable(rs: Seq<Route>) -> bool {
    forall|i: int| 0 <= i < rs.len() && #[trigger] spec_worth_expanding(rs[i]) ==> rs[i].stations@.len() > 0
}

/// Number of vehicle types a strategy considers buying.
pub open spec fn spec_option_count(s: AIStrategy) -> int {
    match s {
        AIStrategy::Balanced => 2,
        _ => 1,
    }
}

/// `vt` is the `k`-th vehicle type the strategy considers buying.
pub open spec fn spec_is_purchase_option(s: AIStrategy, k: int, vt: VehicleType) -> bool {
    match s {
        AIStrategy::Aggressive => k == 0 && (vt matches VehicleType::Train { engine, cars }
            && engine == (TrainEngine::Diesel { power: 2000, reliability: 85 })
            && cars@ == seq![TrainCar::Passenger { capacity: 100 }, TrainCar::Freight { capacity: 80, cargo_type: None }]),
        AIStrategy::Conservative => k == 0 && vt == (VehicleType::Road { truck_type: TruckType::Bus { capacity: 40 } }),
        AIStrategy::Balanced => (k == 0 && (vt matches VehicleType::Train { engine, cars }
            && engine == (TrainEngine::Steam { power: 1500, reliability: 80 })
            && cars@ == seq![TrainCar::Passenger { capacity: 80 }]))
            || (k == 1 && vt == (VehicleType::Road { truck_type: TruckType::LargeTruck { capacity: 60 } })),
        AIStrategy::Specialist { focus } => k == 0 && vt == (if focus == CargoType::Passengers {
            VehicleType::Road { truck_type: TruckType::Bus { capacity: 50 } }
        } else {
            VehicleType::Road { truck_type: TruckType::LargeTruck { capacity: 80 } }
        }),
    }
}

/// Capacity counted when valuing a vehicle: a train's cars, a road vehicle's own
/// capacity, and 50 for ships and aircraft.
pub open spec fn spec_estimated_capacity(vt: VehicleType) -> int {
    match vt {
        VehicleType::Train { cars, .. } => spec_cars_capacity(cars@),
        VehicleType::Road { truck_type } => match truck_type {
            TruckType::SmallTruck { capacity } => capacity as int,
            TruckType::LargeTruck { capacity } => capacity as int,
            TruckType::Bus { capacity } => capacity as int,
        },
        _ => 50,
    }
}

/// A year's income of a vehicle: ten per unit of capacity a day.
pub open spec fn spec_vehicle_profit(vt: VehicleType) -> int {
    spec_estimated_capacity(vt) * 3650
}

/// `t` is the target of buying the `k`-th vehicle type the strategy considers: priority
/// one hundred times the whole number of prices the yearly income covers.
pub open spec fn spec_is_vehicle_target(t: AITarget, s: AIStrategy, k: int) -> bool {
    &&& t.target_type matches AITargetType::BuyVehicle { vehicle_type } && spec_is_purchase_option(s, k, vehicle_type)
        && t.priority == spec_vehicle_profit(vehicle_type) / spec_purchase_cost(vehicle_type) * 100
        && t.estimated_profit == spec_vehicle_profit(vehicle_type)
    &&& t.location == (0usize, 0usize)
}

/// What a tile adds to the value of a station nearby: ten per inhabitant of a town,
/// 25000 for an industry.
pub open spec fn spec_tile_value(t: Tile) -> int {
    match t.content {
        TileContent::Town(town) => town.population * 10,
        TileContent::Industry(_) => 25000,
        _ => 0,
    }
}

/// The value of the tile at `(cx, cy)`, or 0 off the map.
pub open spec fn spec_cell_value(w: World, cx: int, cy: int) -> int {
    if 0 <= cx < w.width && 0 <= cy < w.height && w.in_bounds(cx, cy) {
        spec_tile_value(w.tile_at(cx, cy))
    } else {
        0
    }
}

/// The value of the first `k` tiles of row `cy` starting at column `x - 5`.
pub open spec fn spec_row_value(w: World, x: int, cy: int, k: int) -> int
    decreases k,
{
    if k <= 0 {
        0
    } else {
        spec_row_value(w, x, cy, k - 1) + spec_cell_value(w, x - 5 + k - 1, cy)
    }
}

/// The value of the first `k` rows, from row `y - 5`, of the ten columns from `x - 5`.
pub open spec fn spec_window_value(w: World, x: int, y: int, k: int) -> int
    decreases k,
{
    if k <= 0 {
        0
    } else {
        spec_window_value(w, x, y, k - 1) + spec_row_value(w, x, y - 5 + k - 1, 10)
    }
}

/// The value of a station at `(x, y)`: that of the ten by ten tiles from `(x - 5, y - 5)`
/// to `(x + 4, y + 4)`.
pub open spec fn spec_location_value(w: World, x: int, y: int) -> int {
    spec_window_value(w, x, y, 10)
}

/// The target of building a station at `(x, y)`, if its tile is empty and its
/// neighbourhood is worth more than 50000.
pub open spec fn spec_station_target(w: World, x: usize, y: usize) -> Option<AITarget> {
    if w.in_bounds(x as int, y as int) && w.tile_at(x as int, y as int).content is Empty
        && spec_location_value(w, x as int, y as int) > 50000 {
        let v = spec_location_value(w, x as int, y as int);
        Some(AITarget {
            target_type: AITargetType::BuildStation { location: (x, y) },
            priority: (v / 1000) as u32,
            estimated_profit: v as i64,
            location: (x, y),
        })
    } else {
        None
    }
}

/// `t` is the station target of some tile of the map.
pub open spec fn spec_is_station_target(w: World, t: AITarget) -> bool {
    t.target_type matches AITargetType::BuildStation { location } && location.0 < w.width && location.1 < w.height
        && spec_station_target(w, location.0, location.1) == Some(t)
}

/// The station targets that a search of the map finds at the drawn positions, in the
/// order drawn: one for each position where a station is worth building.
pub open spec fn spec_found_stations(w: World, draws: Seq<(usize, usize)>) -> Seq<AITarget>
    decreases draws.len(),
{
    if draws.len() == 0 {
        Seq::empty()
    } else {
        let rest = spec_found_stations(w, draws.drop_last());
        match spec_station_target(w, draws.last().0, draws.last().1) {
            Some(t) => rest.push(t),
            None => rest,
        }
    }
}

/// Every drawn position lies on the map.
pub open spec fn draws_on_map(w: World, draws: Seq<(usize, usize)>) -> bool {
    forall|k: int| 0 <= k < draws.len() ==> (#[trigger] draws[k]).0 < w.width && draws[k].1 < w.height
}

/// The map's coordinates fit the signed 32-bit arithmetic of the neighbourhood search.
pub open spec fn world_searchable(w: World) -> bool {
    w.width <= 0x7FFF_FFF0 && w.height <= 0x7FFF_FFF0
}

proof fn lemma_row_value_bounds(w: World, x: int, cy: int, k: int)
    requires
        0 <= k,
    ensures
        0 <= spec_row_value(w, x, cy, k) <= k * 42949672950,
    decreases k,
{
    if k > 0 {
        lemma_row_value_bounds(w, x, cy, k - 1);
    }
}

proof fn lemma_window_value_bounds(w: World, x: int, y: int, k: int)
    requires
        0 <= k,
    ensures
        0 <= spec_window_value(w, x, y, k) <= k * 429496729500,
    decreases k,
{
    if k > 0 {
        lemma_window_value_bounds(w, x, y, k - 1);
        lemma_row_value_bounds(w, x, y - 5 + k - 1, 10);
    }
}

/// Where a target of priority `p` joins a list ordered by decreasing priority: before
/// the first target of lower priority, behind all of equal or higher priority.
pub open spec fn spec_insert_pos(s: Seq<AITarget>, p: u32) -> int {
    match first_index(s, |t: AITarget| t.priority < p) {
        Some(k) => k,
        None => s.len() as int,
    }
}

/// The targets ordered by decreasing priority, targets of equal priority in the order
/// they came in.
pub open spec fn spec_sorted_by_priority(s: Seq<AITarget>) -> Seq<AITarget>
    decreases s.len(),
{
    if s.len() == 0 {
        s
    } else {
        let r = spec_sorted_by_priority(s.drop_last());
        r.insert(spec_insert_pos(r, s.last().priority), s.last())
    }
}

/// Priorities do not increase along the list.
pub open spec fn priorities_descend(s: Seq<AITarget>) -> bool {
    forall|i: int, j: int| 0 <= i < j < s.len() ==> #[trigger] s[i].priority >= #[trigger] s[j].priority
}

proof fn lemma_insert_pos(s: Seq<AITarget>, p: u32)
    requires
        priorities_descend(s),
    ensures
        0 <= spec_insert_pos(s, p) <= s.len(),
        forall|i: int| 0 <= i < spec_insert_pos(s, p) ==> #[trigger] s[i].priority >= p,
        forall|i: int| spec_insert_pos(s, p) <= i < s.len() ==> #[trigger] s[i].priority < p,
{
    let pred = |t: AITarget| t.priority < p;
    lemma_first_index(s, pred);
    match first_index(s, pred) {
        Some(k) => {
            assert forall|i: int| k <= i < s.len() implies #[trigger] s[i].priority < p by {
                assert(pred(s[k]));
                if i > k {
                    assert(s[k].priority >= s[i].priority);
                }
            }
            assert forall|i: int| 0 <= i < k implies #[trigger] s[i].priority >= p by {
                assert(!pred(s[i]));
            }
        },
        None => {
            assert forall|i: int| 0 <= i < s.len() implies #[trigger] s[i].priority >= p by {
                assert(!pred(s[i]));
            }
        },
    }
}

/// Sorting keeps every target, as often as it occurs, and orders them by decreasing
/// priority.
pub proof fn lemma_sorted_by_priority(s: Seq<AITarget>)
    ensures
        spec_sorted_by_priority(s).len() == s.len(),
        spec_sorted_by_priority(s).to_multiset() == s.to_multiset(),
        priorities_descend(spec_sorted_by_priority(s)),
    decreases s.len(),
{
    if s.len() > 0 {
        let rest = s.drop_last();
        lemma_sorted_by_priority(rest);
        let r = spec_sorted_by_priority(rest);
        let t = s.last();
        let pos = spec_insert_pos(r, t.priority);
        lemma_insert_pos(r, t.priority);
        let out = r.insert(pos, t);
        assert(out.to_multiset() == r.to_multiset().insert(t)) by {
            vstd::seq_lib::to_multiset_insert(r, pos, t);
        }
        assert(s.to_multiset() == rest.to_multiset().insert(t)) by {
            vstd::seq_lib::to_multiset_build(rest, t);
            assert(rest.push(t) =~= s);
        }
        r.insert_ensures(pos, t);
        assert forall|i: int, j: int| 0 <= i < j < out.len() implies #[trigger] out[i].priority >= #[trigger] out[j].priority by {
            if j < pos {
                assert(out[i] == r[i] && out[j] == r[j]);
            } else if j == pos {
                assert(out[i] == r[i]);
            } else if i < pos {
                assert(out[i] == r[i] && out[j] == r[j - 1]);
            } else if i == pos {
                assert(out[j] == r[j - 1]);
            } else {
                assert(out[i] == r[i - 1] && out[j] == r[j - 1]);
            }
        }
    }
}

/// Whether a company with `money` can take on the target: a new route needs more than
/// 100000, expanding a route more than 150000, a station more than 50000, and vehicles
/// are always affordable.
pub open spec fn spec_affordable(t: AITarget, money: i64) -> bool {
    match t.target_type {
        AITargetType::BuildRoute { .. } => money > 100000,
        AITargetType::ExpandExistingRoute { .. } => money > 150000,
        AITargetType::BuyVehicle { .. } => true,
        AITargetType::BuildStation { .. } => money > 50000,
    }
}

/// The priority a strategy ranks a target by: an aggressive company adds 20 to buying
/// vehicles and 15 to new routes, a conservative one 25 to expanding routes, a
/// specialist 30 to routes for its cargo (all adding with wrap-around).
pub open spec fn spec_target_key(t: AITarget, s: AIStrategy) -> u32 {
    match s {
        AIStrategy::Aggressive => match t.target_type {
            AITargetType::BuyVehicle { .. } => vstd::wrapping::u32_specs::wrapping_add(t.priority, 20),
            AITargetType::BuildRoute { .. } => vstd::wrapping::u32_specs::wrapping_add(t.priority, 15),
            _ => t.priority,
        },
        AIStrategy::Conservative => match t.target_type {
            AITargetType::ExpandExistingRoute { .. } => vstd::wrapping::u32_specs::wrapping_add(t.priority, 25),
            _ => t.priority,
        },
        AIStrategy::Balanced => t.priority,
        AIStrategy::Specialist { focus } => match t.target_type {
            AITargetType::BuildRoute { cargo, .. } => if cargo == focus {
                vstd::wrapping::u32_specs::wrapping_add(t.priority, 30)
            } else {
                t.priority
            },
            _ => t.priority,
        },
    }
}

/// The position of the affordable target with the greatest key, the last one of them
/// where several share it; `None` when no target is affordable.
pub open spec fn spec_best_index(ts: Seq<AITarget>, money: i64, s: AIStrategy) -> Option<int>
    decreases ts.len(),
{
    if ts.len() == 0 {
        None
    } else {
        let prev = spec_best_index(ts.drop_last(), money, s);
        let i = ts.len() - 1;
        if !spec_affordable(ts[i], money) {
            prev
        } else {
            match prev {
                None => Some(i),
                Some(b) => if spec_target_key(ts[i], s) >= spec_target_key(ts[b], s) { Some(i) } else { prev },
            }
        }
    }
}

/// The chosen target is affordable, no affordable target has a greater key, and every
/// affordable target after it has a smaller one; nothing is chosen only when nothing
/// is affordable.
pub proof fn lemma_best_index(ts: Seq<AITarget>, money: i64, s: AIStrategy)
    ensures
        match spec_best_index(ts, money, s) {
            None => forall|j: int| 0 <= j < ts.len() ==> !spec_affordable(#[trigger] ts[j], money),
            Some(b) => {
                &&& 0 <= b < ts.len()
                &&& spec_affordable(ts[b], money)
                &&& forall|j: int| 0 <= j < ts.len() && spec_affordable(#[trigger] ts[j], money) ==>
                    spec_target_key(ts[j], s) <= spec_target_key(ts[b], s)
                &&& forall|j: int| b < j < ts.len() && spec_affordable(#[trigger] ts[j], money) ==>
                    spec_target_key(ts[j], s) < spec_target_key(ts[b], s)
            },
        },
    decreases ts.len(),
{
    if ts.len() > 0 {
        let rest = ts.drop_last();
        let i = ts.len() - 1;
        lemma_best_index(rest, money, s);
        assert forall|j: int| 0 <= j < rest.len() implies #[trigger] rest[j] == ts[j] by {}
        match spec_best_index(rest, money, s) {
            None => {
                assert forall|j: int| 0 <= j < i implies !spec_affordable(#[trigger] ts[j], money) by {
                    assert(rest[j] == ts[j]);
                }
            },
            Some(b) => {
                assert(rest[b] == ts[b]);
                assert forall|j: int| 0 <= j < i && spec_affordable(#[trigger] ts[j], money) implies
                    spec_target_key(ts[j], s) <= spec_target_key(ts[b], s) by {
                    assert(rest[j] == ts[j]);
                }
                assert forall|j: int| b < j < i && spec_affordable(#[trigger] ts[j], money) implies
                    spec_target_key(ts[j], s) < spec_target_key(ts[b], s) by {
                    assert(rest[j] == ts[j]);
                }
            },
        }
    }
}

/// Every vehicle a target would buy has a price that fits in an `i64`.
pub open spec fn targets_priced(ts: Seq<AITarget>) -> bool {
    forall|i: int| 0 <= i < ts.len() ==> ((#[trigger] ts[i]).target_type matches AITargetType::BuyVehicle { vehicle_type }
        ==> spec_purchase_cost(vehicle_type) <= i64::MAX)
}

/// The vehicle bought for a route carrying `c`: a bus for passengers, a small truck for
/// mail and a large truck for anything else.
pub open spec fn spec_suitable_vehicle(c: CargoType) -> VehicleType {
    match c {
        CargoType::Passengers => VehicleType::Road { truck_type: TruckType::Bus { capacity: 50 } },
        CargoType::Mail => VehicleType::Road { truck_type: TruckType::SmallTruck { capacity: 30 } },
        _ => VehicleType::Road { truck_type: TruckType::LargeTruck { capacity: 80 } },
    }
}

/// `new` is `old` with one more vehicle: a new one of a type the same as `vt`, standing
/// at `at`, whose id is the number of vehicles before.
pub open spec fn spec_vehicle_added(old: Player, new: Player, vt: VehicleType, at: (usize, usize)) -> bool {
    &&& new.vehicles@.len() == old.vehicles@.len() + 1
    &&& new.vehicles@.drop_last() == old.vehicles@
    &&& same_vehicle_type(new.vehicles@.last().vehicle_type, vt)
    &&& spec_is_new_vehicle(new.vehicles@.last(), old.vehicles@.len() as u32, new.vehicles@.last().vehicle_type, at.0, at.1)
    &&& new == (Player { vehicles: new.vehicles, ..old })
}

/// `new` is `old` with one more route, named "AI Route " and the number of routes before,
/// which is also its id, from `from` to `to` for `cargo`, without vehicles or profit.
pub open spec fn spec_route_added(old: Player, new: Player, from: (usize, usize), to: (usize, usize), cargo: CargoType) -> bool {
    let m = old.routes@.len();
    &&& new.routes@.len() == m + 1
    &&& new.routes@.drop_last() == old.routes@
    &&& new.routes@.last().id == m as u32
    &&& new.routes@.last().name@ == "AI Route "@ + spec_decimal(m)
    &&& new.routes@.last().stations@ == seq![from, to]
    &&& new.routes@.last().vehicle_ids@.len() == 0
    &&& new.routes@.last().cargo_types@ == seq![cargo]
    &&& new.routes@.last().profit == 0
    &&& new == (Player { routes: new.routes, ..old })
}

/// `new` is `mid` after vehicle `vid` is assigned to route `rid`, or `mid` unchanged when
/// the assignment fails.
pub open spec fn spec_assigned_or_kept(mid: Player, new: Player, vid: u32, rid: u32) -> bool {
    if spec_can_assign(mid, vid, rid) {
        spec_assigned(mid, new, vid, rid)
    } else {
        new == mid
    }
}

/// `new` is `old` after carrying out the target: a new route gets a suitable vehicle
/// from its first stop; an existing route (the first with the id, if any) gets a
/// suitable vehicle for its first cargo at its first stop; a bought vehicle stands at
/// the first station, or at `(0, 0)` when there is none; a station is listed.
pub open spec fn spec_executed(old: Player, new: Player, t: AITarget) -> bool {
    match t.target_type {
        AITargetType::BuildRoute { from, to, cargo } => exists|p: Player, q: Player|
            spec_route_added(old, p, from, to, cargo) && #[trigger] spec_vehicle_added(p, q, spec_suitable_vehicle(cargo), from)
                && spec_assigned_or_kept(q, new, old.vehicles@.len() as u32, old.routes@.len() as u32),
        AITargetType::ExpandExistingRoute { route_id } => match route_index_of(old.routes@, route_id) {
            None => new == old,
            Some(ri) => exists|q: Player|
                #[trigger] spec_vehicle_added(old, q, spec_suitable_vehicle(old.routes@[ri].cargo_types@[0]), old.routes@[ri].stations@[0])
                    && spec_assigned_or_kept(q, new, old.vehicles@.len() as u32, route_id),
        },
        AITargetType::BuyVehicle { vehicle_type } => spec_vehicle_added(old, new, vehicle_type,
            if old.stations@.len() > 0 { old.stations@[0] } else { (0, 0) }),
        AITargetType::BuildStation { location } => {
            &&& new == (Player { stations: new.stations, ..old })
            &&& new.stations@ == old.stations@.push(location)
        },
    }
}

/// The time of the last action after carrying out `t`: the company's clock, unless `t`
/// names a route that does not exist.
pub open spec fn spec_last_action_after(p: Player, last_action: u32, t: AITarget) -> u32 {
    match t.target_type {
        AITargetType::ExpandExistingRoute { route_id } => if route_index_of(p.routes@, route_id) is None {
            last_action
        } else {
            p.game_time
        },
        _ => p.game_time,
    }
}

/// The target can be carried out without failing: a vehicle to buy has a price that
/// fits in an `i64`, and the route to expand, when it exists, has a stop and a cargo.
pub open spec fn spec_target_sound(p: Player, t: AITarget) -> bool {
    match t.target_type {
        AITargetType::BuyVehicle { vehicle_type } => spec_purchase_cost(vehicle_type) <= i64::MAX,
        AITargetType::ExpandExistingRoute { route_id } => route_index_of(p.routes@, route_id) matches Some(ri) ==> {
            &&& p.routes@[ri].stations@.len() > 0
            &&& p.routes@[ri].cargo_types@.len() > 0
        },
        _ => true,
    }
}

/// Every route worth a further vehicle (`spec_worth_expanding`) has a stop, and the first
/// route with its id has a stop and a cargo; then every target a decision can draw up can
/// be carried out, whichever it picks.
pub open spec fn routes_ready(rs: Seq<Route>) -> bool {
    forall|i: int| 0 <= i < rs.len() && #[trigger] spec_worth_expanding(rs[i]) ==> {
        &&& rs[i].stations@.len() > 0
        &&& route_index_of(rs, rs[i].id) matches Some(f) && rs[f].stations@.len() > 0 && rs[f].cargo_types@.len() > 0
    }
}

/// `c` is a list of targets a decision can draw up: the new routes, the routes to
/// expand, the vehicles to buy (with at least 200000 in hand), and the stations found at
/// five positions drawn on the map.
pub open spec fn spec_candidates(ai: AIPlayer, w: World, e: Economy, c: Seq<AITarget>) -> bool {
    let r = spec_route_targets(ai.strategy, e, w);
    let x = spec_expand_targets(ai.player.routes@);
    let nv = if ai.player.money >= 200000 { spec_option_count(ai.strategy) } else { 0 };
    let base = r.len() + x.len() + nv;
    &&& base <= c.len() <= base + 5
    &&& c.take(r.len() as int) == r
    &&& c.subrange(r.len() as int, (r.len() + x.len()) as int) == x
    &&& forall|k: int| 0 <= k < nv ==> spec_is_vehicle_target(#[trigger] c[r.len() + x.len() + k], ai.strategy, k)
    &&& forall|k: int| base <= k < c.len() ==> spec_is_station_target(w, #[trigger] c[k])
    &&& exists|draws: Seq<(usize, usize)>| draws.len() == 5 && #[trigger] draws_on_map(w, draws)
        && c.subrange(base as int, c.len() as int) == spec_found_stations(w, draws)
}

/// `new` is `old` after a decision: the targets are drawn up (`spec_candidates`) and
/// sorted by priority, and the best affordable one (`spec_best_index`) is carried out.
pub open spec fn spec_decided(old: AIPlayer, new: AIPlayer, w: World, e: Economy) -> bool {
    &&& new.difficulty == old.difficulty
    &&& new.strategy == old.strategy
    &&& exists|c: Seq<AITarget>| #[trigger] spec_candidates(old, w, e, c) && new.targets@ == spec_sorted_by_priority(c) && {
        let ts = spec_sorted_by_priority(c);
        match spec_best_index(ts, old.player.money, old.strategy) {
            None => new.player == old.player && new.last_action == old.last_action,
            Some(b) => {
                &&& spec_executed(old.player, new.player, ts[b])
                &&& new.last_action == spec_last_action_after(old.player, old.last_action, ts[b])
            },
        }
    }
}

/// Targets that are all route proposals.
pub open spec fn all_build_routes(ts: Seq<AITarget>) -> bool {
    forall|k: int| 0 <= k < ts.len() ==> (#[trigger] ts[k]).target_type is BuildRoute
}

proof fn lemma_cargo_targets_build_routes(s: AIStrategy, e: Economy, from: (usize, usize), to: (usize, usize), d: u64, cargos: Seq<CargoType>, min_profit: i64)
    ensures
        all_build_routes(spec_cargo_targets(s, e, from, to, d, cargos, min_profit)),
    decreases cargos.len(),
{
    if cargos.len() > 0 {
        lemma_cargo_targets_build_routes(s, e, from, to, d, cargos.drop_last(), min_profit);
    }
}

proof fn lemma_concat_build_routes(a: Seq<AITarget>, b: Seq<AITarget>)
    requires
        all_build_routes(a),
        all_build_routes(b),
    ensures
        all_build_routes(a + b),
{
    assert forall|k: int| 0 <= k < (a + b).len() implies (#[trigger] (a + b)[k]).target_type is BuildRoute by {
        if k < a.len() {
            assert((a + b)[k] == a[k]);
        } else {
            assert((a + b)[k] == b[k - a.len()]);
        }
    }
}

proof fn lemma_pair_targets_build_routes(s: AIStrategy, e: Economy, from: (usize, usize), to: (usize, usize), lo: u64, hi: u64, cargos: Seq<CargoType>, min_profit: i64)
    ensures
        all_build_routes(spec_pair_targets(s, e, from, to, lo, hi, cargos, min_profit)),
{
    let d = spec_distance_milli(from, to);
    if lo < d && d < hi {
        lemma_cargo_targets_build_routes(s, e, from, to, d as u64, cargos, min_profit);
    }
}

proof fn lemma_town_targets_build_routes(s: AIStrategy, e: Economy, towns: Seq<(usize, usize)>, i: int, j: int)
    ensures
        all_build_routes(spec_town_row(s, e, towns, i, j)),
        all_build_routes(spec_town_targets(s, e, towns, i)),
    decreases i, j - i,
{
    if j > i + 1 {
        lemma_town_targets_build_routes(s, e, towns, i, j - 1);
        lemma_pair_targets_build_routes(s, e, towns[i], towns[j - 1], 5000, 50000, spec_town_cargos(), 50000);
        lemma_concat_build_routes(spec_town_row(s, e, towns, i, j - 1),
            spec_pair_targets(s, e, towns[i], towns[j - 1], 5000, 50000, spec_town_cargos(), 50000));
    }
    if i > 0 {
        lemma_town_targets_build_routes(s, e, towns, i - 1, towns.len() as int);
        lemma_concat_build_routes(spec_town_targets(s, e, towns, i - 1), spec_town_row(s, e, towns, i - 1, towns.len() as int));
    }
}

proof fn lemma_industry_targets_build_routes(s: AIStrategy, e: Economy, industries: Seq<(usize, usize)>, towns: Seq<(usize, usize)>, i: int, j: int)
    ensures
        all_build_routes(spec_industry_row(s, e, industries, towns, i, j)),
        all_build_routes(spec_industry_targets(s, e, industries, towns, i)),
    decreases i, j,
{
    if j > 0 {
        lemma_industry_targets_build_routes(s, e, industries, towns, i, j - 1);
        lemma_pair_targets_build_routes(s, e, industries[i], towns[j - 1], 3000, 40000, spec_industry_cargos(), 30000);
        lemma_concat_build_routes(spec_industry_row(s, e, industries, towns, i, j - 1),
            spec_pair_targets(s, e, industries[i], towns[j - 1], 3000, 40000, spec_industry_cargos(), 30000));
    }
    if i > 0 {
        lemma_industry_targets_build_routes(s, e, industries, towns, i - 1, towns.len() as int);
        lemma_concat_build_routes(spec_industry_targets(s, e, industries, towns, i - 1),
            spec_industry_row(s, e, industries, towns, i - 1, towns.len() as int));
    }
}

proof fn lemma_expand_targets_sound(p: Player, rs: Seq<Route>)
    requires
        rs.len() <= p.routes@.len(),
        rs == p.routes@.take(rs.len() as int),
    ensures
        forall|k: int| 0 <= k < spec_expand_targets(rs).len() ==> {
            &&& (#[trigger] spec_expand_targets(rs)[k]).target_type is ExpandExistingRoute
            &&& routes_ready(p.routes@) ==> spec_target_sound(p, spec_expand_targets(rs)[k])
        },
    decreases rs.len(),
{
    if rs.len() > 0 {
        let rest = rs.drop_last();
        assert(rest == p.routes@.take(rest.len() as int));
        lemma_expand_targets_sound(p, rest);
        let i = rs.len() - 1;
        assert(rs.last() == p.routes@[i]);
    }
}

/// Every candidate target but a route to expand can be carried out without failing, and
/// so can those when the routes are ready.
proof fn lemma_candidates_sound(ai: AIPlayer, w: World, e: Economy, c: Seq<AITarget>)
    requires
        spec_candidates(ai, w, e, c),
    ensures
        forall|k: int| 0 <= k < c.len() && (!((#[trigger] c[k]).target_type is ExpandExistingRoute) || routes_ready(ai.player.routes@))
            ==> spec_target_sound(ai.player, c[k]),
{
    let r = spec_route_targets(ai.strategy, e, w);
    let x = spec_expand_targets(ai.player.routes@);
    let nv = if ai.player.money >= 200000 { spec_option_count(ai.strategy) } else { 0 };
    lemma_town_targets_build_routes(ai.strategy, e, w.towns@, w.towns@.len() as int, w.towns@.len() as int);
    lemma_industry_targets_build_routes(ai.strategy, e, w.industries@, w.towns@, w.industries@.len() as int, w.towns@.len() as int);
    lemma_concat_build_routes(spec_town_targets(ai.strategy, e, w.towns@, w.towns@.len() as int),
        spec_industry_targets(ai.strategy, e, w.industries@, w.towns@, w.industries@.len() as int));
    assert(ai.player.routes@.take(ai.player.routes@.len() as int) =~= ai.player.routes@);
    lemma_expand_targets_sound(ai.player, ai.player.routes@);
    assert forall|k: int| 0 <= k < c.len() && (!((#[trigger] c[k]).target_type is ExpandExistingRoute) || routes_ready(ai.player.routes@))
        implies spec_target_sound(ai.player, c[k]) by {
        if k < r.len() {
            assert(c.take(r.len() as int)[k] == c[k]);
            assert(r[k].target_type is BuildRoute);
        } else if k < r.len() + x.len() {
            assert(c.subrange(r.len() as int, (r.len() + x.len()) as int)[k - r.len()] == c[k]);
            assert(x[k - r.len()].target_type is ExpandExistingRoute);
        } else if k < r.len() + x.len() + nv {
            let j = k - r.len() - x.len();
            assert(spec_is_vehicle_target(c[r.len() + x.len() + j], ai.strategy, j));
            match c[k].target_type {
                AITargetType::BuyVehicle { vehicle_type } => {
                    assert(spec_is_purchase_option(ai.strategy, j, vehicle_type));
                    match ai.strategy {
                        AIStrategy::Aggressive => {
                            assert(crate::vehicle::spec_cars_cost(vehicle_type->cars@) == 80000) by {
                                reveal_with_fuel(crate::vehicle::spec_cars_cost, 3);
                            }
                        },
                        AIStrategy::Balanced => {
                            if j == 0 {
                                assert(crate::vehicle::spec_cars_cost(vehicle_type->cars@) == 50000) by {
                                    reveal_with_fuel(crate::vehicle::spec_cars_cost, 2);
                                }
                            }
                        },
                        _ => {},
                    }
                },
                _ => {},
            }
        } else {
            assert(spec_is_station_target(w, c[k]));
        }
    }
}

/// Sorting keeps every target, so properties of all targets carry over.
proof fn lemma_sorted_members(c: Seq<AITarget>, k: int)
    requires
        0 <= k < spec_sorted_by_priority(c).len(),
    ensures
        exists|j: int| 0 <= j < c.len() && c[j] == #[trigger] spec_sorted_by_priority(c)[k],
{
    lemma_sorted_by_priority(c);
    let t = spec_sorted_by_priority(c)[k];
    spec_sorted_by_priority(c).to_multiset_ensures();
    c.to_multiset_ensures();
    assert(spec_sorted_by_priority(c).contains(t));
    assert(c.to_multiset().count(t) > 0);
    assert(c.contains(t));
}

proof fn lemma_same_vehicle_type_trans(a: VehicleType, b: VehicleType, c: VehicleType)
    requires
        same_vehicle_type(a, b),
        same_vehicle_type(b, c),
    ensures
        same_vehicle_type(a, c),
{
}

/// Carrying out a copy of a target is carrying out the target.
proof fn lemma_executed_same(old: Player, new: Player, t: AITarget, u: AITarget)
    requires
        same_target(t, u),
        spec_executed(old, new, t),
    ensures
        spec_executed(old, new, u),
        spec_target_sound(old, t) == spec_target_sound(old, u),
        spec_last_action_after(old, 0, t) == spec_last_action_after(old, 0, u),
        forall|la: u32| spec_last_action_after(old, la, t) == spec_last_action_after(old, la, u),
{
    match (t.target_type, u.target_type) {
        (AITargetType::BuyVehicle { vehicle_type: a }, AITargetType::BuyVehicle { vehicle_type: b }) => {
            lemma_same_vehicle_type_trans(new.vehicles@.last().vehicle_type, a, b);
            crate::vehicle::lemma_same_vehicle_type(a, b);
        },
        _ => {},
    }
}

/// A copy of a sound target is sound.
proof fn lemma_executed_same_sound(p: Player, t: AITarget, u: AITarget)
    requires
        same_target(u, t),
        spec_target_sound(p, t),
    ensures
        spec_target_sound(p, u),
{
    match (t.target_type, u.target_type) {
        (AITargetType::BuyVehicle { vehicle_type: a }, AITargetType::BuyVehicle { vehicle_type: b }) => {
            crate::vehicle::lemma_same_vehicle_type(b, a);
        },
        _ => {},
    }
}

/// A tick of the computer company on `world` can start: the company can take its tick,
/// the timer can advance, and when a decision is due the map can be searched.
pub open spec fn spec_ai_can_start(ai: AIPlayer, world: World) -> bool {
    &&& ai.player.can_update(&world)
    &&& ai.decision_timer < u32::MAX
    &&& ai.decision_timer + 1 >= spec_decision_frequency(ai.difficulty) ==> {
        &&& world_searchable(world)
        &&& world.width > 0
        &&& world.height > 0
    }
}

/// A decision on `w` and `e` cannot fail, whatever stations it finds: the routes worth
/// a further vehicle have their first stop, and the best target of every list of
/// candidates it can draw up can be carried out.
pub open spec fn spec_decision_can_run(ai: AIPlayer, w: World, e: Economy) -> bool {
    &&& routes_expandable(ai.player.routes@)
    &&& forall|c: Seq<AITarget>| #[trigger] spec_candidates(ai, w, e, c) ==> {
        let ts = spec_sorted_by_priority(c);
        spec_best_index(ts, ai.player.money, ai.strategy) matches Some(b) ==> spec_target_sound(ai.player, ts[b])
    }
}

/// `new` is `old` after a decision that stopped at its best target: the targets were
/// drawn up (`spec_candidates`) and sorted, and the best affordable one is a route to
/// expand whose first stop or cargo is missing; nothing else changed.
pub open spec fn spec_decision_stopped(old: AIPlayer, new: AIPlayer, w: World, e: Economy) -> bool {
    &&& routes_expandable(old.player.routes@)
    &&& new == (AIPlayer { targets: new.targets, ..old })
    &&& exists|c: Seq<AITarget>| #[trigger] spec_candidates(old, w, e, c) && new.targets@ == spec_sorted_by_priority(c) && {
        let ts = spec_sorted_by_priority(c);
        spec_best_index(ts, old.player.money, old.strategy) matches Some(b) && !spec_target_sound(old.player, ts[b])
    }
}

/// A tick of `AIPlayer::update` on `world` and `economy` cannot fail: it can start, and
/// when a decision is due, the decision can run (`spec_decision_can_run`) whatever the
/// company's own tick left (the tick books each route's income, which the vehicles'
/// outcomes decide).
pub open spec fn spec_ai_can_update(ai: AIPlayer, world: World, economy: Economy) -> bool {
    &&& spec_ai_can_start(ai, world)
    &&& ai.decision_timer + 1 >= spec_decision_frequency(ai.difficulty) ==>
        forall|p: Player| #[trigger] spec_ticked(ai.player, p, world) ==>
            spec_decision_can_run(AIPlayer { player: p, decision_timer: (ai.decision_timer + 1) as u32, ..ai }, world, economy)
}

/// `new` is `old` after a tick that stopped in its decision: the company took its tick
/// and the timer advanced, a decision was due, and either a route worth a further vehicle
/// lacked its first stop, or the decision stopped at its best target
/// (`spec_decision_stopped`).
pub open spec fn spec_ai_halted(old: AIPlayer, new: AIPlayer, world: World, economy: Economy) -> bool {
    &&& old.decision_timer + 1 >= spec_decision_frequency(old.difficulty)
    &&& exists|p: Player| #[trigger] spec_ticked(old.player, p, world) && {
        let ticked = AIPlayer { player: p, decision_timer: (old.decision_timer + 1) as u32, ..old };
        ||| !routes_expandable(p.routes@) && new == ticked
        ||| spec_decision_stopped(ticked, new, world, economy)
    }
}

/// `new` is `old` after a tick: the company takes its tick (`spec_ticked`) and the timer
/// advances; when it reaches the difficulty's frequency, a decision follows
/// (`spec_decided`) and the timer starts again from 0.
pub open spec fn spec_ai_updated(old: AIPlayer, new: AIPlayer, world: World, economy: Economy) -> bool {
    exists|p: Player| #[trigger] spec_ticked(old.player, p, world) && {
        let ticked = AIPlayer { player: p, decision_timer: (old.decision_timer + 1) as u32, ..old };
        if old.decision_timer + 1 >= spec_decision_frequency(old.difficulty) {
            &&& spec_decided(ticked, new, world, economy)
            &&& new.decision_timer == 0
        } else {
            new == ticked
        }
    }
}

/// Every route has a stop and a cargo.
pub open spec fn routes_complete(rs: Seq<Route>) -> bool {
    forall|i: int| 0 <= i < rs.len() ==> (#[trigger] rs[i]).stations@.len() > 0 && rs[i].cargo_types@.len() > 0
}

proof fn lemma_complete_ready(rs: Seq<Route>)
    requires
        routes_complete(rs),
    ensures
        routes_ready(rs),
{
    assert forall|i: int| 0 <= i < rs.len() && #[trigger] spec_worth_expanding(rs[i]) implies {
        &&& rs[i].stations@.len() > 0
        &&& route_index_of(rs, rs[i].id) matches Some(f) && rs[f].stations@.len() > 0 && rs[f].cargo_types@.len() > 0
    } by {
        let pr = |r: Route| r.id == rs[i].id;
        crate::seqs::lemma_first_index(rs, pr);
        assert(pr(rs[i]));
    }
}

proof fn lemma_assigned_complete(old: Player, new: Player, vid: u32, rid: u32)
    requires
        routes_complete(old.routes@),
        spec_assigned_or_kept(old, new, vid, rid),
    ensures
        routes_complete(new.routes@),
{
    if spec_can_assign(old, vid, rid) {
        let ri = route_index_of(old.routes@, rid)->Some_0;
        assert forall|i: int| 0 <= i < new.routes@.len() implies
            (#[trigger] new.routes@[i]).stations@.len() > 0 && new.routes@[i].cargo_types@.len() > 0 by {
            if i != ri {
                assert(new.routes@[i] == old.routes@[i]);
            } else {
                crate::seqs::lemma_first_index(old.routes@, |r: Route| r.id == rid);
                assert(new.routes@[ri].stations == old.routes@[ri].stations);
            }
        }
    }
}

proof fn lemma_executed_complete(old: Player, new: Player, t: AITarget)
    requires
        routes_complete(old.routes@),
        spec_executed(old, new, t),
    ensures
        routes_complete(new.routes@),
{
    match t.target_type {
        AITargetType::BuildRoute { from, to, cargo } => {
            let (p, q) = choose|p: Player, q: Player|
                spec_route_added(old, p, from, to, cargo) && #[trigger] spec_vehicle_added(p, q, spec_suitable_vehicle(cargo), from)
                    && spec_assigned_or_kept(q, new, old.vehicles@.len() as u32, old.routes@.len() as u32);
            assert forall|i: int| 0 <= i < p.routes@.len() implies
                (#[trigger] p.routes@[i]).stations@.len() > 0 && p.routes@[i].cargo_types@.len() > 0 by {
                if i < old.routes@.len() {
                    assert(p.routes@[i] == p.routes@.drop_last()[i]);
                }
            }
            assert(q.routes == p.routes);
            lemma_assigned_complete(q, new, old.vehicles@.len() as u32, old.routes@.len() as u32);
        },
        AITargetType::ExpandExistingRoute { route_id } => {
            if let Some(ri) = route_index_of(old.routes@, route_id) {
                let q = choose|q: Player|
                    #[trigger] spec_vehicle_added(old, q, spec_suitable_vehicle(old.routes@[ri].cargo_types@[0]), old.routes@[ri].stations@[0])
                        && spec_assigned_or_kept(q, new, old.vehicles@.len() as u32, route_id);
                assert(q.routes == old.routes);
                lemma_assigned_complete(q, new, old.vehicles@.len() as u32, route_id);
            }
        },
        _ => {},
    }
}

/// An AI company's routes always keep a stop and a cargo: a tick, with the decision it may
/// bring, keeps that so, and so the routes stay ready for the next decision. A company
/// starts without routes, so this holds from its first tick on.
pub proof fn lemma_ai_routes_stay_complete(old: AIPlayer, new: AIPlayer, world: World, economy: Economy)
    requires
        routes_complete(old.player.routes@),
        spec_ai_updated(old, new, world, economy),
    ensures
        routes_complete(new.player.routes@),
        routes_ready(new.player.routes@),
{
    let p = choose|p: Player| #[trigger] spec_ticked(old.player, p, world) && {
        let ticked = AIPlayer { player: p, decision_timer: (old.decision_timer + 1) as u32, ..old };
        if old.decision_timer + 1 >= spec_decision_frequency(old.difficulty) {
            &&& spec_decided(ticked, new, world, economy)
            &&& new.decision_timer == 0
        } else {
            new == ticked
        }
    };
    assert forall|i: int| 0 <= i < p.routes@.len() implies
        (#[trigger] p.routes@[i]).stations@.len() > 0 && p.routes@[i].cargo_types@.len() > 0 by {
        assert(p.routes@[i].stations == old.player.routes@[i].stations);
    }
    let ticked = AIPlayer { player: p, decision_timer: (old.decision_timer + 1) as u32, ..old };
    if old.decision_timer + 1 >= spec_decision_frequency(old.difficulty) {
        let c = choose|c: Seq<AITarget>| #[trigger] spec_candidates(ticked, world, economy, c)
            && new.targets@ == spec_sorted_by_priority(c) && {
            let ts = spec_sorted_by_priority(c);
            match spec_best_index(ts, ticked.player.money, ticked.strategy) {
                None => new.player == ticked.player && new.last_action == ticked.last_action,
                Some(b) => {
                    &&& spec_executed(ticked.player, new.player, ts[b])
                    &&& new.last_action == spec_last_action_after(ticked.player, ticked.last_action, ts[b])
                },
            }
        };
        let ts = spec_sorted_by_priority(c);
        if let Some(b) = spec_best_index(ts, ticked.player.money, ticked.strategy) {
            lemma_executed_complete(p, new.player, ts[b]);
        }
    }
    lemma_complete_ready(new.player.routes@);
}

/// A computer company whose routes all have a stop and a cargo (as its own routes keep,
/// `lemma_ai_routes_stay_complete`) never stops in its decision: wherever its tick can
/// start, it runs to its end.
pub proof fn lemma_complete_routes_can_update(ai: AIPlayer, world: World, economy: Economy)
    requires
        routes_complete(ai.player.routes@),
        spec_ai_can_start(ai, world),
    ensures
        spec_ai_can_update(ai, world, economy),
{
    assert forall|p: Player| #[trigger] spec_ticked(ai.player, p, world) implies
        spec_decision_can_run(AIPlayer { player: p, decision_timer: (ai.decision_timer + 1) as u32, ..ai }, world, economy) by {
        let ticked = AIPlayer { player: p, decision_timer: (ai.decision_timer + 1) as u32, ..ai };
        assert forall|i: int| 0 <= i < p.routes@.len() implies
            (#[trigger] p.routes@[i]).stations@.len() > 0 && p.routes@[i].cargo_types@.len() > 0 by {
            assert(p.routes@[i].stations == ai.player.routes@[i].stations);
        }
        lemma_complete_ready(p.routes@);
        assert forall|c: Seq<AITarget>| #[trigger] spec_candidates(ticked, world, economy, c) implies {
            let ts = spec_sorted_by_priority(c);
            spec_best_index(ts, p.money, ticked.strategy) matches Some(b) ==> spec_target_sound(p, ts[b])
        } by {
            let ts = spec_sorted_by_priority(c);
            lemma_candidates_sound(ticked, world, economy, c);
            lemma_sorted_by_priority(c);
            lemma_best_index(ts, p.money, ticked.strategy);
            if let Some(b) = spec_best_index(ts, p.money, ticked.strategy) {
                lemma_sorted_members(c, b);
                let j = choose|j: int| 0 <= j < c.len() && c[j] == #[trigger] spec_sorted_by_priority(c)[b];
                assert(spec_target_sound(p, c[j]));
            }
        }
    }
}

/// Decisions come on schedule: a tick moves the timer on by one, and when it reaches the
/// difficulty's frequency the company decides and the timer starts again from 0; a timer
/// below the frequency becomes the next count modulo the frequency, so a company whose
/// timer starts at 0 decides on exactly every 100th, 200th or 300th tick. Between
/// decisions its plans and last action stay as they were.
pub proof fn lemma_ai_decision_schedule(old: AIPlayer, new: AIPlayer, world: World, economy: Economy)
    requires
        spec_ai_updated(old, new, world, economy),
    ensures
        new.difficulty == old.difficulty,
        new.strategy == old.strategy,
        old.decision_timer + 1 >= spec_decision_frequency(old.difficulty) ==> new.decision_timer == 0,
        old.decision_timer + 1 < spec_decision_frequency(old.difficulty) ==> {
            &&& new.decision_timer == old.decision_timer + 1
            &&& new.targets == old.targets
            &&& new.last_action == old.last_action
        },
        old.decision_timer < spec_decision_frequency(old.difficulty) ==>
            new.decision_timer == (old.decision_timer + 1) % (spec_decision_frequency(old.difficulty) as int),
{
    let p = choose|p: Player| #[trigger] spec_ticked(old.player, p, world) && {
        let ticked = AIPlayer { player: p, decision_timer: (old.decision_timer + 1) as u32, ..old };
        if old.decision_timer + 1 >= spec_decision_frequency(old.difficulty) {
            &&& spec_decided(ticked, new, world, economy)
            &&& new.decision_timer == 0
        } else {
            new == ticked
        }
    };
}

impl AIPlayer {
    /// A computer company with the money its difficulty gives and no plans.
    pub fn new(name: String, difficulty: AIDifficulty, strategy: AIStrategy) -> (ai: AIPlayer)
        ensures
            ai.player.name == name,
            ai.player.money == spec_starting_money(difficulty),
            ai.player.vehicles@.len() == 0,
            ai.player.stations@.len() == 0,
            ai.player.routes@.len() == 0,
            ai.player.reputation == 50,
            ai.player.game_time == 0,
            ai.difficulty == difficulty,
            ai.strategy == strategy,
            ai.decision_timer == 0,
            ai.last_action == 0,
            ai.targets@.len() == 0,
    {
        let starting_money: i64 = match difficulty {
            AIDifficulty::Easy => 500000,
            AIDifficulty::Medium => 800000,
            AIDifficulty::Hard => 1200000,
        };
        AIPlayer {
            player: Player::new(name, starting_money),
            difficulty,
            strategy,
            decision_timer: 0,
            last_action: 0,
            targets: Vec::new(),
        }
    }

    /// Distance between two places in thousandths of a tile.
    fn calculate_distance(&self, from: (usize, usize), to: (usize, usize)) -> (r: u64)
        ensures
            r == spec_distance_milli(from, to),
    {
        distance_milli(from, to)
    }

    /// A year's income from carrying `cargo_type` over `distance_milli` thousandths of a tile.
    fn estimate_route_profit(&self, cargo_type: &CargoType, distance_milli: u64, economy: &Economy) -> (r: i64)
        ensures
            r == spec_estimated_route_profit(*economy, *cargo_type, distance_milli),
    {
        let price = economy.get_cargo_price(cargo_type, distance_milli);
        let monthly: u128 = match cargo_type {
            CargoType::Passengers => 200,
            CargoType::Mail => 100,
            _ => 150,
        };
        let p = (price as u128) * monthly * 12 / 1000;
        if p > 0x7FFF_FFFF_FFFF_FFFF { i64::MAX } else { p as i64 }
    }

    /// Priority of a route target worth `estimated_profit` carrying `cargo_type`.
    fn calculate_target_priority(&self, estimated_profit: i64, cargo_type: &CargoType) -> (r: u32)
        requires
            estimated_profit >= 0,
        ensures
            r == spec_target_priority(estimated_profit, spec_strategy_modifier(self.strategy, *cargo_type)),
    {
        let thousands: u64 = (estimated_profit as u64) / 1000;
        let low: u64 = thousands % 0x1_0000_0000;
        let base: i32 = if low > 0x7FFF_FFFF { (low as i64 - 0x1_0000_0000) as i32 } else { low as i32 };
        let modifier: i32 = match self.strategy {
            AIStrategy::Specialist { focus } => if focus == *cargo_type { 50 } else { 0 },
            AIStrategy::Aggressive => 20,
            AIStrategy::Conservative => -10,
            AIStrategy::Balanced => 0,
        };
        let s = base.wrapping_add(modifier);
        if s < 0 { 0 } else { s as u32 }
    }

    /// The route targets for each of `cargo_types` in turn, over `distance_milli`.
    fn cargo_targets(
        &self,
        economy: &Economy,
        from: (usize, usize),
        to: (usize, usize),
        distance_milli: u64,
        cargo_types: &Vec<CargoType>,
        min_profit: i64,
    ) -> (r: Vec<AITarget>)
        requires
            min_profit >= 0,
        ensures
            r@ == spec_cargo_targets(self.strategy, *economy, from, to, distance_milli, cargo_types@, min_profit),
    {
        let mut found: Vec<AITarget> = Vec::new();
        let mut k: usize = 0;
        while k < cargo_types.len()
            invariant
                0 <= k <= cargo_types@.len(),
                min_profit >= 0,
                found@ == spec_cargo_targets(self.strategy, *economy, from, to, distance_milli, cargo_types@.take(k as int), min_profit),
            decreases cargo_types@.len() - k,
        {
            let cargo_type = cargo_types[k];
            assert(cargo_types@.take(k + 1).drop_last() =~= cargo_types@.take(k as int));
            let estimated_profit = self.estimate_route_profit(&cargo_type, distance_milli, economy);
            if estimated_profit > min_profit {
                let priority = self.calculate_target_priority(estimated_profit, &cargo_type);
                found.push(AITarget {
                    target_type: AITargetType::BuildRoute { from, to, cargo: cargo_type },
                    priority,
                    estimated_profit,
                    location: from,
                });
            }
            k = k + 1;
        }
        assert(cargo_types@.take(cargo_types@.len() as int) =~= cargo_types@);
        found
    }

    /// The route targets between two places whose distance lies strictly between `lo`
    /// and `hi` thousandths of a tile.
    fn pair_targets(
        &self,
        economy: &Economy,
        from: (usize, usize),
        to: (usize, usize),
        lo: u64,
        hi: u64,
        cargo_types: &Vec<CargoType>,
        min_profit: i64,
    ) -> (r: Vec<AITarget>)
        requires
            min_profit >= 0,
        ensures
            r@ == spec_pair_targets(self.strategy, *economy, from, to, lo, hi, cargo_types@, min_profit),
    {
        let distance = self.calculate_distance(from, to);
        if lo < distance && distance < hi {
            self.cargo_targets(economy, from, to, distance, cargo_types, min_profit)
        } else {
            Vec::new()
        }
    }

    /// Appends a target for every profitable new route: between each pair of towns
    /// 5 to 50 tiles apart (passengers and mail worth more than 50000), then from each
    /// industry to each town 3 to 40 tiles away (goods, coal and steel worth more than
    /// 30000).
    fn find_profitable_routes(&mut self, world: &World, economy: &Economy)
        ensures
            final(self).targets@ == old(self).targets@ + spec_route_targets(old(self).strategy, *economy, *world),
            final(self).player == old(self).player,
            final(self).difficulty == old(self).difficulty,
            final(self).strategy == old(self).strategy,
            final(self).decision_timer == old(self).decision_timer,
            final(self).last_action == old(self).last_action,
    {
        let ghost s = self.strategy;
        let ghost start = self.targets@;
        let ghost towns = world.towns@;
        let ghost industries = world.industries@;
        let town_cargos: Vec<CargoType> = vec![CargoType::Passengers, CargoType::Mail];
        let industry_cargos: Vec<CargoType> = vec![CargoType::Goods, CargoType::Coal, CargoType::Steel];
        assert(town_cargos@ =~= spec_town_cargos());
        assert(industry_cargos@ =~= spec_industry_cargos());
        let n = world.towns.len();
        let mut i: usize = 0;
        while i < n
            invariant
                0 <= i <= n,
                n == towns.len(),
                towns == world.towns@,
                s == self.strategy,
                town_cargos@ == spec_town_cargos(),
                self.targets@ == start + spec_town_targets(s, *economy, towns, i as int),
                self.player == old(self).player,
                self.difficulty == old(self).difficulty,
                self.strategy == old(self).strategy,
                self.decision_timer == old(self).decision_timer,
                self.last_action == old(self).last_action,
            decreases n - i,
        {
            let ghost before_row = self.targets@;
            let mut j: usize = i + 1;
            while j < n
                invariant
                    i < n,
                    i + 1 <= j <= n,
                    n == towns.len(),
                    towns == world.towns@,
                    s == self.strategy,
                    town_cargos@ == spec_town_cargos(),
                    before_row == start + spec_town_targets(s, *economy, towns, i as int),
                    self.targets@ == before_row + spec_town_row(s, *economy, towns, i as int, j as int),
                    self.player == old(self).player,
                    self.difficulty == old(self).difficulty,
                    self.strategy == old(self).strategy,
                    self.decision_timer == old(self).decision_timer,
                    self.last_action == old(self).last_action,
                decreases n - j,
            {
                let from = world.towns[i];
                let to = world.towns[j];
                let mut found = self.pair_targets(economy, from, to, 5000, 50000, &town_cargos, 50000);
                let ghost row = self.targets@;
                self.targets.append(&mut found);
                j = j + 1;
                proof {
                    assert(spec_town_row(s, *economy, towns, i as int, j as int) == spec_town_row(s, *economy, towns, i as int, j - 1)
                        + spec_pair_targets(s, *economy, towns[i as int], towns[j - 1], 5000, 50000, spec_town_cargos(), 50000));
                    assert(self.targets@ =~= before_row + spec_town_row(s, *economy, towns, i as int, j as int));
                }
            }
            i = i + 1;
            proof {
                assert(spec_town_targets(s, *economy, towns, i as int) == spec_town_targets(s, *economy, towns, i - 1)
                    + spec_town_row(s, *economy, towns, i - 1, towns.len() as int));
                assert(self.targets@ =~= start + spec_town_targets(s, *economy, towns, i as int));
            }
        }
        let ghost after_towns = self.targets@;
        let m = world.industries.len();
        let mut i: usize = 0;
        while i < m
            invariant
                0 <= i <= m,
                n == towns.len(),
                m == industries.len(),
                towns == world.towns@,
                industries == world.industries@,
                s == self.strategy,
                industry_cargos@ == spec_industry_cargos(),
                after_towns == start + spec_town_targets(s, *economy, towns, n as int),
                self.targets@ == after_towns + spec_industry_targets(s, *economy, industries, towns, i as int),
                self.player == old(self).player,
                self.difficulty == old(self).difficulty,
                self.strategy == old(self).strategy,
                self.decision_timer == old(self).decision_timer,
                self.last_action == old(self).last_action,
            decreases m - i,
        {
            let ghost before_row = self.targets@;
            let mut j: usize = 0;
            while j < n
                invariant
                    i < m,
                    0 <= j <= n,
                    n == towns.len(),
                    m == industries.len(),
                    towns == world.towns@,
                    industries == world.industries@,
                    s == self.strategy,
                    industry_cargos@ == spec_industry_cargos(),
                    before_row == after_towns + spec_industry_targets(s, *economy, industries, towns, i as int),
                    self.targets@ == before_row + spec_industry_row(s, *economy, industries, towns, i as int, j as int),
                    self.player == old(self).player,
                    self.difficulty == old(self).difficulty,
                    self.strategy == old(self).strategy,
                    self.decision_timer == old(self).decision_timer,
                    self.last_action == old(self).last_action,
                decreases n - j,
            {
                let from = world.industries[i];
                let to = world.towns[j];
                let mut found = self.pair_targets(economy, from, to, 3000, 40000, &industry_cargos, 30000);
                self.targets.append(&mut found);
                j = j + 1;
                proof {
                    assert(self.targets@ =~= before_row + spec_industry_row(s, *economy, industries, towns, i as int, j as int));
                }
            }
            i = i + 1;
            proof {
                assert(self.targets@ =~= after_towns + spec_industry_targets(s, *economy, industries, towns, i as int));
            }
        }
        assert(self.targets@ =~= start + spec_route_targets(s, *economy, *world));
    }
    /// Appends a target for each route that made more than 100000 and runs fewer than
    /// three vehicles: add a vehicle, worth twice the route's profit (see
    /// `spec_expand_target`).
    fn analyze_existing_routes(&mut self, _economy: &Economy)
        requires
            routes_expandable(old(self).player.routes@),
        ensures
            final(self).targets@ == old(self).targets@ + spec_expand_targets(old(self).player.routes@),
            final(self).player == old(self).player,
            final(self).difficulty == old(self).difficulty,
            final(self).strategy == old(self).strategy,
            final(self).decision_timer == old(self).decision_timer,
            final(self).last_action == old(self).last_action,
    {
        let ghost start = self.targets@;
        let ghost routes = self.player.routes@;
        let mut i: usize = 0;
        assert(routes.take(0) =~= Seq::<Route>::empty());
        while i < self.player.routes.len()
            invariant
                0 <= i <= routes.len(),
                routes == self.player.routes@,
                routes_expandable(routes),
                self.targets@ == start + spec_expand_targets(routes.take(i as int)),
                self.player == old(self).player,
                self.difficulty == old(self).difficulty,
                self.strategy == old(self).strategy,
                self.decision_timer == old(self).decision_timer,
                self.last_action == old(self).last_action,
            decreases routes.len() - i,
        {
            let route = &self.player.routes[i];
            assert(routes.take(i + 1).drop_last() =~= routes.take(i as int));
            if route.profit > 100000 && route.vehicle_ids.len() < 3 {
                assert(spec_worth_expanding(routes[i as int]));
                let estimated_profit: i64 = if route.profit <= i64::MAX / 2 {
                    route.profit * 2
                } else {
                    (route.profit as i128 * 2 - 0x1_0000_0000_0000_0000) as i64
                };
                let priority: u32 = if estimated_profit >= 0 {
                    ((estimated_profit as u64 / 10000) % 0x1_0000_0000) as u32
                } else {
                    let magnitude = (-(estimated_profit as i128)) as u64 / 10000;
                    let low = magnitude % 0x1_0000_0000;
                    if low == 0 { 0 } else { (0x1_0000_0000 - low) as u32 }
                };
                let target = AITarget {
                    target_type: AITargetType::ExpandExistingRoute { route_id: route.id },
                    priority,
                    estimated_profit,
                    location: route.stations[0],
                };
                self.targets.push(target);
            }
            i = i + 1;
            assert(self.targets@ =~= start + spec_expand_targets(routes.take(i as int)));
        }
        assert(routes.take(routes.len() as int) =~= routes);
    }

    /// A year's income of a vehicle of the given type (see `spec_vehicle_profit`).
    fn estimate_vehicle_profit(&self, vehicle_type: &VehicleType, _economy: &Economy) -> (r: i64)
        requires
            spec_estimated_capacity(*vehicle_type) <= u32::MAX,
        ensures
            r == spec_vehicle_profit(*vehicle_type),
            r >= 0,
    {
        let capacity: u32 = match vehicle_type {
            VehicleType::Train { cars, .. } => {
                proof {
                    lemma_cars_capacity_nonneg(cars@);
                }
                Vehicle::cars_capacity(cars)
            },
            VehicleType::Road { truck_type } => match truck_type {
                TruckType::SmallTruck { capacity } => *capacity,
                TruckType::LargeTruck { capacity } => *capacity,
                TruckType::Bus { capacity } => *capacity,
            },
            _ => 50,
        };
        capacity as i64 * 3650
    }

    /// Appends the target of buying a vehicle of the given type.
    fn consider_vehicle(&mut self, vehicle_type: VehicleType, economy: &Economy)
        requires
            spec_estimated_capacity(vehicle_type) <= u32::MAX,
            0 < spec_purchase_cost(vehicle_type) <= i64::MAX,
            spec_vehicle_profit(vehicle_type) / spec_purchase_cost(vehicle_type) * 100 <= u32::MAX,
        ensures
            final(self).targets@.len() == old(self).targets@.len() + 1,
            final(self).targets@.drop_last() == old(self).targets@,
            final(self).targets@.last() == (AITarget {
                target_type: AITargetType::BuyVehicle { vehicle_type },
                priority: (spec_vehicle_profit(vehicle_type) / spec_purchase_cost(vehicle_type) * 100) as u32,
                estimated_profit: spec_vehicle_profit(vehicle_type) as i64,
                location: (0, 0),
            }),
            final(self).player == old(self).player,
            final(self).difficulty == old(self).difficulty,
            final(self).strategy == old(self).strategy,
            final(self).decision_timer == old(self).decision_timer,
            final(self).last_action == old(self).last_action,
    {
        let cost = Vehicle::get_purchase_cost(&vehicle_type);
        if self.player.can_afford(cost) {
            let estimated_profit = self.estimate_vehicle_profit(&vehicle_type, economy);
            assert(0 <= estimated_profit / cost <= estimated_profit) by (nonlinear_arith)
                requires
                    estimated_profit >= 0,
                    cost > 0,
            ;
            let priority = (estimated_profit / cost * 100) as u32;
            self.targets.push(AITarget {
                target_type: AITargetType::BuyVehicle { vehicle_type },
                priority,
                estimated_profit,
                location: (0, 0),
            });
            assert(self.targets@.drop_last() =~= old(self).targets@);
        }
    }

    /// With at least 200000 in hand, appends a target for each vehicle type the
    /// strategy considers buying (see `spec_is_purchase_option`).
    fn consider_vehicle_purchases(&mut self, _world: &World, economy: &Economy)
        ensures
            old(self).player.money < 200000 ==> final(self).targets@ == old(self).targets@,
            old(self).player.money >= 200000 ==> {
                &&& final(self).targets@.len() == old(self).targets@.len() + spec_option_count(old(self).strategy)
                &&& final(self).targets@.take(old(self).targets@.len() as int) == old(self).targets@
                &&& forall|k: int| 0 <= k < spec_option_count(old(self).strategy) ==>
                    spec_is_vehicle_target(#[trigger] final(self).targets@[old(self).targets@.len() + k], old(self).strategy, k)
            },
            final(self).player == old(self).player,
            final(self).difficulty == old(self).difficulty,
            final(self).strategy == old(self).strategy,
            final(self).decision_timer == old(self).decision_timer,
            final(self).last_action == old(self).last_action,
    {
        if self.player.money < 200000 {
            return;
        }
        let ghost n: int = self.targets@.len() as int;
        match self.strategy {
            AIStrategy::Aggressive => {
                let cars = vec![TrainCar::Passenger { capacity: 100 }, TrainCar::Freight { capacity: 80, cargo_type: None }];
                assert(spec_cars_capacity(cars@) == 180) by {
                    reveal_with_fuel(spec_cars_capacity, 3);
                }
                assert(crate::vehicle::spec_cars_cost(cars@) == 80000) by {
                    reveal_with_fuel(crate::vehicle::spec_cars_cost, 3);
                }
                assert(cars@ =~= seq![TrainCar::Passenger { capacity: 100 }, TrainCar::Freight { capacity: 80, cargo_type: None }]);
                self.consider_vehicle(VehicleType::Train { engine: TrainEngine::Diesel { power: 2000, reliability: 85 }, cars }, economy);
                assert(spec_is_vehicle_target(self.targets@[n + 0], old(self).strategy, 0));
            },
            AIStrategy::Conservative => {
                self.consider_vehicle(VehicleType::Road { truck_type: TruckType::Bus { capacity: 40 } }, economy);
                assert(spec_is_vehicle_target(self.targets@[n + 0], old(self).strategy, 0));
            },
            AIStrategy::Balanced => {
                let cars = vec![TrainCar::Passenger { capacity: 80 }];
                assert(spec_cars_capacity(cars@) == 80) by {
                    reveal_with_fuel(spec_cars_capacity, 2);
                }
                assert(crate::vehicle::spec_cars_cost(cars@) == 50000) by {
                    reveal_with_fuel(crate::vehicle::spec_cars_cost, 2);
                }
                assert(cars@ =~= seq![TrainCar::Passenger { capacity: 80 }]);
                self.consider_vehicle(VehicleType::Train { engine: TrainEngine::Steam { power: 1500, reliability: 80 }, cars }, economy);
                let ghost mid = self.targets@;
                assert(spec_is_vehicle_target(mid[n + 0], old(self).strategy, 0));
                self.consider_vehicle(VehicleType::Road { truck_type: TruckType::LargeTruck { capacity: 60 } }, economy);
                assert(self.targets@[n as int] == mid[n as int]);
                assert(spec_is_vehicle_target(self.targets@[n + 1], old(self).strategy, 1));
            },
            AIStrategy::Specialist { focus } => {
                match focus {
                    CargoType::Passengers => {
                        self.consider_vehicle(VehicleType::Road { truck_type: TruckType::Bus { capacity: 50 } }, economy);
                        assert(spec_is_vehicle_target(self.targets@[n + 0], old(self).strategy, 0));
                    },
                    _ => {
                        self.consider_vehicle(VehicleType::Road { truck_type: TruckType::LargeTruck { capacity: 80 } }, economy);
                        assert(spec_is_vehicle_target(self.targets@[n + 0], old(self).strategy, 0));
                    },
                }
            },
        }
        assert(self.targets@.take(n) =~= old(self).targets@);
    }

    /// The value of a station at `(x, y)` (see `spec_location_value`).
    fn calculate_location_value(&self, x: usize, y: usize, world: &World) -> (r: i64)
        requires
            x <= 0x7FFF_FFF0,
            y <= 0x7FFF_FFF0,
        ensures
            r == spec_location_value(*world, x as int, y as int),
    {
        let mut value: i64 = 0;
        let search_radius: i64 = 5;
        let xi = x as i64;
        let yi = y as i64;
        let mut dy: i64 = -search_radius;
        while dy < search_radius
            invariant
                -5 <= dy <= 5,
                search_radius == 5,
                xi == x,
                yi == y,
                x <= 0x7FFF_FFF0,
                y <= 0x7FFF_FFF0,
                value == spec_window_value(*world, x as int, y as int, dy + 5),
            decreases 5 - dy,
        {
            let mut row: i64 = 0;
            let mut dx: i64 = -search_radius;
            while dx < search_radius
                invariant
                    -5 <= dx <= 5,
                    -5 <= dy < 5,
                    search_radius == 5,
                    xi == x,
                    yi == y,
                    x <= 0x7FFF_FFF0,
                    y <= 0x7FFF_FFF0,
                    row == spec_row_value(*world, x as int, y + dy, dx + 5),
                decreases 5 - dx,
            {
                proof {
                    lemma_row_value_bounds(*world, x as int, y + dy, dx + 5);
                }
                let check_x = xi + dx;
                let check_y = yi + dy;
                if check_x >= 0 && check_y >= 0 && (check_x as usize) < world.width && (check_y as usize) < world.height {
                    if let Some(tile) = world.get_tile(check_x as usize, check_y as usize) {
                        match &tile.content {
                            TileContent::Town(town) => {
                                row = row + town.population as i64 * 10;
                            },
                            TileContent::Industry(_) => {
                                row = row + 25000;
                            },
                            _ => {},
                        }
                    }
                }
                dx = dx + 1;
            }
            proof {
                lemma_window_value_bounds(*world, x as int, y as int, dy + 5);
                lemma_row_value_bounds(*world, x as int, y + dy, 10);
            }
            value = value + row;
            dy = dy + 1;
        }
        value
    }

    /// The target of building a station at `(x, y)` (see `spec_station_target`).
    pub fn station_target_at(&self, x: usize, y: usize, world: &World) -> (r: Option<AITarget>)
        requires
            x <= 0x7FFF_FFF0,
            y <= 0x7FFF_FFF0,
        ensures
            r == spec_station_target(*world, x, y),
    {
        if let Some(tile) = world.get_tile(x, y) {
            if let TileContent::Empty = tile.content {
                let nearby_value = self.calculate_location_value(x, y, world);
                proof {
                    lemma_window_value_bounds(*world, x as int, y as int, 10);
                }
                if nearby_value > 50000 {
                    return Some(AITarget {
                        target_type: AITargetType::BuildStation { location: (x, y) },
                        priority: (nearby_value / 1000) as u32,
                        estimated_profit: nearby_value,
                        location: (x, y),
                    });
                }
            }
        }
        None
    }

    /// Looks at five random tiles and appends a station target for each one that
    /// `station_target_at` accepts.
    fn identify_station_locations(&mut self, world: &World, _economy: &Economy)
        requires
            world_searchable(*world),
            world.width > 0,
            world.height > 0,
        ensures
            old(self).targets@.len() <= final(self).targets@.len() <= old(self).targets@.len() + 5,
            final(self).targets@.take(old(self).targets@.len() as int) == old(self).targets@,
            forall|k: int| old(self).targets@.len() <= k < final(self).targets@.len() ==>
                spec_is_station_target(*world, #[trigger] final(self).targets@[k]),
            exists|draws: Seq<(usize, usize)>| draws.len() == 5 && #[trigger] draws_on_map(*world, draws)
                && final(self).targets@ == old(self).targets@ + spec_found_stations(*world, draws),
            final(self).player == old(self).player,
            final(self).difficulty == old(self).difficulty,
            final(self).strategy == old(self).strategy,
            final(self).decision_timer == old(self).decision_timer,
            final(self).last_action == old(self).last_action,
    {
        let ghost n = self.targets@.len();
        let ghost mut draws: Seq<(usize, usize)> = Seq::empty();
        let mut round: usize = 0;
        while round < 5
            invariant
                0 <= round <= 5,
                world_searchable(*world),
                world.width > 0,
                world.height > 0,
                n <= self.targets@.len() <= n + round,
                self.targets@.take(n as int) == old(self).targets@,
                forall|k: int| n <= k < self.targets@.len() ==> spec_is_station_target(*world, #[trigger] self.targets@[k]),
                self.player == old(self).player,
                self.difficulty == old(self).difficulty,
                self.strategy == old(self).strategy,
                self.decision_timer == old(self).decision_timer,
                self.last_action == old(self).last_action,
                n == old(self).targets@.len(),
                draws.len() == round,
                draws_on_map(*world, draws),
                self.targets@ == old(self).targets@ + spec_found_stations(*world, draws),
            decreases 5 - round,
        {
            let x = random_range(0, world.width);
            let y = random_range(0, world.height);
            let ghost before_draws = draws;
            proof {
                draws = draws.push((x, y));
                assert(draws.drop_last() =~= before_draws);
                assert forall|k: int| 0 <= k < draws.len() implies (#[trigger] draws[k]).0 < world.width && draws[k].1 < world.height by {
                    if k < before_draws.len() {
                        assert(draws[k] == before_draws[k]);
                    }
                }
            }
            if let Some(target) = self.station_target_at(x, y, world) {
                let ghost before = self.targets@;
                self.targets.push(target);
                assert(self.targets@.take(n as int) =~= before.take(n as int));
                assert forall|k: int| n <= k < self.targets@.len() implies spec_is_station_target(*world, #[trigger] self.targets@[k]) by {
                    if k < before.len() {
                        assert(self.targets@[k] == before[k]);
                    }
                }
                assert(self.targets@ =~= old(self).targets@ + spec_found_stations(*world, draws));
            } else {
                assert(spec_found_stations(*world, draws) == spec_found_stations(*world, before_draws));
            }
            round = round + 1;
        }
        assert(draws_on_map(*world, draws));
    }
    /// Orders the targets by decreasing priority, keeping the order of equal priorities.
    fn sort_targets(&mut self)
        ensures
            final(self).targets@ == spec_sorted_by_priority(old(self).targets@),
            final(self).player == old(self).player,
            final(self).difficulty == old(self).difficulty,
            final(self).strategy == old(self).strategy,
            final(self).decision_timer == old(self).decision_timer,
            final(self).last_action == old(self).last_action,
    {
        let mut pending: Vec<AITarget> = Vec::new();
        std::mem::swap(&mut pending, &mut self.targets);
        let ghost all = pending@;
        let mut sorted: Vec<AITarget> = Vec::new();
        let mut i: usize = 0;
        assert(all.take(0) =~= Seq::<AITarget>::empty());
        assert(all.len() == pending.len());
        while pending.len() > 0
            invariant
                0 <= i <= all.len(),
                all.len() <= usize::MAX,
                pending@ == all.subrange(i as int, all.len() as int),
                sorted@ == spec_sorted_by_priority(all.take(i as int)),
                self.player == old(self).player,
                self.difficulty == old(self).difficulty,
                self.strategy == old(self).strategy,
                self.decision_timer == old(self).decision_timer,
                self.last_action == old(self).last_action,
                all == old(self).targets@,
            decreases pending@.len(),
        {
            assert(i < all.len());
            let target = pending.remove(0);
            assert(target == all[i as int]);
            let p = target.priority;
            let ghost pred = |t: AITarget| t.priority < p;
            let mut k: usize = 0;
            assert(sorted@.take(0) =~= Seq::<AITarget>::empty());
            while k < sorted.len() && sorted[k].priority >= p
                invariant
                    0 <= k <= sorted@.len(),
                    pred == (|t: AITarget| t.priority < p),
                    first_index(sorted@.take(k as int), pred) is None,
                decreases sorted@.len() - k,
            {
                proof {
                    lemma_first_index_step(sorted@, pred, k as int);
                }
                k = k + 1;
            }
            proof {
                if k < sorted@.len() {
                    lemma_first_index_step(sorted@, pred, k as int);
                    lemma_first_index_extend(sorted@, pred, k + 1);
                } else {
                    assert(sorted@.take(k as int) =~= sorted@);
                }
                assert(spec_insert_pos(sorted@, p) == k);
                assert(all.take(i + 1).drop_last() =~= all.take(i as int));
            }
            sorted.insert(k, target);
            i = i + 1;
            assert(pending@ =~= all.subrange(i as int, all.len() as int));
        }
        assert(all.take(all.len() as int) =~= all);
        self.targets = sorted;
    }

    /// Whether the company can take on the target now (see `spec_affordable`).
    fn can_afford_target(&self, target: &AITarget) -> (r: bool)
        requires
            target.target_type matches AITargetType::BuyVehicle { vehicle_type } ==> spec_purchase_cost(vehicle_type) <= i64::MAX,
        ensures
            r == spec_affordable(*target, self.player.money),
    {
        match &target.target_type {
            AITargetType::BuildRoute { .. } => self.player.money > 100000,
            AITargetType::ExpandExistingRoute { .. } => self.player.money > 150000,
            AITargetType::BuyVehicle { vehicle_type } => {
                self.player.can_afford(Vehicle::get_purchase_cost(vehicle_type))
            },
            AITargetType::BuildStation { .. } => self.player.money > 50000,
        }
    }

    /// The key the strategy ranks a target by (see `spec_target_key`).
    fn target_key(&self, target: &AITarget) -> (r: u32)
        ensures
            r == spec_target_key(*target, self.strategy),
    {
        match self.strategy {
            AIStrategy::Aggressive => match target.target_type {
                AITargetType::BuyVehicle { .. } => target.priority.wrapping_add(20),
                AITargetType::BuildRoute { .. } => target.priority.wrapping_add(15),
                _ => target.priority,
            },
            AIStrategy::Conservative => match target.target_type {
                AITargetType::ExpandExistingRoute { .. } => target.priority.wrapping_add(25),
                _ => target.priority,
            },
            AIStrategy::Balanced => target.priority,
            AIStrategy::Specialist { focus } => match &target.target_type {
                AITargetType::BuildRoute { cargo, .. } => if *cargo == focus {
                    target.priority.wrapping_add(30)
                } else {
                    target.priority
                },
                _ => target.priority,
            },
        }
    }

    /// A copy of the affordable target the strategy ranks highest, the last of equals
    /// (see `spec_best_index`).
    fn select_best_target(&self) -> (r: Option<AITarget>)
        requires
            targets_priced(self.targets@),
        ensures
            match spec_best_index(self.targets@, self.player.money, self.strategy) {
                None => r is None,
                Some(b) => r matches Some(t) && same_target(t, self.targets@[b]),
            },
    {
        let ghost ts = self.targets@;
        let ghost money = self.player.money;
        let ghost s = self.strategy;
        let mut best: Option<usize> = None;
        let mut best_key: u32 = 0;
        let mut i: usize = 0;
        assert(ts.take(0) =~= Seq::<AITarget>::empty());
        while i < self.targets.len()
            invariant
                0 <= i <= ts.len(),
                ts == self.targets@,
                money == self.player.money,
                s == self.strategy,
                targets_priced(ts),
                match spec_best_index(ts.take(i as int), money, s) {
                    None => best is None,
                    Some(b) => 0 <= b < i && best == Some(b as usize) && best_key == spec_target_key(ts[b], s),
                },
            decreases ts.len() - i,
        {
            let target = &self.targets[i];
            proof {
                assert(ts.take(i + 1).drop_last() =~= ts.take(i as int));
                assert(ts.take(i + 1)[i as int] == ts[i as int]);
                lemma_best_index(ts.take(i as int), money, s);
            }
            if self.can_afford_target(target) {
                let key = self.target_key(target);
                match best {
                    None => {
                        best = Some(i);
                        best_key = key;
                    },
                    Some(b) => {
                        assert(ts.take(i + 1)[b as int] == ts[b as int]);
                        if key >= best_key {
                            best = Some(i);
                            best_key = key;
                        }
                    },
                }
            }
            i = i + 1;
        }
        assert(ts.take(ts.len() as int) =~= ts);
        proof {
            lemma_best_index(ts, money, s);
        }
        match best {
            None => None,
            Some(b) => Some(self.targets[b].duplicate()),
        }
    }
    /// Buys the vehicle suited to `cargo_type` at `location` and returns its id.
    fn buy_suitable_vehicle(&mut self, location: (usize, usize), cargo_type: &CargoType) -> (r: Option<u32>)
        ensures
            r == Some(old(self).player.vehicles@.len() as u32),
            spec_vehicle_added(old(self).player, final(self).player, spec_suitable_vehicle(*cargo_type), location),
            final(self).difficulty == old(self).difficulty,
            final(self).strategy == old(self).strategy,
            final(self).decision_timer == old(self).decision_timer,
            final(self).last_action == old(self).last_action,
            final(self).targets == old(self).targets,
    {
        let vehicle_type = match cargo_type {
            CargoType::Passengers => VehicleType::Road { truck_type: TruckType::Bus { capacity: 50 } },
            CargoType::Mail => VehicleType::Road { truck_type: TruckType::SmallTruck { capacity: 30 } },
            _ => VehicleType::Road { truck_type: TruckType::LargeTruck { capacity: 80 } },
        };
        let r = self.player.add_vehicle(vehicle_type, location.0, location.1);
        assert(self.player == (Player { vehicles: self.player.vehicles, ..old(self).player }));
        r
    }

    /// Carries out the target (see `spec_executed`) and notes the time.
    fn execute_target(&mut self, target: AITarget, _world: &mut World, _economy: &Economy)
        requires
            spec_target_sound(old(self).player, target),
        ensures
            *final(_world) == *old(_world),
            spec_executed(old(self).player, final(self).player, target),
            final(self).last_action == spec_last_action_after(old(self).player, old(self).last_action, target),
            final(self).difficulty == old(self).difficulty,
            final(self).strategy == old(self).strategy,
            final(self).decision_timer == old(self).decision_timer,
            final(self).targets == old(self).targets,
    {
        let ghost p0 = self.player;
        match target.target_type {
            AITargetType::BuildRoute { from, to, cargo } => {
                let name = numbered_name("AI Route ", self.player.routes.len());
                let route_id = self.player.create_route(name, vec![from, to], vec![cargo]);
                let ghost p1 = self.player;
                assert(p1 == (Player { routes: p1.routes, ..p0 }));
                assert(p1.routes@.last().stations@ =~= seq![from, to]);
                assert(p1.routes@.last().cargo_types@ =~= seq![cargo]);
                assert(spec_route_added(p0, p1, from, to, cargo));
                if let Some(vehicle_id) = self.buy_suitable_vehicle(from, &cargo) {
                    let ghost p2 = self.player;
                    self.player.assign_vehicle_to_route(vehicle_id, route_id);
                    assert(spec_vehicle_added(p1, p2, spec_suitable_vehicle(cargo), from)
                        && spec_assigned_or_kept(p2, self.player, p0.vehicles@.len() as u32, p0.routes@.len() as u32));
                }
            },
            AITargetType::ExpandExistingRoute { route_id } => {
                let found = self.player.find_route(route_id);
                let (start_location, cargo_type) = match found {
                    Some(ri) => (self.player.routes[ri].stations[0], self.player.routes[ri].cargo_types[0]),
                    None => {
                        return;
                    },
                };
                let ghost p1 = self.player;
                if let Some(vehicle_id) = self.buy_suitable_vehicle(start_location, &cargo_type) {
                    let ghost p2 = self.player;
                    self.player.assign_vehicle_to_route(vehicle_id, route_id);
                    assert(spec_vehicle_added(p1, p2, spec_suitable_vehicle(cargo_type), start_location)
                        && spec_assigned_or_kept(p2, self.player, p0.vehicles@.len() as u32, route_id));
                }
            },
            AITargetType::BuyVehicle { vehicle_type } => {
                let location = if self.player.stations.len() > 0 {
                    self.player.stations[0]
                } else {
                    (0, 0)
                };
                self.player.add_vehicle(vehicle_type, location.0, location.1);
                assert(self.player == (Player { vehicles: self.player.vehicles, ..p0 }));
            },
            AITargetType::BuildStation { location } => {
                self.player.stations.push(location);
                assert(self.player == (Player { stations: self.player.stations, ..p0 }));
            },
        }
        self.last_action = self.player.game_time;
    }

    /// Draws up the targets (see `spec_candidates`) and sorts them by priority.
    fn analyze_opportunities(&mut self, world: &World, economy: &Economy)
        requires
            world_searchable(*world),
            world.width > 0,
            world.height > 0,
            routes_expandable(old(self).player.routes@),
        ensures
            exists|c: Seq<AITarget>| #[trigger] spec_candidates(*old(self), *world, *economy, c)
                && final(self).targets@ == spec_sorted_by_priority(c),
            final(self).player == old(self).player,
            final(self).difficulty == old(self).difficulty,
            final(self).strategy == old(self).strategy,
            final(self).decision_timer == old(self).decision_timer,
            final(self).last_action == old(self).last_action,
    {
        self.targets.clear();
        self.find_profitable_routes(world, economy);
        let ghost r = self.targets@;
        self.analyze_existing_routes(economy);
        let ghost rx = self.targets@;
        self.consider_vehicle_purchases(world, economy);
        let ghost rxv = self.targets@;
        self.identify_station_locations(world, economy);
        let ghost c = self.targets@;
        proof {
            let rt = spec_route_targets(old(self).strategy, *economy, *world);
            let xt = spec_expand_targets(old(self).player.routes@);
            assert(r =~= rt);
            assert(rx =~= rt + xt);
            assert(c.take(rt.len() as int) =~= rt) by {
                assert(c.take(rxv.len() as int) == rxv);
                assert forall|k: int| 0 <= k < rt.len() implies c[k] == rt[k] by {
                    assert(c.take(rxv.len() as int)[k] == c[k]);
                    if old(self).player.money >= 200000 {
                        assert(rxv.take(rx.len() as int)[k] == rxv[k]);
                    }
                }
            }
            assert(c.subrange(rt.len() as int, (rt.len() + xt.len()) as int) =~= xt) by {
                assert forall|k: int| 0 <= k < xt.len() implies c[rt.len() + k] == xt[k] by {
                    assert(c.take(rxv.len() as int)[rt.len() + k] == c[rt.len() + k]);
                    if old(self).player.money >= 200000 {
                        assert(rxv.take(rx.len() as int)[rt.len() + k] == rxv[rt.len() + k]);
                    }
                    assert(rx[rt.len() + k] == xt[k]);
                }
            }
            if old(self).player.money >= 200000 {
                assert forall|k: int| 0 <= k < spec_option_count(old(self).strategy) implies
                    spec_is_vehicle_target(#[trigger] c[rt.len() + xt.len() + k], old(self).strategy, k) by {
                    assert(c.take(rxv.len() as int)[rx.len() + k] == c[rx.len() + k]);
                    assert(spec_is_vehicle_target(rxv[rx.len() + k], old(self).strategy, k));
                }
            }
            let draws = choose|draws: Seq<(usize, usize)>| draws.len() == 5 && #[trigger] draws_on_map(*world, draws)
                && c == rxv + spec_found_stations(*world, draws);
            assert(c.subrange(rxv.len() as int, c.len() as int) =~= spec_found_stations(*world, draws));
            let nv = if old(self).player.money >= 200000 { spec_option_count(old(self).strategy) } else { 0 };
            assert(rxv.len() == rt.len() + xt.len() + nv);
            assert(spec_candidates(*old(self), *world, *economy, c));
        }
        self.sort_targets();
    }

    /// Draws up the targets, picks the best affordable one and carries it out (see
    /// `spec_decided`); when that one is a route to expand whose first stop or cargo is
    /// missing, it stops there (see `spec_decision_stopped`). The result says whether the
    /// decision ran to its end.
    fn make_decision(&mut self, world: &mut World, economy: &Economy) -> (r: bool)
        requires
            world_searchable(*old(world)),
            old(world).width > 0,
            old(world).height > 0,
            routes_expandable(old(self).player.routes@),
        ensures
            *final(world) == *old(world),
            r ==> spec_decided(*old(self), *final(self), *old(world), *economy),
            !r ==> spec_decision_stopped(*old(self), *final(self), *old(world), *economy),
            final(self).decision_timer == old(self).decision_timer,
            spec_decision_can_run(*old(self), *old(world), *economy) ==> r,
    {
        self.analyze_opportunities(world, economy);
        let ghost c = choose|c: Seq<AITarget>| #[trigger] spec_candidates(*old(self), *world, *economy, c)
            && self.targets@ == spec_sorted_by_priority(c);
        let ghost ts = self.targets@;
        proof {
            lemma_candidates_sound(*old(self), *world, *economy, c);
            lemma_sorted_by_priority(c);
            assert forall|i: int| 0 <= i < ts.len() implies ((#[trigger] ts[i]).target_type matches AITargetType::BuyVehicle { vehicle_type }
                ==> spec_purchase_cost(vehicle_type) <= i64::MAX) by {
                lemma_sorted_members(c, i);
                let j = choose|j: int| 0 <= j < c.len() && c[j] == #[trigger] spec_sorted_by_priority(c)[i];
                if ts[i].target_type is BuyVehicle {
                    assert(spec_target_sound(old(self).player, c[j]));
                }
            }
        }
        if let Some(target) = self.select_best_target() {
            let ghost b = spec_best_index(ts, self.player.money, self.strategy)->Some_0;
            proof {
                lemma_best_index(ts, self.player.money, self.strategy);
                lemma_sorted_members(c, b);
            }
            if !expansion_ready(&self.player, &target) {
                proof {
                    assert(ts[b].target_type == target.target_type);
                    assert(spec_decision_stopped(*old(self), *self, *world, *economy));
                }
                return false;
            }
            proof {
                let j = choose|j: int| 0 <= j < c.len() && c[j] == #[trigger] spec_sorted_by_priority(c)[b];
                if !(target.target_type is ExpandExistingRoute) {
                    assert(!(c[j].target_type is ExpandExistingRoute));
                    assert(spec_target_sound(self.player, ts[b]));
                    lemma_executed_same_sound(self.player, ts[b], target);
                }
            }
            let ghost before = self.player;
            self.execute_target(target, world, economy);
            proof {
                lemma_executed_same(before, self.player, target, ts[b]);
            }
        }
        true
    }

    /// One tick of the company (see `Player::update`); every so many ticks, as the
    /// difficulty sets, it takes a decision (see `make_decision`). The result says whether
    /// the tick ran to its end; it stops in its decision (`spec_ai_halted`) where a route
    /// worth a further vehicle lacks its first stop, or where the best target is a route
    /// to expand whose first stop or cargo is missing, and only there.
    pub fn try_update(&mut self, world: &mut World, economy: &mut Economy) -> (r: bool)
        requires
            spec_ai_can_start(*old(self), *old(world)),
        ensures
            *final(world) == *old(world),
            *final(economy) == *old(economy),
            r ==> spec_ai_updated(*old(self), *final(self), *old(world), *old(economy)),
            !r ==> spec_ai_halted(*old(self), *final(self), *old(world), *old(economy)),
            spec_ai_can_update(*old(self), *old(world), *old(economy)) ==> r,
    {
        self.player.update(world, economy);
        let ghost p = self.player;
        self.decision_timer = self.decision_timer + 1;
        let decision_frequency: u32 = match self.difficulty {
            AIDifficulty::Easy => 300,
            AIDifficulty::Medium => 200,
            AIDifficulty::Hard => 100,
        };
        assert(spec_ticked(old(self).player, p, *old(world)));
        if self.decision_timer >= decision_frequency {
            if !crate::limits::routes_expandable_check(&self.player) {
                return false;
            }
            if !self.make_decision(world, economy) {
                return false;
            }
            self.decision_timer = 0;
        }
        true
    }

    /// One tick of the company (see `Player::update`); every so many ticks, as the
    /// difficulty sets, it takes a decision (see `make_decision`).
    pub fn update(&mut self, world: &mut World, economy: &mut Economy)
        requires
            spec_ai_can_update(*old(self), *old(world), *old(economy)),
        ensures
            *final(world) == *old(world),
            *final(economy) == *old(economy),
            spec_ai_updated(*old(self), *final(self), *old(world), *old(economy)),
    {
        let done = self.try_update(world, economy);
        assert(done);
    }
}

/// Whether a chosen target can be carried out: a route to expand, when it exists, must
/// have a first stop and a cargo; any other target passes.
fn expansion_ready(p: &Player, t: &AITarget) -> (r: bool)
    ensures
        t.target_type is ExpandExistingRoute ==> r == spec_target_sound(*p, *t),
        !(t.target_type is ExpandExistingRoute) ==> r,
{
    match t.target_type {
        AITargetType::ExpandExistingRoute { route_id } => match p.find_route(route_id) {
            Some(ri) => p.routes[ri].stations.len() > 0 && p.routes[ri].cargo_types.len() > 0,
            None => true,
        },
        _ => true,
    }
}

} // verus!
