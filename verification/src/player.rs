use vstd::prelude::*;
use crate::cargo::{CargoType, CargoAmounts};
use crate::world::World;
use crate::economy::Economy;
use crate::seqs::{first_index, lemma_first_index, lemma_first_index_step, lemma_first_index_extend, lemma_first_index_congruent, copy_positions, contains_u32};
use crate::wrap::{wrapped, lemma_wrapped_small, lemma_wrapped_add, lemma_wrapping_ops};
use crate::vehicle::{Vehicle, VehicleType, VehicleState, spec_delivery_profit, spec_running_costs, spec_current_value, spec_capacity, spec_loaded, spec_purchase_cost, spec_updated, spec_is_new_vehicle};

verus! {

pub struct Player {
    pub name: String,
    pub money: i64,
    pub vehicles: Vec<Vehicle>,
    pub stations: Vec<(usize, usize)>,
    pub routes: Vec<Route>,
    /// Reputation in whole points; it moves between 0 and 100.
    pub reputation: u32,
    pub game_time: u32,
}

#[derive(Debug)]
pub struct Route {
    pub id: u32,
    pub name: String,
    pub stations: Vec<(usize, usize)>,
    pub vehicle_ids: Vec<u32>,
    pub cargo_types: Vec<CargoType>,
    pub profit: i64,
}

pub struct CompanyStats {
    pub name: String,
    pub money: i64,
    pub vehicle_count: usize,
    pub station_count: usize,
    pub route_count: usize,
    pub reputation: u32,
    pub total_value: i64,
    pub monthly_profit: i64,
    pub monthly_expenses: i64,
}

/// What a vehicle earns its company in a tick: once it has made a delivery, the delivery
/// profit of what it carries, every tick.
pub open spec fn spec_tick_profit(v: Vehicle) -> int {
    if v.total_deliveries > 0 { spec_delivery_profit(v.cargo, v.route@) } else { 0 }
}

/// Sum of the tick profits of a list of vehicles.
pub open spec fn spec_sum_tick_profit(vs: Seq<Vehicle>) -> int
    decreases vs.len(),
{
    if vs.len() == 0 { 0 } else { spec_sum_tick_profit(vs.drop_last()) + spec_tick_profit(vs.last()) }
}

/// Sum of the running costs of a list of vehicles.
pub open spec fn spec_sum_costs(vs: Seq<Vehicle>) -> int
    decreases vs.len(),
{
    if vs.len() == 0 {
        0
    } else {
        spec_sum_costs(vs.drop_last()) + spec_running_costs(vs.last().vehicle_type, vs.last().age, vs.last().reliability)
    }
}

/// Sum of the current values of a list of vehicles.
pub open spec fn spec_sum_values(vs: Seq<Vehicle>) -> int
    decreases vs.len(),
{
    if vs.len() == 0 { 0 } else { spec_sum_values(vs.drop_last()) + spec_current_value(vs.last().vehicle_type, vs.last().age) }
}

/// Sum of the profits of a list of routes.
pub open spec fn spec_sum_route_profits(rs: Seq<Route>) -> int
    decreases rs.len(),
{
    if rs.len() == 0 { 0 } else { spec_sum_route_profits(rs.drop_last()) + rs.last().profit }
}

/// Number of vehicles with a good on-time record.
pub open spec fn spec_count_on_time(vs: Seq<Vehicle>) -> int
    decreases vs.len(),
{
    if vs.len() == 0 {
        0
    } else {
        spec_count_on_time(vs.drop_last()) + if spec_is_on_time(vs.last()) { 1int } else { 0int }
    }
}

/// More than four in five deliveries on time, or none made yet.
pub open spec fn spec_is_on_time(v: Vehicle) -> bool {
    v.total_deliveries == 0 || 5 * v.on_time_deliveries > 4 * v.total_deliveries
}

/// Reputation after a monthly rating: up a point (to at most 100) when more than four in
/// five vehicles keep time, down a point (to at least 0) when fewer than half do.
pub open spec fn spec_rated_reputation(reputation: u32, vs: Seq<Vehicle>) -> u32 {
    let on_time = spec_count_on_time(vs);
    let total = vs.len() as int;
    if total > 0 && 5 * on_time > 4 * total {
        if reputation >= 100 { 100 } else { (reputation + 1) as u32 }
    } else if total > 0 && 2 * on_time < total {
        if reputation == 0 { 0 } else { (reputation - 1) as u32 }
    } else {
        reputation
    }
}

/// The index of the first route that lists vehicle `id`.
pub open spec fn first_route_with(routes: Seq<Route>, id: u32) -> Option<int> {
    first_index(routes, |r: Route| r.vehicle_ids@.contains(id))
}

/// The index of the first route with the given id.
pub open spec fn route_index_of(routes: Seq<Route>, id: u32) -> Option<int> {
    first_index(routes, |r: Route| r.id == id)
}

/// The index of the first vehicle with the given id.
pub open spec fn vehicle_index_of(vs: Seq<Vehicle>, id: u32) -> Option<int> {
    first_index(vs, |v: Vehicle| v.id == id)
}

/// What route `r` earns in a tick: the tick profits of the vehicles whose first listing
/// route it is.
pub open spec fn spec_route_income(routes: Seq<Route>, vs: Seq<Vehicle>, r: int) -> int
    decreases vs.len(),
{
    if vs.len() == 0 {
        0
    } else {
        spec_route_income(routes, vs.drop_last(), r)
            + if first_route_with(routes, vs.last().id) == Some(r) { spec_tick_profit(vs.last()) } else { 0 }
    }
}

/// The largest cargo a vehicle can carry after a tick on `world`.
pub open spec fn spec_next_cargo_total(v: Vehicle, world: World) -> int {
    match v.state {
        VehicleState::Loading => if crate::world::grid_has(world.tiles@, v.x as int, v.y as int)
            && crate::world::grid_at(world.tiles@, v.x as int, v.y as int).content is Station {
            let st = crate::world::grid_at(world.tiles@, v.x as int, v.y as int).content->Station_0;
            let room = spec_capacity(v.vehicle_type) - v.cargo.total();
            spec_loaded(v.cargo, st.cargo_waiting, room, CargoType::Passengers)
                + spec_loaded(v.cargo, st.cargo_waiting, room, CargoType::Mail)
                + spec_loaded(v.cargo, st.cargo_waiting, room, CargoType::Coal)
                + spec_loaded(v.cargo, st.cargo_waiting, room, CargoType::IronOre)
                + spec_loaded(v.cargo, st.cargo_waiting, room, CargoType::Steel)
                + spec_loaded(v.cargo, st.cargo_waiting, room, CargoType::Wood)
                + spec_loaded(v.cargo, st.cargo_waiting, room, CargoType::Oil)
                + spec_loaded(v.cargo, st.cargo_waiting, room, CargoType::Goods)
                + spec_loaded(v.cargo, st.cargo_waiting, room, CargoType::Food)
        } else {
            v.cargo.total()
        },
        VehicleState::Unloading => 0,
        _ => v.cargo.total(),
    }
}

/// Every partial sum of the route profits, taken in order, fits in an `i64`.
pub open spec fn route_profit_sums_fit(rs: Seq<Route>) -> bool {
    forall|i: int| 0 <= i <= rs.len() ==> i64::MIN <= #[trigger] spec_sum_route_profits(rs.take(i)) <= i64::MAX
}

/// Every vehicle's price fits in an `i64`.
pub open spec fn prices_fit(vs: Seq<Vehicle>) -> bool {
    forall|i: int| 0 <= i < vs.len() ==> spec_purchase_cost(#[trigger] vs[i].vehicle_type) <= i64::MAX
}

/// Assigning succeeds when some route has the id and does not list the vehicle yet.
pub open spec fn spec_can_assign(p: Player, vehicle_id: u32, route_id: u32) -> bool {
    route_index_of(p.routes@, route_id) matches Some(ri) && !p.routes@[ri].vehicle_ids@.contains(vehicle_id)
}

/// `new` is `old` after a successful assignment: the first route with the id lists the
/// vehicle last, and the first vehicle with the id, if any, follows that route's stops
/// from the first one; nothing else changes.
pub open spec fn spec_assigned(old: Player, new: Player, vehicle_id: u32, route_id: u32) -> bool {
    let ri = route_index_of(old.routes@, route_id)->Some_0;
    &&& new.routes@.len() == old.routes@.len()
    &&& forall|k: int| 0 <= k < old.routes@.len() && k != ri ==> #[trigger] new.routes@[k] == old.routes@[k]
    &&& new.routes@[ri] == (Route { vehicle_ids: new.routes@[ri].vehicle_ids, ..old.routes@[ri] })
    &&& new.routes@[ri].vehicle_ids@ == old.routes@[ri].vehicle_ids@.push(vehicle_id)
    &&& new.vehicles@.len() == old.vehicles@.len()
    &&& match vehicle_index_of(old.vehicles@, vehicle_id) {
        Some(vi) => {
            &&& forall|k: int| 0 <= k < old.vehicles@.len() && k != vi ==> #[trigger] new.vehicles@[k] == old.vehicles@[k]
            &&& new.vehicles@[vi].route@ == old.routes@[ri].stations@
            &&& new.vehicles@[vi] == (Vehicle { route: new.vehicles@[vi].route, route_index: 0, ..old.vehicles@[vi] })
        },
        None => new.vehicles == old.vehicles,
    }
    &&& new.name == old.name
    &&& new.money == old.money
    &&& new.stations == old.stations
    &&& new.reputation == old.reputation
    &&& new.game_time == old.game_time
}

/// `new` is `old` after one tick on `world` (see `Player::update`).
pub open spec fn spec_ticked(old: Player, new: Player, world: World) -> bool {
    &&& new.game_time == old.game_time + 1
    &&& new.name == old.name
    &&& new.stations == old.stations
    &&& new.vehicles@.len() == old.vehicles@.len()
    &&& forall|i: int| 0 <= i < old.vehicles@.len() ==>
        spec_updated(#[trigger] old.vehicles@[i], new.vehicles@[i], world)
    &&& new.money == wrapped(old.money + spec_sum_tick_profit(new.vehicles@) - spec_sum_costs(new.vehicles@))
    &&& new.routes@.len() == old.routes@.len()
    &&& forall|r: int| 0 <= r < old.routes@.len() ==> #[trigger] new.routes@[r] == (Route {
        profit: wrapped(old.routes@[r].profit + spec_route_income(old.routes@, new.vehicles@, r)),
        ..old.routes@[r]
    })
    &&& new.reputation == if new.game_time % 30 == 0 {
        spec_rated_reputation(old.reputation, new.vehicles@)
    } else {
        old.reputation
    }
}

proof fn lemma_values_prefix(vs: Seq<Vehicle>, i: int)
    requires
        0 <= i <= vs.len(),
    ensures
        0 <= spec_sum_values(vs.take(i)) <= spec_sum_values(vs),
    decreases vs.len() - i,
{
    if i < vs.len() {
        assert(vs.take(i + 1).drop_last() =~= vs.take(i));
        lemma_values_prefix(vs, i + 1);
        lemma_current_value_nonneg(vs[i].vehicle_type, vs[i].age);
        lemma_values_nonneg(vs.take(i));
    } else {
        assert(vs.take(i) =~= vs);
        lemma_values_nonneg(vs);
    }
}

proof fn lemma_values_nonneg(vs: Seq<Vehicle>)
    ensures
        spec_sum_values(vs) >= 0,
    decreases vs.len(),
{
    if vs.len() > 0 {
        lemma_values_nonneg(vs.drop_last());
        lemma_current_value_nonneg(vs.last().vehicle_type, vs.last().age);
    }
}

proof fn lemma_current_value_nonneg(vt: VehicleType, age: u32)
    ensures
        spec_current_value(vt, age) >= 0,
{
    crate::vehicle::lemma_purchase_cost_nonneg(vt);
    let d = if 15 * age > 29200 { 29200 } else { 15 * age };
    assert(spec_purchase_cost(vt) * (36500 - d) >= 0) by (nonlinear_arith)
        requires
            spec_purchase_cost(vt) >= 0,
            36500 - d >= 0,
    ;
}

proof fn lemma_costs_prefix(vs: Seq<Vehicle>, i: int)
    requires
        0 <= i <= vs.len(),
    ensures
        0 <= spec_sum_costs(vs.take(i)) <= spec_sum_costs(vs),
    decreases vs.len() - i,
{
    if i < vs.len() {
        assert(vs.take(i + 1).drop_last() =~= vs.take(i));
        lemma_costs_prefix(vs, i + 1);
        lemma_costs_nonneg(vs.take(i));
    } else {
        assert(vs.take(i) =~= vs);
        lemma_costs_nonneg(vs);
    }
}

proof fn lemma_costs_nonneg(vs: Seq<Vehicle>)
    ensures
        0 <= spec_sum_costs(vs) <= vs.len() * (u32::MAX as int),
    decreases vs.len(),
{
    if vs.len() > 0 {
        lemma_costs_nonneg(vs.drop_last());
    }
}

proof fn lemma_count_on_time_bounds(vs: Seq<Vehicle>)
    ensures
        0 <= spec_count_on_time(vs) <= vs.len(),
    decreases vs.len(),
{
    if vs.len() > 0 {
        lemma_count_on_time_bounds(vs.drop_last());
    }
}

/// What a vehicle earns after a tick is not negative, and its cargo then is at most what
/// `spec_next_cargo_total` allows.
proof fn lemma_tick_profit_bounded(old: Vehicle, new: Vehicle, world: World)
    requires
        spec_updated(old, new, world),
    ensures
        0 <= spec_tick_profit(new),
        new.cargo.total() <= spec_next_cargo_total(old, world),
        new.cargo.total() >= 0,
{
    crate::vehicle::lemma_route_milli_bounds(new.route@);
    match old.state {
        VehicleState::Unloading => {
            crate::cargo::lemma_total_zero(new.cargo);
        },
        VehicleState::Loading => {
            if crate::world::grid_has(world.tiles@, old.x as int, old.y as int)
                && crate::world::grid_at(world.tiles@, old.x as int, old.y as int).content is Station {
                let st = crate::world::grid_at(world.tiles@, old.x as int, old.y as int).content->Station_0;
                let room = spec_capacity(old.vehicle_type) - old.cargo.total();
                assert(new.cargo.get(CargoType::Passengers) == spec_loaded(old.cargo, st.cargo_waiting, room, CargoType::Passengers));
                assert(new.cargo.get(CargoType::Mail) == spec_loaded(old.cargo, st.cargo_waiting, room, CargoType::Mail));
                assert(new.cargo.get(CargoType::Coal) == spec_loaded(old.cargo, st.cargo_waiting, room, CargoType::Coal));
                assert(new.cargo.get(CargoType::IronOre) == spec_loaded(old.cargo, st.cargo_waiting, room, CargoType::IronOre));
                assert(new.cargo.get(CargoType::Steel) == spec_loaded(old.cargo, st.cargo_waiting, room, CargoType::Steel));
                assert(new.cargo.get(CargoType::Wood) == spec_loaded(old.cargo, st.cargo_waiting, room, CargoType::Wood));
                assert(new.cargo.get(CargoType::Oil) == spec_loaded(old.cargo, st.cargo_waiting, room, CargoType::Oil));
                assert(new.cargo.get(CargoType::Goods) == spec_loaded(old.cargo, st.cargo_waiting, room, CargoType::Goods));
                assert(new.cargo.get(CargoType::Food) == spec_loaded(old.cargo, st.cargo_waiting, room, CargoType::Food));
            }
        },
        _ => {},
    }
}

impl Player {
    /// A tick of `update` on `world` cannot fail: the clock can advance, and every vehicle
    /// can take its tick and keeps its cargo total within `u32::MAX`. Money and route
    /// profits wrap at the ends of the `i64` range, so they set no bound.
    pub open spec fn can_update(&self, world: &World) -> bool {
        &&& self.game_time < u32::MAX
        &&& forall|i: int| 0 <= i < self.vehicles@.len() ==> (#[trigger] self.vehicles@[i]).can_update(world)
            && spec_next_cargo_total(self.vehicles@[i], *world) <= u32::MAX
    }

    /// A new company with the given name and money and nothing else; reputation 50.
    pub fn new(name: String, starting_money: i64) -> (p: Player)
        ensures
            p.name == name,
            p.money == starting_money,
            p.vehicles@.len() == 0,
            p.stations@.len() == 0,
            p.routes@.len() == 0,
            p.reputation == 50,
            p.game_time == 0,
    {
        Player {
            name,
            money: starting_money,
            vehicles: Vec::new(),
            stations: Vec::new(),
            routes: Vec::new(),
            reputation: 50,
            game_time: 0,
        }
    }

    /// Buys a vehicle of the given type at `(x, y)`; money is unlimited, so this always
    /// succeeds and returns the new vehicle's id, its position in the list.
    pub fn add_vehicle(&mut self, vehicle_type: VehicleType, x: usize, y: usize) -> (r: Option<u32>)
        requires
            spec_purchase_cost(vehicle_type) <= i64::MAX,
        ensures
            r == Some(old(self).vehicles@.len() as u32),
            final(self).vehicles@.len() == old(self).vehicles@.len() + 1,
            final(self).vehicles@.drop_last() == old(self).vehicles@,
            spec_is_new_vehicle(final(self).vehicles@.last(), old(self).vehicles@.len() as u32, vehicle_type, x, y),
            final(self).name == old(self).name,
            final(self).money == old(self).money,
            final(self).stations == old(self).stations,
            final(self).routes == old(self).routes,
            final(self).reputation == old(self).reputation,
            final(self).game_time == old(self).game_time,
    {
        let cost = Vehicle::get_purchase_cost(&vehicle_type);
        if self.spend_money(cost) {
            let vehicle_id = self.vehicles.len() as u32;
            let vehicle = Vehicle::new(vehicle_id, vehicle_type, x, y);
            self.vehicles.push(vehicle);
            assert(self.vehicles@.drop_last() =~= old(self).vehicles@);
            Some(vehicle_id)
        } else {
            None
        }
    }

    /// Adds a route without vehicles and returns its id, its position in the list.
    pub fn create_route(&mut self, name: String, stations: Vec<(usize, usize)>, cargo_types: Vec<CargoType>) -> (r: u32)
        ensures
            r == old(self).routes@.len() as u32,
            final(self).routes@.len() == old(self).routes@.len() + 1,
            final(self).routes@.drop_last() == old(self).routes@,
            final(self).routes@.last() == (Route {
                id: r,
                name,
                stations,
                vehicle_ids: final(self).routes@.last().vehicle_ids,
                cargo_types,
                profit: 0,
            }),
            final(self).routes@.last().vehicle_ids@.len() == 0,
            final(self).name == old(self).name,
            final(self).money == old(self).money,
            final(self).vehicles == old(self).vehicles,
            final(self).stations == old(self).stations,
            final(self).reputation == old(self).reputation,
            final(self).game_time == old(self).game_time,
    {
        let route_id = self.routes.len() as u32;
        let route = Route { id: route_id, name, stations, vehicle_ids: Vec::new(), cargo_types, profit: 0 };
        self.routes.push(route);
        assert(self.routes@.drop_last() =~= old(self).routes@);
        route_id
    }

    pub(crate) fn find_route(&self, route_id: u32) -> (r: Option<usize>)
        ensures
            r matches Some(i) ==> route_index_of(self.routes@, route_id) == Some(i as int) && i < self.routes@.len(),
            r is None ==> route_index_of(self.routes@, route_id) is None,
    {
        let ghost p = |r: Route| r.id == route_id;
        let mut i: usize = 0;
        assert(self.routes@.take(0) =~= Seq::<Route>::empty());
        while i < self.routes.len()
            invariant
                0 <= i <= self.routes@.len(),
                p == (|r: Route| r.id == route_id),
                first_index(self.routes@.take(i as int), p) is None,
            decreases self.routes@.len() - i,
        {
            proof {
                lemma_first_index_step(self.routes@, p, i as int);
            }
            if self.routes[i].id == route_id {
                proof {
                    assert(p(self.routes@[i as int]));
                    lemma_first_index_extend(self.routes@, p, i + 1);
                }
                return Some(i);
            }
            assert(!p(self.routes@[i as int]));
            i = i + 1;
        }
        assert(self.routes@.take(self.routes@.len() as int) =~= self.routes@);
        None
    }

    pub(crate) fn find_vehicle(&self, vehicle_id: u32) -> (r: Option<usize>)
        ensures
            r matches Some(i) ==> vehicle_index_of(self.vehicles@, vehicle_id) == Some(i as int) && i < self.vehicles@.len(),
            r is None ==> vehicle_index_of(self.vehicles@, vehicle_id) is None,
    {
        let ghost p = |v: Vehicle| v.id == vehicle_id;
        let mut i: usize = 0;
        assert(self.vehicles@.take(0) =~= Seq::<Vehicle>::empty());
        while i < self.vehicles.len()
            invariant
                0 <= i <= self.vehicles@.len(),
                p == (|v: Vehicle| v.id == vehicle_id),
                first_index(self.vehicles@.take(i as int), p) is None,
            decreases self.vehicles@.len() - i,
        {
            proof {
                lemma_first_index_step(self.vehicles@, p, i as int);
            }
            if self.vehicles[i].id == vehicle_id {
                proof {
                    assert(p(self.vehicles@[i as int]));
                    lemma_first_index_extend(self.vehicles@, p, i + 1);
                }
                return Some(i);
            }
            assert(!p(self.vehicles@[i as int]));
            i = i + 1;
        }
        assert(self.vehicles@.take(self.vehicles@.len() as int) =~= self.vehicles@);
        None
    }

    /// Lists the vehicle on the first route with the given id and gives the first vehicle
    /// with that id the route's stops. Fails, changing nothing, when there is no such route
    /// or the route lists the vehicle already.
    pub fn assign_vehicle_to_route(&mut self, vehicle_id: u32, route_id: u32) -> (r: bool)
        ensures
            r == spec_can_assign(*old(self), vehicle_id, route_id),
            !r ==> *final(self) == *old(self),
            r ==> spec_assigned(*old(self), *final(self), vehicle_id, route_id),
    {
        if let Some(ri) = self.find_route(route_id) {
            if !contains_u32(&self.routes[ri].vehicle_ids, vehicle_id) {
                self.routes[ri].vehicle_ids.push(vehicle_id);
                if let Some(vi) = self.find_vehicle(vehicle_id) {
                    let stations = copy_positions(&self.routes[ri].stations);
                    self.vehicles[vi].assign_route(stations);
                }
                return true;
            }
        }
        false
    }

    /// The current value of all vehicles.
    pub fn get_total_vehicle_value(&self) -> (r: i64)
        requires
            prices_fit(self.vehicles@),
            spec_sum_values(self.vehicles@) <= i64::MAX,
        ensures
            r == spec_sum_values(self.vehicles@),
    {
        let mut total: i64 = 0;
        let mut i: usize = 0;
        assert(self.vehicles@.take(0) =~= Seq::<Vehicle>::empty());
        while i < self.vehicles.len()
            invariant
                0 <= i <= self.vehicles@.len(),
                prices_fit(self.vehicles@),
                spec_sum_values(self.vehicles@) <= i64::MAX,
                total == spec_sum_values(self.vehicles@.take(i as int)),
            decreases self.vehicles@.len() - i,
        {
            proof {
                assert(self.vehicles@.take(i + 1).drop_last() =~= self.vehicles@.take(i as int));
                lemma_values_prefix(self.vehicles@, i + 1);
                lemma_values_prefix(self.vehicles@, i as int);
                lemma_current_value_nonneg(self.vehicles@[i as int].vehicle_type, self.vehicles@[i as int].age);
            }
            let v = self.vehicles[i].get_current_value();
            total = total + v;
            i = i + 1;
        }
        assert(self.vehicles@.take(self.vehicles@.len() as int) =~= self.vehicles@);
        total
    }

    /// The sum of all route profits.
    pub fn get_monthly_profit(&self) -> (r: i64)
        requires
            route_profit_sums_fit(self.routes@),
        ensures
            r == spec_sum_route_profits(self.routes@),
    {
        let mut total: i64 = 0;
        let mut i: usize = 0;
        assert(self.routes@.take(0) =~= Seq::<Route>::empty());
        while i < self.routes.len()
            invariant
                0 <= i <= self.routes@.len(),
                route_profit_sums_fit(self.routes@),
                total == spec_sum_route_profits(self.routes@.take(i as int)),
            decreases self.routes@.len() - i,
        {
            assert(self.routes@.take(i + 1).drop_last() =~= self.routes@.take(i as int));
            assert(i64::MIN <= spec_sum_route_profits(self.routes@.take(i + 1)) <= i64::MAX);
            total = total + self.routes[i].profit;
            i = i + 1;
        }
        assert(self.routes@.take(self.routes@.len() as int) =~= self.routes@);
        total
    }

    /// Thirty ticks of running costs of all vehicles.
    pub fn get_monthly_expenses(&self) -> (r: i64)
        requires
            30 * spec_sum_costs(self.vehicles@) <= i64::MAX,
        ensures
            r == 30 * spec_sum_costs(self.vehicles@),
    {
        let mut total: i64 = 0;
        let mut i: usize = 0;
        assert(self.vehicles@.take(0) =~= Seq::<Vehicle>::empty());
        while i < self.vehicles.len()
            invariant
                0 <= i <= self.vehicles@.len(),
                30 * spec_sum_costs(self.vehicles@) <= i64::MAX,
                total == 30 * spec_sum_costs(self.vehicles@.take(i as int)),
            decreases self.vehicles@.len() - i,
        {
            proof {
                assert(self.vehicles@.take(i + 1).drop_last() =~= self.vehicles@.take(i as int));
                lemma_costs_prefix(self.vehicles@, i + 1);
            }
            let c = self.vehicles[i].get_running_costs() as i64 * 30;
            total = total + c;
            i = i + 1;
        }
        assert(self.vehicles@.take(self.vehicles@.len() as int) =~= self.vehicles@);
        total
    }

    fn count_on_time(&self) -> (r: usize)
        ensures
            r == spec_count_on_time(self.vehicles@),
    {
        let mut count: usize = 0;
        let mut i: usize = 0;
        assert(self.vehicles@.take(0) =~= Seq::<Vehicle>::empty());
        while i < self.vehicles.len()
            invariant
                0 <= i <= self.vehicles@.len(),
                count == spec_count_on_time(self.vehicles@.take(i as int)),
            decreases self.vehicles@.len() - i,
        {
            proof {
                assert(self.vehicles@.take(i + 1).drop_last() =~= self.vehicles@.take(i as int));
                lemma_count_on_time_bounds(self.vehicles@.take(i as int));
            }
            if self.vehicles[i].is_on_time() {
                count = count + 1;
            }
            i = i + 1;
        }
        assert(self.vehicles@.take(self.vehicles@.len() as int) =~= self.vehicles@);
        count
    }

    /// The monthly rating of the company's reputation (see `spec_rated_reputation` and
    /// `lemma_reputation_rating`).
    pub fn update_reputation(&mut self)
        ensures
            *final(self) == (Player { reputation: spec_rated_reputation(old(self).reputation, old(self).vehicles@), ..*old(self) }),
    {
        let on_time = self.count_on_time() as u128;
        let total = self.vehicles.len() as u128;
        proof {
            lemma_count_on_time_bounds(self.vehicles@);
        }
        if total > 0 {
            if 5 * on_time > 4 * total {
                self.reputation = if self.reputation >= 100 { 100 } else { self.reputation + 1 };
            } else if 2 * on_time < total {
                self.reputation = if self.reputation == 0 { 0 } else { self.reputation - 1 };
            }
        }
    }

    /// A summary of the company.
    pub fn get_company_stats(&self) -> (r: CompanyStats)
        requires
            prices_fit(self.vehicles@),
            spec_sum_values(self.vehicles@) <= i64::MAX,
            i64::MIN <= self.money + spec_sum_values(self.vehicles@) <= i64::MAX,
            route_profit_sums_fit(self.routes@),
            30 * spec_sum_costs(self.vehicles@) <= i64::MAX,
        ensures
            r.name == self.name,
            r.money == self.money,
            r.vehicle_count == self.vehicles@.len(),
            r.station_count == self.stations@.len(),
            r.route_count == self.routes@.len(),
            r.reputation == self.reputation,
            r.total_value == self.money + spec_sum_values(self.vehicles@),
            r.monthly_profit == spec_sum_route_profits(self.routes@),
            r.monthly_expenses == 30 * spec_sum_costs(self.vehicles@),
    {
        let total_value = self.money + self.get_total_vehicle_value();
        CompanyStats {
            name: self.name.clone(),
            money: self.money,
            vehicle_count: self.vehicles.len(),
            station_count: self.stations.len(),
            route_count: self.routes.len(),
            reputation: self.reputation,
            total_value,
            monthly_profit: self.get_monthly_profit(),
            monthly_expenses: self.get_monthly_expenses(),
        }
    }

    fn find_route_with_vehicle(&self, vehicle_id: u32) -> (r: Option<usize>)
        ensures
            r matches Some(i) ==> first_route_with(self.routes@, vehicle_id) == Some(i as int) && i < self.routes@.len(),
            r is None ==> first_route_with(self.routes@, vehicle_id) is None,
    {
        let ghost p = |r: Route| r.vehicle_ids@.contains(vehicle_id);
        let mut i: usize = 0;
        assert(self.routes@.take(0) =~= Seq::<Route>::empty());
        while i < self.routes.len()
            invariant
                0 <= i <= self.routes@.len(),
                p == (|r: Route| r.vehicle_ids@.contains(vehicle_id)),
                first_index(self.routes@.take(i as int), p) is None,
            decreases self.routes@.len() - i,
        {
            proof {
                lemma_first_index_step(self.routes@, p, i as int);
            }
            if contains_u32(&self.routes[i].vehicle_ids, vehicle_id) {
                proof {
                    assert(p(self.routes@[i as int]));
                    lemma_first_index_extend(self.routes@, p, i + 1);
                }
                return Some(i);
            }
            assert(!p(self.routes@[i as int]));
            i = i + 1;
        }
        assert(self.routes@.take(self.routes@.len() as int) =~= self.routes@);
        None
    }

    /// One tick of the company: the clock advances; every vehicle takes its tick; each
    /// vehicle that has ever delivered then earns its delivery profit, booked to the money
    /// and to the first route listing it; the running costs of all vehicles are paid; and
    /// every thirtieth tick the reputation is rated. Money and route profits wrap at the
    /// ends of the `i64` range, as the arithmetic of an optimised build does.
    pub fn update(&mut self, world: &mut World, economy: &mut Economy)
        requires
            old(self).can_update(&*old(world)),
        ensures
            *final(world) == *old(world),
            *final(economy) == *old(economy),
            spec_ticked(*old(self), *final(self), *old(world)),
    {
        self.game_time = self.game_time + 1;
        let n = self.vehicles.len();
        let ghost w = *world;
        let mut i: usize = 0;
        proof {
            assert(self.vehicles@.take(0) =~= Seq::<Vehicle>::empty());
            assert forall|r: int| 0 <= r < self.routes@.len() implies #[trigger] self.routes@[r] == (Route {
                profit: wrapped(old(self).routes@[r].profit + spec_route_income(old(self).routes@, self.vehicles@.take(0), r)),
                ..old(self).routes@[r]
            }) by {
                lemma_wrapped_small(old(self).routes@[r].profit as int);
            }
            lemma_wrapped_small(old(self).money as int);
        }
        while i < n
            invariant
                0 <= i <= n,
                n == old(self).vehicles@.len(),
                *world == w,
                w == *old(world),
                *economy == *old(economy),
                old(self).can_update(&w),
                self.game_time == old(self).game_time + 1,
                self.name == old(self).name,
                self.stations == old(self).stations,
                self.reputation == old(self).reputation,
                self.vehicles@.len() == n,
                forall|j: int| 0 <= j < i ==> spec_updated(#[trigger] old(self).vehicles@[j], self.vehicles@[j], w),
                forall|j: int| i <= j < n ==> #[trigger] self.vehicles@[j] == old(self).vehicles@[j],
                self.money == wrapped(old(self).money + spec_sum_tick_profit(self.vehicles@.take(i as int))),
                self.routes@.len() == old(self).routes@.len(),
                forall|r: int| 0 <= r < old(self).routes@.len() ==> #[trigger] self.routes@[r] == (Route {
                    profit: wrapped(old(self).routes@[r].profit + spec_route_income(old(self).routes@, self.vehicles@.take(i as int), r)),
                    ..old(self).routes@[r]
                }),
            decreases n - i,
        {
            let ghost before = self.vehicles@;
            let ghost m0 = self.money;
            assert(self.vehicles@[i as int] == old(self).vehicles@[i as int]);
            assert(old(self).vehicles@[i as int].can_update(&w));
            self.vehicles[i].update(world, economy);
            let ghost vi = self.vehicles@[i as int];
            proof {
                assert(self.vehicles@.take(i + 1).drop_last() =~= self.vehicles@.take(i as int));
                assert(self.vehicles@.take(i as int) =~= before.take(i as int));
                lemma_tick_profit_bounded(old(self).vehicles@[i as int], vi, w);
                assert(self.vehicles@.take(i + 1).last() == vi);
            }
            if self.vehicles[i].has_delivered_cargo() {
                assert(vi.cargo.total() <= u32::MAX);
                let profit = self.vehicles[i].calculate_delivery_profit();
                proof {
                    lemma_wrapping_ops(self.money, profit);
                    lemma_wrapped_add(old(self).money + spec_sum_tick_profit(self.vehicles@.take(i as int)), profit as int);
                }
                self.money = self.money.wrapping_add(profit);
                let id = self.vehicles[i].id;
                let found = self.find_route_with_vehicle(id);
                proof {
                    let p = |r: Route| r.vehicle_ids@.contains(id);
                    assert forall|j: int| 0 <= j < self.routes@.len() implies p(#[trigger] self.routes@[j]) == p(old(self).routes@[j]) by {
                        assert(self.routes@[j].vehicle_ids == old(self).routes@[j].vehicle_ids);
                    }
                    lemma_first_index_congruent(self.routes@, old(self).routes@, p);
                    assert(spec_tick_profit(vi) == profit);
                }
                if let Some(ri) = found {
                    proof {
                        let inc = spec_route_income(old(self).routes@, self.vehicles@.take(i as int), ri as int);
                        assert(spec_route_income(old(self).routes@, self.vehicles@.take(i + 1), ri as int) == inc + profit);
                        lemma_wrapping_ops(self.routes@[ri as int].profit, profit);
                        lemma_wrapped_add(old(self).routes@[ri as int].profit + inc, profit as int);
                    }
                    self.routes[ri].profit = self.routes[ri].profit.wrapping_add(profit);
                }
            }
            i = i + 1;
        }
        assert(self.vehicles@.take(n as int) =~= self.vehicles@);
        let ghost m1 = self.money;
        let ghost mid = *self;
        let mut k: usize = 0;
        proof {
            assert(self.vehicles@.take(0) =~= Seq::<Vehicle>::empty());
            lemma_wrapped_add(old(self).money + spec_sum_tick_profit(self.vehicles@), 0);
        }
        while k < n
            invariant
                0 <= k <= n,
                n == self.vehicles@.len(),
                *self == (Player { money: self.money, ..mid }),
                m1 == wrapped(old(self).money + spec_sum_tick_profit(self.vehicles@)),
                self.money == wrapped(old(self).money + spec_sum_tick_profit(self.vehicles@)
                    - spec_sum_costs(self.vehicles@.take(k as int))),
            decreases n - k,
        {
            proof {
                assert(self.vehicles@.take(k + 1).drop_last() =~= self.vehicles@.take(k as int));
            }
            let c = self.vehicles[k].get_running_costs();
            proof {
                lemma_wrapping_ops(self.money, c as i64);
                lemma_wrapped_add(old(self).money + spec_sum_tick_profit(self.vehicles@)
                    - spec_sum_costs(self.vehicles@.take(k as int)), -(c as int));
            }
            self.money = self.money.wrapping_sub(c as i64);
            k = k + 1;
        }
        assert(self.vehicles@.take(n as int) =~= self.vehicles@);
        if self.game_time % 30 == 0 {
            self.update_reputation();
        }
    }

    /// Money is unlimited: every amount is affordable.
    pub fn can_afford(&self, _amount: i64) -> (r: bool)
        ensures
            r,
    {
        true
    }

    /// Money is unlimited: spending succeeds and changes nothing.
    pub fn spend_money(&mut self, _amount: i64) -> (r: bool)
        ensures
            r,
            *final(self) == *old(self),
    {
        true
    }
}

} // verus!
