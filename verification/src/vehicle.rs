use vstd::prelude::*;
use crate::cargo::{CargoType, CargoAmounts, spec_cargo_index};
use crate::world::{World, TileContent, Tile, grid_has, grid_at};
use crate::economy::Economy;
use crate::geometry::{distance_milli, spec_distance_milli};
use crate::rng::random_range;

verus! {

/// Vehicles never break down while this is off.
pub const BREAKDOWNS_ENABLED: bool = false;

#[derive(Debug)]
pub enum VehicleType {
    Train { engine: TrainEngine, cars: Vec<TrainCar> },
    Road { truck_type: TruckType },
    Ship { ship_type: ShipType },
    Aircraft { plane_type: PlaneType },
}

#[derive(Clone, Copy, Debug, PartialEq, Eq, Structural)]
pub enum TrainEngine {
    Steam { power: u32, reliability: u8 },
    Diesel { power: u32, reliability: u8 },
    Electric { power: u32, reliability: u8 },
}

#[derive(Clone, Copy, Debug, PartialEq, Eq, Structural)]
pub enum TrainCar {
    Passenger { capacity: u32 },
    Freight { capacity: u32, cargo_type: Option<CargoType> },
    Mail { capacity: u32 },
}

#[derive(Clone, Copy, Debug, PartialEq, Eq, Structural)]
pub enum TruckType {
    SmallTruck { capacity: u32 },
    LargeTruck { capacity: u32 },
    Bus { capacity: u32 },
}

#[derive(Clone, Copy, Debug, PartialEq, Eq, Structural)]
pub enum ShipType {
    CargoShip { capacity: u32 },
    PassengerShip { capacity: u32 },
}

#[derive(Clone, Copy, Debug, PartialEq, Eq, Structural)]
pub enum PlaneType {
    SmallPlane { capacity: u32, range: u32 },
    LargePlane { capacity: u32, range: u32 },
}

/// What a vehicle is doing. While moving, `progress` counts thousandths of the way;
/// the vehicle arrives once it reaches 1000.
#[derive(Clone, Copy, Debug)]
pub enum VehicleState {
    Idle,
    Moving { from: (usize, usize), to: (usize, usize), progress: u32 },
    Loading,
    Unloading,
    Broken,
}

pub struct Vehicle {
    pub id: u32,
    pub vehicle_type: VehicleType,
    pub x: usize,
    pub y: usize,
    pub state: VehicleState,
    pub cargo: CargoAmounts,
    pub route: Vec<(usize, usize)>,
    pub route_index: usize,
    pub current_path: Vec<(usize, usize)>,
    pub path_index: usize,
    pub age: u32,
    pub reliability: u8,
    pub speed: u32,
    pub last_service: u32,
    pub profit: i64,
    pub on_time_deliveries: u32,
    pub total_deliveries: u32,
}

/// Speed and reliability of a new vehicle of the given type.
pub open spec fn spec_vehicle_stats(vt: VehicleType) -> (u32, u8) {
    match vt {
        VehicleType::Train { engine, .. } => match engine {
            TrainEngine::Steam { reliability, .. } => (60, reliability),
            TrainEngine::Diesel { reliability, .. } => (80, reliability),
            TrainEngine::Electric { reliability, .. } => (100, reliability),
        },
        VehicleType::Road { truck_type } => match truck_type {
            TruckType::SmallTruck { .. } => (90, 85),
            TruckType::LargeTruck { .. } => (70, 80),
            TruckType::Bus { .. } => (85, 88),
        },
        VehicleType::Ship { .. } => (40, 90),
        VehicleType::Aircraft { plane_type } => match plane_type {
            PlaneType::SmallPlane { .. } => (300, 75),
            PlaneType::LargePlane { .. } => (250, 85),
        },
    }
}

pub open spec fn spec_car_capacity(car: TrainCar) -> int {
    match car {
        TrainCar::Passenger { capacity } => capacity as int,
        TrainCar::Freight { capacity, .. } => capacity as int,
        TrainCar::Mail { capacity } => capacity as int,
    }
}

/// Total capacity of a train's cars.
pub open spec fn spec_cars_capacity(cars: Seq<TrainCar>) -> int
    decreases cars.len(),
{
    if cars.len() == 0 {
        0
    } else {
        spec_cars_capacity(cars.drop_last()) + spec_car_capacity(cars.last())
    }
}

/// The cargo a vehicle of this type carries at most.
pub open spec fn spec_capacity(vt: VehicleType) -> int {
    match vt {
        VehicleType::Train { cars, .. } => spec_cars_capacity(cars@),
        VehicleType::Road { truck_type } => match truck_type {
            TruckType::SmallTruck { capacity } => capacity as int,
            TruckType::LargeTruck { capacity } => capacity as int,
            TruckType::Bus { capacity } => capacity as int,
        },
        VehicleType::Ship { ship_type } => match ship_type {
            ShipType::CargoShip { capacity } => capacity as int,
            ShipType::PassengerShip { capacity } => capacity as int,
        },
        VehicleType::Aircraft { plane_type } => match plane_type {
            PlaneType::SmallPlane { capacity, .. } => capacity as int,
            PlaneType::LargePlane { capacity, .. } => capacity as int,
        },
    }
}

pub open spec fn spec_car_cost(car: TrainCar) -> int {
    match car {
        TrainCar::Passenger { .. } => 50000,
        TrainCar::Freight { .. } => 30000,
        TrainCar::Mail { .. } => 40000,
    }
}

/// Total price of a train's cars.
pub open spec fn spec_cars_cost(cars: Seq<TrainCar>) -> int
    decreases cars.len(),
{
    if cars.len() == 0 {
        0
    } else {
        spec_cars_cost(cars.drop_last()) + spec_car_cost(cars.last())
    }
}

pub open spec fn spec_engine_cost(engine: TrainEngine) -> int {
    match engine {
        TrainEngine::Steam { power, .. } => power * 100,
        TrainEngine::Diesel { power, .. } => power * 150,
        TrainEngine::Electric { power, .. } => power * 200,
    }
}

/// The price of a new vehicle of this type.
pub open spec fn spec_purchase_cost(vt: VehicleType) -> int {
    match vt {
        VehicleType::Train { engine, cars } => spec_engine_cost(engine) + spec_cars_cost(cars@),
        VehicleType::Road { truck_type } => match truck_type {
            TruckType::SmallTruck { .. } => 75000,
            TruckType::LargeTruck { .. } => 150000,
            TruckType::Bus { .. } => 120000,
        },
        VehicleType::Ship { ship_type } => match ship_type {
            ShipType::CargoShip { .. } => 500000,
            ShipType::PassengerShip { .. } => 800000,
        },
        VehicleType::Aircraft { plane_type } => match plane_type {
            PlaneType::SmallPlane { .. } => 2000000,
            PlaneType::LargePlane { .. } => 10000000,
        },
    }
}

/// Running cost per tick before age and wear.
pub open spec fn spec_base_running_cost(vt: VehicleType) -> int {
    match vt {
        VehicleType::Train { .. } => 1000,
        VehicleType::Road { .. } => 200,
        VehicleType::Ship { .. } => 800,
        VehicleType::Aircraft { .. } => 3000,
    }
}

/// Running cost per tick: the base cost, raised by a tenth for each year (365 ticks) of
/// age and by one percent for each point of reliability under 100, rounded down; a
/// reliability of 200 or more costs nothing, and costs stop at `u32::MAX`.
pub open spec fn spec_running_costs(vt: VehicleType, age: u32, reliability: u8) -> u32 {
    if reliability >= 200 {
        0
    } else {
        let c = spec_base_running_cost(vt) * (3650 + age) * (200 - reliability) / 365000;
        if c > u32::MAX { u32::MAX } else { c as u32 }
    }
}

/// Value of a vehicle: its price, less 15% for each year (365 ticks) of age, rounded
/// down, but never less than a fifth of the price.
pub open spec fn spec_current_value(vt: VehicleType, age: u32) -> int {
    let d = if 15 * age > 29200 { 29200 } else { 15 * age };
    spec_purchase_cost(vt) * (36500 - d) / 36500
}

/// Length of a route in thousandths of a tile: the sum of the straight distances between
/// consecutive stops, stopping at `u64::MAX`.
pub open spec fn spec_route_milli(route: Seq<(usize, usize)>) -> int
    decreases route.len(),
{
    if route.len() < 2 {
        0
    } else {
        let rest = spec_route_milli(route.drop_last());
        let d = spec_distance_milli(route[route.len() - 2], route.last());
        if rest + d > u64::MAX { u64::MAX as int } else { rest + d }
    }
}

/// Five per whole tile of the route, when the route has more than one stop.
pub open spec fn spec_route_bonus(route: Seq<(usize, usize)>) -> int {
    if route.len() > 1 { (spec_route_milli(route) / 1000) * 5 } else { 0 }
}

/// Profit of a delivery: ten per unit of cargo aboard plus the route bonus.
pub open spec fn spec_delivery_profit(cargo: CargoAmounts, route: Seq<(usize, usize)>) -> int {
    cargo.total() * 10 + spec_route_bonus(route)
}

/// A route's length is between zero and `u64::MAX`.
pub proof fn lemma_route_milli_bounds(route: Seq<(usize, usize)>)
    ensures
        0 <= spec_route_milli(route) <= u64::MAX,
    decreases route.len(),
{
    if route.len() >= 2 {
        lemma_route_milli_bounds(route.drop_last());
        let a = route[route.len() - 2];
        let b = route.last();
        if crate::geometry::near_enough(a, b) {
            let n = 1_000_000 * crate::geometry::spec_dist_sq(a, b);
            let r = choose|r: int| #[trigger] crate::geometry::is_isqrt(n, r);
            crate::geometry::lemma_isqrt_exists(n);
        }
    }
}

/// Reliability after a tick of ageing: every 365th tick takes five points, down to zero.
pub open spec fn spec_aged_reliability(age: u32, reliability: u8) -> u8 {
    if (age + 1) % 365 == 0 {
        if reliability >= 5 { (reliability - 5) as u8 } else { 0 }
    } else {
        reliability
    }
}

/// The cargo after loading at a station: each kind takes what is waiting, up to the
/// room left before loading began.
pub open spec fn spec_loaded(cargo: CargoAmounts, waiting: CargoAmounts, room: int, c: CargoType) -> int {
    cargo.get(c) + if waiting.get(c) < room { waiting.get(c) as int } else { room }
}

/// `new` is `old` after one tick of `Vehicle::update` on `world`: the vehicle ages,
/// an idle vehicle with a route sets off for its current stop, a moving vehicle advances
/// by its speed and starts loading on arrival, a loading vehicle takes on waiting cargo
/// and moves on to the next stop of its route, an unloading vehicle empties its hold and
/// books the delivery, and a broken vehicle may get repaired. Identity, type, route,
/// path and speed never change.
pub open spec fn spec_updated(old: Vehicle, new: Vehicle, world: World) -> bool {
    let aged = spec_aged_reliability(old.age, old.reliability);
    &&& new.id == old.id
    &&& new.vehicle_type == old.vehicle_type
    &&& new.route == old.route
    &&& new.current_path == old.current_path
    &&& new.path_index == old.path_index
    &&& new.speed == old.speed
    &&& new.age == old.age + 1
    &&& match old.state {
        VehicleState::Broken => {
            ||| (new.state == VehicleState::Broken && new.reliability == aged && new.last_service == old.last_service)
            ||| (new.state == VehicleState::Idle && new.last_service == new.age
                && new.reliability == if aged + 20 > 100 { 100 } else { aged + 20 })
        },
        _ => new.reliability == aged && new.last_service == old.last_service,
    }
    &&& match old.state {
        VehicleState::Unloading => {
            &&& new.state == VehicleState::Idle
            &&& new.cargo.is_empty()
            &&& new.x == old.x && new.y == old.y && new.route_index == old.route_index
            &&& if old.cargo.total() > 0 {
                &&& new.total_deliveries == old.total_deliveries + 1
                &&& (new.on_time_deliveries == old.on_time_deliveries
                    || new.on_time_deliveries == old.on_time_deliveries + 1)
                &&& new.profit == old.profit + spec_delivery_profit(new.cargo, old.route@)
            } else {
                &&& new.total_deliveries == old.total_deliveries
                &&& new.on_time_deliveries == old.on_time_deliveries
                &&& new.profit == old.profit
            }
        },
        _ => {
            &&& new.total_deliveries == old.total_deliveries
            &&& new.on_time_deliveries == old.on_time_deliveries
            &&& new.profit == old.profit
            &&& match old.state {
                VehicleState::Idle => {
                    &&& new.x == old.x && new.y == old.y && new.route_index == old.route_index
                    &&& new.cargo == old.cargo
                    &&& new.state == if old.route_index < old.route@.len() {
                        VehicleState::Moving { from: (old.x, old.y), to: old.route@[old.route_index as int], progress: 0 }
                    } else {
                        VehicleState::Idle
                    }
                },
                VehicleState::Moving { from, to, progress } => {
                    &&& new.route_index == old.route_index
                    &&& new.cargo == old.cargo
                    &&& if progress + old.speed >= 1000 {
                        new.x == to.0 && new.y == to.1 && new.state == VehicleState::Loading
                    } else {
                        new.x == old.x && new.y == old.y
                            && new.state == (VehicleState::Moving { from, to, progress: (progress + old.speed) as u32 })
                    }
                },
                VehicleState::Loading => {
                    &&& new.state == VehicleState::Idle
                    &&& new.x == old.x && new.y == old.y
                    &&& new.route_index == (old.route_index + 1) % (old.route@.len() as int)
                    &&& if grid_has(world.tiles@, old.x as int, old.y as int) && grid_at(world.tiles@, old.x as int, old.y as int).content is Station {
                        let st = grid_at(world.tiles@, old.x as int, old.y as int).content->Station_0;
                        forall|c: CargoType| #[trigger] new.cargo.get(c) == spec_loaded(old.cargo, st.cargo_waiting,
                            spec_capacity(old.vehicle_type) - old.cargo.total(), c)
                    } else {
                        new.cargo == old.cargo
                    }
                },
                _ => {
                    &&& new.x == old.x && new.y == old.y && new.route_index == old.route_index
                    &&& new.cargo == old.cargo
                },
            }
        },
    }
}

/// `v` is a vehicle as `Vehicle::new` makes it.
pub open spec fn spec_is_new_vehicle(v: Vehicle, id: u32, vehicle_type: VehicleType, x: usize, y: usize) -> bool {
    &&& v.id == id
    &&& v.vehicle_type == vehicle_type
    &&& v.x == x
    &&& v.y == y
    &&& v.state == VehicleState::Idle
    &&& v.cargo.is_empty()
    &&& v.route@.len() == 0
    &&& v.route_index == 0
    &&& v.current_path@.len() == 0
    &&& v.path_index == 0
    &&& v.age == 0
    &&& (v.speed, v.reliability) == spec_vehicle_stats(vehicle_type)
    &&& v.last_service == 0
    &&& v.profit == 0
    &&& v.on_time_deliveries == 0
    &&& v.total_deliveries == 0
}

/// Two vehicle types are the same: equal, with trains compared by engine and the list
/// of cars.
pub open spec fn same_vehicle_type(a: VehicleType, b: VehicleType) -> bool {
    match (a, b) {
        (VehicleType::Train { engine: e1, cars: c1 }, VehicleType::Train { engine: e2, cars: c2 }) => e1 == e2 && c1@ == c2@,
        (VehicleType::Train { .. }, _) => false,
        (_, VehicleType::Train { .. }) => false,
        _ => a == b,
    }
}

/// Vehicle types that are the same have the same figures.
pub proof fn lemma_same_vehicle_type(a: VehicleType, b: VehicleType)
    requires
        same_vehicle_type(a, b),
    ensures
        spec_capacity(a) == spec_capacity(b),
        spec_purchase_cost(a) == spec_purchase_cost(b),
        spec_vehicle_stats(a) == spec_vehicle_stats(b),
        spec_base_running_cost(a) == spec_base_running_cost(b),
{
}

impl VehicleType {
    /// A copy of the vehicle type.
    pub fn duplicate(&self) -> (r: VehicleType)
        ensures
            same_vehicle_type(r, *self),
    {
        match self {
            VehicleType::Train { engine, cars } => {
                let mut copy: Vec<TrainCar> = Vec::new();
                let mut i: usize = 0;
                while i < cars.len()
                    invariant
                        0 <= i <= cars@.len(),
                        copy@ == cars@.take(i as int),
                    decreases cars@.len() - i,
                {
                    copy.push(cars[i]);
                    i = i + 1;
                    assert(copy@ =~= cars@.take(i as int));
                }
                assert(cars@.take(cars@.len() as int) =~= cars@);
                VehicleType::Train { engine: *engine, cars: copy }
            },
            VehicleType::Road { truck_type } => VehicleType::Road { truck_type: *truck_type },
            VehicleType::Ship { ship_type } => VehicleType::Ship { ship_type: *ship_type },
            VehicleType::Aircraft { plane_type } => VehicleType::Aircraft { plane_type: *plane_type },
        }
    }
}

impl Vehicle {
    /// Loading at the vehicle's tile fits: if it holds a station, the cargo aboard is
    /// within capacity and each kind can take what loading adds.
    pub open spec fn load_fits(&self, world: &World) -> bool {
        grid_has(world.tiles@, self.x as int, self.y as int) ==> (
            grid_at(world.tiles@, self.x as int, self.y as int).content matches TileContent::Station(st) ==> {
                &&& spec_capacity(self.vehicle_type) <= u32::MAX
                &&& self.cargo.total() <= spec_capacity(self.vehicle_type)
                &&& forall|c: CargoType| #[trigger] spec_loaded(self.cargo, st.cargo_waiting,
                    spec_capacity(self.vehicle_type) - self.cargo.total(), c) <= u32::MAX
            })
    }

    /// A tick of `update` cannot overflow or fail: the age can grow, a vehicle loading has
    /// a route and room as `load_fits` says, a moving vehicle's progress can grow by its
    /// speed, a repair can raise reliability by 20, and an unloading vehicle can count and
    /// book the delivery.
    pub open spec fn can_update(&self, world: &World) -> bool {
        &&& self.age < u32::MAX
        &&& match self.state {
            VehicleState::Idle => true,
            VehicleState::Moving { progress, .. } => progress + self.speed <= u32::MAX,
            VehicleState::Loading => self.route@.len() > 0 && self.route_index < usize::MAX && self.load_fits(world),
            VehicleState::Unloading => {
                &&& self.total_deliveries < u32::MAX
                &&& self.on_time_deliveries < u32::MAX
                &&& self.profit + spec_route_bonus(self.route@) <= i64::MAX
            },
            VehicleState::Broken => spec_aged_reliability(self.age, self.reliability) + 20 <= u8::MAX,
        }
    }

    /// A new vehicle of the given type at `(x, y)`, idle, empty, without a route.
    pub fn new(id: u32, vehicle_type: VehicleType, x: usize, y: usize) -> (v: Vehicle)
        ensures
            spec_is_new_vehicle(v, id, vehicle_type, x, y),
    {
        let (speed, reliability) = Self::get_vehicle_stats(&vehicle_type);
        Vehicle {
            id,
            vehicle_type,
            x,
            y,
            state: VehicleState::Idle,
            cargo: CargoAmounts::new(),
            route: Vec::new(),
            route_index: 0,
            current_path: Vec::new(),
            path_index: 0,
            age: 0,
            reliability,
            speed,
            last_service: 0,
            profit: 0,
            on_time_deliveries: 0,
            total_deliveries: 0,
        }
    }

    /// Gives the vehicle a new route, starting from its first stop.
    pub fn assign_route(&mut self, stations: Vec<(usize, usize)>)
        ensures
            final(self).route == stations,
            final(self).route_index == 0,
            final(self).id == old(self).id,
            final(self).vehicle_type == old(self).vehicle_type,
            final(self).x == old(self).x,
            final(self).y == old(self).y,
            final(self).state == old(self).state,
            final(self).cargo == old(self).cargo,
            final(self).current_path == old(self).current_path,
            final(self).path_index == old(self).path_index,
            final(self).age == old(self).age,
            final(self).reliability == old(self).reliability,
            final(self).speed == old(self).speed,
            final(self).last_service == old(self).last_service,
            final(self).profit == old(self).profit,
            final(self).on_time_deliveries == old(self).on_time_deliveries,
            final(self).total_deliveries == old(self).total_deliveries,
    {
        self.route = stations;
        self.route_index = 0;
    }

    pub(crate) fn cars_capacity(cars: &Vec<TrainCar>) -> (r: u32)
        requires
            spec_cars_capacity(cars@) <= u32::MAX,
        ensures
            r == spec_cars_capacity(cars@),
    {
        let mut total: u32 = 0;
        let mut i: usize = 0;
        assert(cars@.take(0) =~= Seq::<TrainCar>::empty());
        while i < cars.len()
            invariant
                0 <= i <= cars@.len(),
                total == spec_cars_capacity(cars@.take(i as int)),
                spec_cars_capacity(cars@) <= u32::MAX,
            decreases cars@.len() - i,
        {
            proof {
                assert(cars@.take(i + 1).drop_last() =~= cars@.take(i as int));
                lemma_cars_capacity_prefix(cars@, i + 1);
            }
            let c = match cars[i] {
                TrainCar::Passenger { capacity } => capacity,
                TrainCar::Freight { capacity, .. } => capacity,
                TrainCar::Mail { capacity } => capacity,
            };
            total = total + c;
            i = i + 1;
        }
        assert(cars@.take(cars@.len() as int) =~= cars@);
        total
    }

    /// How much cargo the vehicle carries at most.
    pub fn get_capacity(&self) -> (r: u32)
        requires
            spec_capacity(self.vehicle_type) <= u32::MAX,
        ensures
            r == spec_capacity(self.vehicle_type),
    {
        match &self.vehicle_type {
            VehicleType::Train { cars, .. } => Self::cars_capacity(cars),
            VehicleType::Road { truck_type } => match truck_type {
                TruckType::SmallTruck { capacity } => *capacity,
                TruckType::LargeTruck { capacity } => *capacity,
                TruckType::Bus { capacity } => *capacity,
            },
            VehicleType::Ship { ship_type } => match ship_type {
                ShipType::CargoShip { capacity } => *capacity,
                ShipType::PassengerShip { capacity } => *capacity,
            },
            VehicleType::Aircraft { plane_type } => match plane_type {
                PlaneType::SmallPlane { capacity, .. } => *capacity,
                PlaneType::LargePlane { capacity, .. } => *capacity,
            },
        }
    }

    fn cars_cost(cars: &Vec<TrainCar>) -> (r: i64)
        requires
            spec_cars_cost(cars@) <= i64::MAX,
        ensures
            r == spec_cars_cost(cars@),
    {
        let mut total: i64 = 0;
        let mut i: usize = 0;
        assert(cars@.take(0) =~= Seq::<TrainCar>::empty());
        while i < cars.len()
            invariant
                0 <= i <= cars@.len(),
                total == spec_cars_cost(cars@.take(i as int)),
                spec_cars_cost(cars@) <= i64::MAX,
            decreases cars@.len() - i,
        {
            proof {
                assert(cars@.take(i + 1).drop_last() =~= cars@.take(i as int));
                lemma_cars_cost_prefix(cars@, i + 1);
            }
            let c: i64 = match cars[i] {
                TrainCar::Passenger { .. } => 50000,
                TrainCar::Freight { .. } => 30000,
                TrainCar::Mail { .. } => 40000,
            };
            total = total + c;
            i = i + 1;
        }
        assert(cars@.take(cars@.len() as int) =~= cars@);
        total
    }

    /// The price of a new vehicle of this type.
    pub fn get_purchase_cost(vehicle_type: &VehicleType) -> (r: i64)
        requires
            spec_purchase_cost(*vehicle_type) <= i64::MAX,
        ensures
            r == spec_purchase_cost(*vehicle_type),
    {
        match vehicle_type {
            VehicleType::Train { engine, cars } => {
                let engine_cost: i64 = match engine {
                    TrainEngine::Steam { power, .. } => *power as i64 * 100,
                    TrainEngine::Diesel { power, .. } => *power as i64 * 150,
                    TrainEngine::Electric { power, .. } => *power as i64 * 200,
                };
                proof {
                    lemma_cars_cost_nonneg(cars@);
                }
                let car_cost = Self::cars_cost(cars);
                engine_cost + car_cost
            },
            VehicleType::Road { truck_type } => match truck_type {
                TruckType::SmallTruck { .. } => 75000,
                TruckType::LargeTruck { .. } => 150000,
                TruckType::Bus { .. } => 120000,
            },
            VehicleType::Ship { ship_type } => match ship_type {
                ShipType::CargoShip { .. } => 500000,
                ShipType::PassengerShip { .. } => 800000,
            },
            VehicleType::Aircraft { plane_type } => match plane_type {
                PlaneType::SmallPlane { .. } => 2000000,
                PlaneType::LargePlane { .. } => 10000000,
            },
        }
    }

    /// Running cost per tick (see `spec_running_costs`).
    pub fn get_running_costs(&self) -> (r: u32)
        ensures
            r == spec_running_costs(self.vehicle_type, self.age, self.reliability),
    {
        let base_cost: u128 = match &self.vehicle_type {
            VehicleType::Train { .. } => 1000,
            VehicleType::Road { .. } => 200,
            VehicleType::Ship { .. } => 800,
            VehicleType::Aircraft { .. } => 3000,
        };
        if self.reliability >= 200 {
            return 0;
        }
        let age_factor = 3650u128 + self.age as u128;
        let wear_factor = 200u128 - self.reliability as u128;
        assert(base_cost * age_factor <= 3000 * 0x2_0000_0000) by (nonlinear_arith)
            requires
                base_cost <= 3000,
                age_factor <= 0x2_0000_0000,
        ;
        assert(base_cost * age_factor * wear_factor <= 3000 * 0x2_0000_0000 * 200) by (nonlinear_arith)
            requires
                base_cost * age_factor <= 3000 * 0x2_0000_0000,
                wear_factor <= 200,
        ;
        let c = base_cost * age_factor * wear_factor / 365000;
        if c > u32::MAX as u128 {
            u32::MAX
        } else {
            c as u32
        }
    }

    /// What the vehicle is worth now (see `spec_current_value`).
    pub fn get_current_value(&self) -> (r: i64)
        requires
            spec_purchase_cost(self.vehicle_type) <= i64::MAX,
        ensures
            r == spec_current_value(self.vehicle_type, self.age),
    {
        let purchase_cost = Self::get_purchase_cost(&self.vehicle_type);
        proof {
            lemma_purchase_cost_nonneg(self.vehicle_type);
        }
        let scaled_age: u64 = 15 * self.age as u64;
        let d: u64 = if scaled_age > 29200 { 29200 } else { scaled_age };
        let keep = (36500 - d) as i128;
        assert((purchase_cost as i128) * keep <= (i64::MAX as i128) * 36500) by (nonlinear_arith)
            requires
                0 <= purchase_cost <= i64::MAX,
                0 <= keep <= 36500,
        ;
        assert((purchase_cost as i128) * keep >= 0) by (nonlinear_arith)
            requires
                0 <= purchase_cost,
                0 <= keep,
        ;
        let v = (purchase_cost as i128) * keep / 36500;
        v as i64
    }

    /// The vehicle has made at least one delivery.
    pub fn has_delivered_cargo(&self) -> (r: bool)
        ensures
            r == (self.total_deliveries > 0),
    {
        self.total_deliveries > 0
    }

    /// Length of the route in thousandths of a tile (see `spec_route_milli`).
    pub fn calculate_route_distance(&self) -> (r: u64)
        ensures
            r == spec_route_milli(self.route@),
    {
        let n = self.route.len();
        if n < 2 {
            return 0;
        }
        let mut total: u64 = 0;
        let mut i: usize = 1;
        assert(self.route@.take(1).len() == 1);
        while i < n
            invariant
                1 <= i <= n,
                n == self.route@.len(),
                total == spec_route_milli(self.route@.take(i as int)),
            decreases n - i,
        {
            let d = distance_milli(self.route[i - 1], self.route[i]);
            proof {
                let t = self.route@.take(i + 1);
                assert(t.drop_last() =~= self.route@.take(i as int));
                assert(t[t.len() - 2] == self.route@[i - 1]);
                assert(t.last() == self.route@[i as int]);
            }
            total = if total > u64::MAX - d { u64::MAX } else { total + d };
            i = i + 1;
        }
        assert(self.route@.take(n as int) =~= self.route@);
        total
    }

    /// Profit of delivering the cargo now aboard (see `spec_delivery_profit`).
    pub fn calculate_delivery_profit(&self) -> (r: i64)
        requires
            self.cargo.total() <= u32::MAX,
        ensures
            r == spec_delivery_profit(self.cargo, self.route@),
    {
        let base_profit = self.cargo.sum() as i64 * 10;
        let distance_bonus: i64 = if self.route.len() > 1 {
            (self.calculate_route_distance() / 1000) as i64 * 5
        } else {
            0
        };
        base_profit + distance_bonus
    }

    /// More than four in five deliveries were on time, or none was made yet.
    pub fn is_on_time(&self) -> (r: bool)
        ensures
            r == (self.total_deliveries == 0 || 5 * self.on_time_deliveries > 4 * self.total_deliveries),
    {
        if self.total_deliveries == 0 {
            true
        } else {
            5 * (self.on_time_deliveries as u64) > 4 * (self.total_deliveries as u64)
        }
    }

    /// One tick of the vehicle (see `spec_updated`).
    pub fn update(&mut self, world: &mut World, economy: &mut Economy)
        requires
            old(self).can_update(&*old(world)),
        ensures
            *final(world) == *old(world),
            *final(economy) == *old(economy),
            spec_updated(*old(self), *final(self), *old(world)),
    {
        self.age = self.age + 1;
        if self.age > 0 && self.age % 365 == 0 {
            self.reliability = if self.reliability >= 5 { self.reliability - 5 } else { 0 };
        }
        if BREAKDOWNS_ENABLED && self.age - self.last_service > 180 {
            if (random_range(0, 256) as u8) > self.reliability {
                self.state = VehicleState::Broken;
                return;
            }
        }
        match self.state {
            VehicleState::Idle => {
                if self.route.len() > 0 {
                    self.start_moving_to_next_station();
                }
            },
            VehicleState::Moving { from, to, progress } => {
                let p = progress + self.speed;
                if p >= 1000 {
                    self.x = to.0;
                    self.y = to.1;
                    self.state = VehicleState::Loading;
                } else {
                    self.state = VehicleState::Moving { from, to, progress: p };
                }
            },
            VehicleState::Loading => {
                self.load_cargo_at_station(world);
                self.state = VehicleState::Idle;
                self.route_index = (self.route_index + 1) % self.route.len();
            },
            VehicleState::Unloading => {
                self.unload_cargo_at_station(world, economy);
                self.state = VehicleState::Idle;
            },
            VehicleState::Broken => {
                if random_range(0, 256) < 10 {
                    self.state = VehicleState::Idle;
                    self.last_service = self.age;
                    let r = self.reliability + 20;
                    self.reliability = if r > 100 { 100 } else { r };
                }
            },
        }
    }

    /// An idle vehicle sets off towards the current stop of its route, if there is one.
    fn start_moving_to_next_station(&mut self)
        ensures
            final(self).state == if old(self).route_index < old(self).route@.len() {
                VehicleState::Moving { from: (old(self).x, old(self).y), to: old(self).route@[old(self).route_index as int], progress: 0 }
            } else {
                old(self).state
            },
            *final(self) == (Vehicle { state: final(self).state, ..*old(self) }),
    {
        if self.route_index < self.route.len() {
            let next_station = self.route[self.route_index];
            self.state = VehicleState::Moving { from: (self.x, self.y), to: next_station, progress: 0 };
        }
    }

    /// Takes on the cargo waiting at the station the vehicle stands on.
    fn load_cargo_at_station(&mut self, world: &World)
        requires
            old(self).load_fits(world),
        ensures
            *final(self) == (Vehicle { cargo: final(self).cargo, ..*old(self) }),
            if grid_has(world.tiles@, old(self).x as int, old(self).y as int)
                && grid_at(world.tiles@, old(self).x as int, old(self).y as int).content is Station {
                let st = grid_at(world.tiles@, old(self).x as int, old(self).y as int).content->Station_0;
                forall|c: CargoType| #[trigger] final(self).cargo.get(c) == spec_loaded(old(self).cargo, st.cargo_waiting,
                    spec_capacity(old(self).vehicle_type) - old(self).cargo.total(), c)
            } else {
                final(self).cargo == old(self).cargo
            },
    {
        if let Some(tile) = world.get_tile(self.x, self.y) {
            if let TileContent::Station(station) = &tile.content {
                let available_capacity = self.get_capacity() - self.cargo.sum() as u32;
                let ghost start = self.cargo;
                let mut i: usize = 0;
                while i < 9
                    invariant
                        0 <= i <= 9,
                        *self == (Vehicle { cargo: self.cargo, ..*old(self) }),
                        start == old(self).cargo,
                        available_capacity == spec_capacity(old(self).vehicle_type) - start.total(),
                        forall|c: CargoType| #[trigger] spec_loaded(start, station.cargo_waiting, available_capacity as int, c) <= u32::MAX,
                        forall|c: CargoType| #[trigger] self.cargo.get(c) == if spec_cargo_index(c) < i {
                            spec_loaded(start, station.cargo_waiting, available_capacity as int, c)
                        } else {
                            start.get(c) as int
                        },
                    decreases 9 - i,
                {
                    let cargo_type = CargoType::from_index(i);
                    let amount = station.cargo_waiting.amount(cargo_type);
                    let to_load = if amount < available_capacity { amount } else { available_capacity };
                    assert(spec_loaded(start, station.cargo_waiting, available_capacity as int, cargo_type) <= u32::MAX);
                    if to_load > 0 {
                        self.cargo.add(cargo_type, to_load);
                    }
                    i = i + 1;
                }
            }
        }
    }

    /// Empties the hold; a vehicle that carried anything books one more delivery, which
    /// is on time with probability one in five, and earns the delivery profit of its
    /// (now empty) hold.
    fn unload_cargo_at_station(&mut self, _world: &World, _economy: &Economy)
        requires
            old(self).total_deliveries < u32::MAX,
            old(self).on_time_deliveries < u32::MAX,
            old(self).profit + spec_route_bonus(old(self).route@) <= i64::MAX,
        ensures
            final(self).cargo.is_empty(),
            if old(self).cargo.total() > 0 {
                &&& final(self).total_deliveries == old(self).total_deliveries + 1
                &&& (final(self).on_time_deliveries == old(self).on_time_deliveries
                    || final(self).on_time_deliveries == old(self).on_time_deliveries + 1)
                &&& final(self).profit == old(self).profit + spec_delivery_profit(final(self).cargo, old(self).route@)
            } else {
                &&& final(self).total_deliveries == old(self).total_deliveries
                &&& final(self).on_time_deliveries == old(self).on_time_deliveries
                &&& final(self).profit == old(self).profit
            },
            *final(self) == (Vehicle {
                cargo: final(self).cargo,
                total_deliveries: final(self).total_deliveries,
                on_time_deliveries: final(self).on_time_deliveries,
                profit: final(self).profit,
                ..*old(self)
            }),
    {
        let delivered = self.cargo.sum();
        self.cargo.clear();
        if delivered > 0 {
            self.total_deliveries = self.total_deliveries + 1;
            if random_range(0, 10) >= 8 {
                self.on_time_deliveries = self.on_time_deliveries + 1;
            }
            proof {
                lemma_route_milli_bounds(self.route@);
            }
            let delivery_profit = self.calculate_delivery_profit();
            self.profit = self.profit + delivery_profit;
        }
    }

    /// Speed and reliability of a new vehicle of the given type.
    fn get_vehicle_stats(vehicle_type: &VehicleType) -> (r: (u32, u8))
        ensures
            r == spec_vehicle_stats(*vehicle_type),
    {
        match vehicle_type {
            VehicleType::Train { engine, .. } => match engine {
                TrainEngine::Steam { reliability, .. } => (60, *reliability),
                TrainEngine::Diesel { reliability, .. } => (80, *reliability),
                TrainEngine::Electric { reliability, .. } => (100, *reliability),
            },
            VehicleType::Road { truck_type } => match truck_type {
                TruckType::SmallTruck { .. } => (90, 85),
                TruckType::LargeTruck { .. } => (70, 80),
                TruckType::Bus { .. } => (85, 88),
            },
            VehicleType::Ship { .. } => (40, 90),
            VehicleType::Aircraft { plane_type } => match plane_type {
                PlaneType::SmallPlane { .. } => (300, 75),
                PlaneType::LargePlane { .. } => (250, 85),
            },
        }
    }
}

pub(crate) proof fn lemma_cars_capacity_prefix(cars: Seq<TrainCar>, i: int)
    requires
        0 <= i <= cars.len(),
    ensures
        spec_cars_capacity(cars.take(i)) <= spec_cars_capacity(cars),
        spec_cars_capacity(cars.take(i)) >= 0,
    decreases cars.len() - i,
{
    if i < cars.len() {
        assert(cars.take(i + 1).drop_last() =~= cars.take(i));
        lemma_cars_capacity_prefix(cars, i + 1);
    } else {
        assert(cars.take(i) =~= cars);
    }
    lemma_cars_capacity_nonneg(cars.take(i));
}

pub(crate) proof fn lemma_cars_capacity_nonneg(cars: Seq<TrainCar>)
    ensures
        spec_cars_capacity(cars) >= 0,
    decreases cars.len(),
{
    if cars.len() > 0 {
        lemma_cars_capacity_nonneg(cars.drop_last());
    }
}

proof fn lemma_cars_cost_prefix(cars: Seq<TrainCar>, i: int)
    requires
        0 <= i <= cars.len(),
    ensures
        spec_cars_cost(cars.take(i)) <= spec_cars_cost(cars),
    decreases cars.len() - i,
{
    if i < cars.len() {
        assert(cars.take(i + 1).drop_last() =~= cars.take(i));
        lemma_cars_cost_prefix(cars, i + 1);
    } else {
        assert(cars.take(i) =~= cars);
    }
}

proof fn lemma_cars_cost_nonneg(cars: Seq<TrainCar>)
    ensures
        spec_cars_cost(cars) >= 0,
    decreases cars.len(),
{
    if cars.len() > 0 {
        lemma_cars_cost_nonneg(cars.drop_last());
    }
}

/// Every vehicle has a positive price.
pub proof fn lemma_purchase_cost_nonneg(vt: VehicleType)
    ensures
        spec_purchase_cost(vt) >= 0,
{
    match vt {
        VehicleType::Train { cars, .. } => lemma_cars_cost_nonneg(cars@),
        _ => {},
    }
}

} // verus!
