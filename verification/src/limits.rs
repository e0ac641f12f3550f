use vstd::prelude::*;
use crate::cargo::CargoType;
use crate::world::{World, Tile, TileContent, Industry, occurrences, count_cargo, industry_can_produce};
use crate::economy::{Economy, spec_tile_flow, spec_row_flow, spec_grid_flow, spec_world_flow, town_amount};
use crate::vehicle::{Vehicle, VehicleType, VehicleState, TruckType, ShipType, PlaneType, spec_capacity, spec_cars_capacity,
    spec_route_bonus, spec_aged_reliability, spec_loaded, lemma_cars_capacity_prefix, lemma_route_milli_bounds};
use crate::player::{Player, Route, spec_next_cargo_total, route_index_of};
use crate::ai::{AIPlayer, AIDifficulty, spec_ai_can_start, spec_decision_frequency, spec_worth_expanding, world_searchable, routes_expandable};

verus! {

/// The number of times `p` occurs in `s`.
pub fn count_position(s: &Vec<(usize, usize)>, p: (usize, usize)) -> (r: usize)
    ensures
        r == occurrences(s@, p),
{
    let mut n: usize = 0;
    let mut i: usize = 0;
    assert(s@.take(0) =~= Seq::<(usize, usize)>::empty());
    while i < s.len()
        invariant
            0 <= i <= s@.len(),
            n == occurrences(s@.take(i as int), p),
            n <= i,
        decreases s@.len() - i,
    {
        assert(s@.take(i + 1).drop_last() =~= s@.take(i as int));
        let q = s[i];
        if q.0 == p.0 && q.1 == p.1 {
            n = n + 1;
        }
        i = i + 1;
    }
    assert(s@.take(s@.len() as int) =~= s@);
    n
}

/// The number of times `c` occurs in `s`.
pub fn count_cargo_kind(s: &Vec<CargoType>, c: CargoType) -> (r: usize)
    ensures
        r == count_cargo(s@, c),
        r <= s@.len(),
{
    let mut n: usize = 0;
    let mut i: usize = 0;
    assert(s@.take(0) =~= Seq::<CargoType>::empty());
    while i < s.len()
        invariant
            0 <= i <= s@.len(),
            n == count_cargo(s@.take(i as int), c),
            n <= i,
        decreases s@.len() - i,
    {
        assert(s@.take(i + 1).drop_last() =~= s@.take(i as int));
        if s[i] == c {
            n = n + 1;
        }
        i = i + 1;
    }
    assert(s@.take(s@.len() as int) =~= s@);
    n
}

/// Whether `stock + k * rate * n` stays within `u32::MAX`.
fn stock_fits(stock: u32, k: usize, rate: u32, n: usize) -> (r: bool)
    ensures
        r == (stock + k * rate * n <= u32::MAX),
{
    if k == 0 || rate == 0 || n == 0 {
        assert(k * rate * n == 0) by (nonlinear_arith)
            requires
                k == 0 || rate == 0 || n == 0,
        ;
        true
    } else if k > 0xFFFF_FFFF || n > 0xFFFF_FFFF {
        assert(k * rate * n >= k && k * rate * n >= n) by (nonlinear_arith)
            requires
                k >= 1,
                rate >= 1,
                n >= 1,
        ;
        false
    } else {
        assert((k as u128) * (rate as u128) <= 0xFFFF_FFFF * 0xFFFF_FFFF) by (nonlinear_arith)
            requires
                k <= 0xFFFF_FFFF,
                rate <= 0xFFFF_FFFF,
        ;
        let kr = (k as u128) * (rate as u128);
        assert(kr * (n as u128) <= 0xFFFF_FFFF * 0xFFFF_FFFF * 0xFFFF_FFFF) by (nonlinear_arith)
            requires
                kr <= 0xFFFF_FFFF * 0xFFFF_FFFF,
                n <= 0xFFFF_FFFF,
        ;
        let prod = kr * (n as u128);
        (stock as u128) + prod <= 0xFFFF_FFFF
    }
}

impl Industry {
    /// Whether the stockpile of `c` can take `k` production ticks.
    fn output_fits(&self, k: usize, c: CargoType) -> (r: bool)
        ensures
            r == (self.stockpile.get(c) + k * self.production_rate * count_cargo(self.cargo_output@, c) <= u32::MAX),
    {
        let n = count_cargo_kind(&self.cargo_output, c);
        stock_fits(self.stockpile.amount(c), k, self.production_rate, n)
    }

    /// Whether the industry's stockpiles can take `k` production ticks (see
    /// `industry_can_produce`).
    pub fn can_produce(&self, k: usize) -> (r: bool)
        ensures
            r == industry_can_produce(*self, k as nat),
    {
        if self.cargo_input.len() != 0 {
            return true;
        }
        let a = self.output_fits(k, CargoType::Passengers);
        let b = self.output_fits(k, CargoType::Mail);
        let c = self.output_fits(k, CargoType::Coal);
        let d = self.output_fits(k, CargoType::IronOre);
        let e = self.output_fits(k, CargoType::Steel);
        let f = self.output_fits(k, CargoType::Wood);
        let g = self.output_fits(k, CargoType::Oil);
        let h = self.output_fits(k, CargoType::Goods);
        let i = self.output_fits(k, CargoType::Food);
        let r = a && b && c && d && e && f && g && h && i;
        proof {
            if r {
                assert forall|cargo: CargoType| #[trigger] self.stockpile.get(cargo)
                    + k * self.production_rate * count_cargo(self.cargo_output@, cargo) <= u32::MAX by {
                    match cargo {
                        CargoType::Passengers => {},
                        CargoType::Mail => {},
                        CargoType::Coal => {},
                        CargoType::IronOre => {},
                        CargoType::Steel => {},
                        CargoType::Wood => {},
                        CargoType::Oil => {},
                        CargoType::Goods => {},
                        CargoType::Food => {},
                    }
                }
            }
        }
        r
    }
}

/// A tile can take its production ticks: if it holds an industry, its stockpiles can take
/// one tick for each time its position is listed among the industries.
pub open spec fn spec_tile_can_produce(w: World, x: usize, y: usize) -> bool {
    w.tile_at(x as int, y as int).content matches TileContent::Industry(ind)
        ==> industry_can_produce(ind, occurrences(w.industries@, (x, y)))
}

impl World {
    /// Whether a world tick can run without overflow (see `World::production_fits`).
    pub fn production_within_limits(&self) -> (r: bool)
        ensures
            r == self.production_fits(),
    {
        let mut y: usize = 0;
        while y < self.tiles.len()
            invariant
                0 <= y <= self.tiles@.len(),
                forall|xx: usize, yy: usize| #[trigger] self.in_bounds(xx as int, yy as int) && yy < y
                    ==> spec_tile_can_produce(*self, xx, yy),
            decreases self.tiles@.len() - y,
        {
            let mut x: usize = 0;
            while x < self.tiles[y].len()
                invariant
                    0 <= y < self.tiles@.len(),
                    0 <= x <= self.tiles@[y as int]@.len(),
                    forall|xx: usize, yy: usize| #[trigger] self.in_bounds(xx as int, yy as int) && (yy < y || (yy == y && xx < x))
                        ==> spec_tile_can_produce(*self, xx, yy),
                decreases self.tiles@[y as int]@.len() - x,
            {
                match &self.tiles[y][x].content {
                    TileContent::Industry(ind) => {
                        let k = count_position(&self.industries, (x, y));
                        if !ind.can_produce(k) {
                            assert(self.in_bounds(x as int, y as int));
                            assert(!spec_tile_can_produce(*self, x, y));
                            return false;
                        }
                    },
                    _ => {},
                }
                x = x + 1;
            }
            y = y + 1;
        }
        true
    }
}

/// What a tile adds to the demand or supply of a kind of cargo (see `spec_tile_flow`).
fn tile_flow(t: &Tile, c: CargoType, demand: bool) -> (r: u128)
    ensures
        r == spec_tile_flow(*t, c, demand),
        r < 0x1_0000_0000_0000_0000_0000_0000,
{
    match &t.content {
        TileContent::Town(town) => {
            let pop = town.population;
            if demand {
                match c {
                    CargoType::Passengers => town_amount(pop, 50) as u128,
                    CargoType::Mail => town_amount(pop, 20) as u128,
                    CargoType::Goods => town_amount(pop, 30) as u128,
                    CargoType::Food => town_amount(pop, 25) as u128,
                    _ => 0,
                }
            } else {
                match c {
                    CargoType::Passengers => town_amount(pop, 40) as u128,
                    CargoType::Mail => town_amount(pop, 15) as u128,
                    _ => 0,
                }
            }
        },
        TileContent::Industry(ind) => {
            if demand {
                0
            } else {
                let n = count_cargo_kind(&ind.cargo_output, c);
                assert((ind.production_rate as u128) * (n as u128) <= 0xFFFF_FFFF * 0xFFFF_FFFF_FFFF_FFFF) by (nonlinear_arith)
                    requires
                        ind.production_rate <= 0xFFFF_FFFF,
                        n <= 0xFFFF_FFFF_FFFF_FFFF,
                ;
                (ind.production_rate as u128) * (n as u128)
            }
        },
        _ => 0,
    }
}

proof fn lemma_tile_flow_nonneg(t: Tile, c: CargoType, demand: bool)
    ensures
        spec_tile_flow(t, c, demand) >= 0,
{
    match t.content {
        TileContent::Industry(ind) => {
            assert(ind.production_rate * count_cargo(ind.cargo_output@, c) >= 0) by (nonlinear_arith);
        },
        _ => {},
    }
}

proof fn lemma_row_flow_mono(w: World, y: int, n: int, m: int, c: CargoType, demand: bool)
    requires
        0 <= n <= m,
    ensures
        0 <= spec_row_flow(w, y, n, c, demand) <= spec_row_flow(w, y, m, c, demand),
    decreases m,
{
    if m > n {
        lemma_row_flow_mono(w, y, n, m - 1, c, demand);
        if crate::world::grid_has(w.tiles@, m - 1, y) {
            lemma_tile_flow_nonneg(crate::world::grid_at(w.tiles@, m - 1, y), c, demand);
        }
    } else if n > 0 {
        lemma_row_flow_mono(w, y, n - 1, n - 1, c, demand);
        if crate::world::grid_has(w.tiles@, n - 1, y) {
            lemma_tile_flow_nonneg(crate::world::grid_at(w.tiles@, n - 1, y), c, demand);
        }
    }
}

proof fn lemma_grid_flow_mono(w: World, a: int, b: int, c: CargoType, demand: bool)
    requires
        0 <= a <= b,
    ensures
        0 <= spec_grid_flow(w, a, c, demand) <= spec_grid_flow(w, b, c, demand),
    decreases b,
{
    if b > a {
        lemma_grid_flow_mono(w, a, b - 1, c, demand);
        lemma_row_flow_mono(w, b - 1, 0, w.width as int, c, demand);
    } else if a > 0 {
        lemma_grid_flow_mono(w, a - 1, a - 1, c, demand);
        lemma_row_flow_mono(w, a - 1, 0, w.width as int, c, demand);
    }
}

/// Whether the map's total demand (when `demand`) or supply of `c` fits in a `u32`.
fn flow_fits(world: &World, c: CargoType, demand: bool) -> (r: bool)
    ensures
        r == (spec_world_flow(*world, c, demand) <= u32::MAX),
{
    let mut acc: u128 = 0;
    let mut y: usize = 0;
    while y < world.height
        invariant
            0 <= y <= world.height,
            acc == spec_grid_flow(*world, y as int, c, demand),
            acc <= u32::MAX,
        decreases world.height - y,
    {
        let mut x: usize = 0;
        while x < world.width
            invariant
                0 <= y < world.height,
                0 <= x <= world.width,
                acc == spec_grid_flow(*world, y as int, c, demand) + spec_row_flow(*world, y as int, x as int, c, demand),
                acc <= u32::MAX,
            decreases world.width - x,
        {
            if y < world.tiles.len() && x < world.tiles[y].len() {
                let f = tile_flow(&world.tiles[y][x], c, demand);
                acc = acc + f;
                if acc > 0xFFFF_FFFF {
                    proof {
                        lemma_row_flow_mono(*world, y as int, x + 1, world.width as int, c, demand);
                        lemma_grid_flow_mono(*world, y + 1, world.height as int, c, demand);
                    }
                    return false;
                }
            }
            x = x + 1;
        }
        y = y + 1;
    }
    true
}

impl Economy {
    /// Whether the market can count the supply and demand of `world` (see
    /// `Economy::flows_fit`).
    pub fn flows_within_limits(world: &World) -> (r: bool)
        ensures
            r == Economy::flows_fit(*world),
    {
        let a = Self::cargo_flows_fit(world, CargoType::Passengers);
        let b = Self::cargo_flows_fit(world, CargoType::Mail);
        let c = Self::cargo_flows_fit(world, CargoType::Coal);
        let d = Self::cargo_flows_fit(world, CargoType::IronOre);
        let e = Self::cargo_flows_fit(world, CargoType::Steel);
        let f = Self::cargo_flows_fit(world, CargoType::Wood);
        let g = Self::cargo_flows_fit(world, CargoType::Oil);
        let h = Self::cargo_flows_fit(world, CargoType::Goods);
        let i = Self::cargo_flows_fit(world, CargoType::Food);
        let r = a && b && c && d && e && f && g && h && i;
        proof {
            if r {
                assert forall|cargo: CargoType| #![trigger spec_world_flow(*world, cargo, true)]
                    spec_world_flow(*world, cargo, true) <= u32::MAX && spec_world_flow(*world, cargo, false) <= u32::MAX by {
                    match cargo {
                        CargoType::Passengers => {},
                        CargoType::Mail => {},
                        CargoType::Coal => {},
                        CargoType::IronOre => {},
                        CargoType::Steel => {},
                        CargoType::Wood => {},
                        CargoType::Oil => {},
                        CargoType::Goods => {},
                        CargoType::Food => {},
                    }
                }
            }
        }
        r
    }

    /// Whether the map's demand and supply of `c` both fit in a `u32`.
    fn cargo_flows_fit(world: &World, c: CargoType) -> (r: bool)
        ensures
            r == (spec_world_flow(*world, c, true) <= u32::MAX && spec_world_flow(*world, c, false) <= u32::MAX),
    {
        flow_fits(world, c, true) && flow_fits(world, c, false)
    }
}

/// The capacity of a vehicle type, when it fits in a `u32`.
fn capacity_within(vt: &VehicleType) -> (r: Option<u32>)
    ensures
        match r {
            Some(n) => n == spec_capacity(*vt),
            None => spec_capacity(*vt) > u32::MAX,
        },
{
    match vt {
        VehicleType::Train { cars, .. } => {
            let mut total: u64 = 0;
            let mut i: usize = 0;
            assert(cars@.take(0) =~= Seq::<crate::vehicle::TrainCar>::empty());
            while i < cars.len()
                invariant
                    0 <= i <= cars@.len(),
                    total == spec_cars_capacity(cars@.take(i as int)),
                    total <= u32::MAX,
                    spec_capacity(*vt) == spec_cars_capacity(cars@),
                decreases cars@.len() - i,
            {
                assert(cars@.take(i + 1).drop_last() =~= cars@.take(i as int));
                let c: u32 = match cars[i] {
                    crate::vehicle::TrainCar::Passenger { capacity } => capacity,
                    crate::vehicle::TrainCar::Freight { capacity, .. } => capacity,
                    crate::vehicle::TrainCar::Mail { capacity } => capacity,
                };
                assert(cars@.take(i + 1).last() == cars@[i as int]);
                assert(spec_cars_capacity(cars@.take(i + 1)) == spec_cars_capacity(cars@.take(i as int))
                    + crate::vehicle::spec_car_capacity(cars@[i as int]));
                total = total + c as u64;
                i = i + 1;
                if total > 0xFFFF_FFFF {
                    proof {
                        lemma_cars_capacity_prefix(cars@, i as int);
                        assert(total == spec_cars_capacity(cars@.take(i as int)));
                        assert(spec_cars_capacity(cars@) > u32::MAX);
                        assert(spec_capacity(*vt) == spec_cars_capacity(cars@));
                    }
                    return None;
                }
            }
            assert(cars@.take(cars@.len() as int) =~= cars@);
            Some(total as u32)
        },
        VehicleType::Road { truck_type } => match truck_type {
            TruckType::SmallTruck { capacity } => Some(*capacity),
            TruckType::LargeTruck { capacity } => Some(*capacity),
            TruckType::Bus { capacity } => Some(*capacity),
        },
        VehicleType::Ship { ship_type } => match ship_type {
            ShipType::CargoShip { capacity } => Some(*capacity),
            ShipType::PassengerShip { capacity } => Some(*capacity),
        },
        VehicleType::Aircraft { plane_type } => match plane_type {
            PlaneType::SmallPlane { capacity, .. } => Some(*capacity),
            PlaneType::LargePlane { capacity, .. } => Some(*capacity),
        },
    }
}

/// `cargo.get(c)` plus what loading adds of `c` with `room` left.
fn loaded_amount(have: u32, waiting: u32, room: u64) -> (r: u64)
    ensures
        r == have + if waiting < room { waiting as int } else { room as int },
{
    if (waiting as u64) < room { have as u64 + waiting as u64 } else {
        assert(room <= 0xFFFF_FFFF);
        have as u64 + room
    }
}

impl Vehicle {
    /// The route bonus of the vehicle's route (see `spec_route_bonus`).
    fn route_bonus(&self) -> (r: u64)
        ensures
            r == spec_route_bonus(self.route@),
            r <= 0x7FFF_FFFF_FFFF_FFFF,
    {
        if self.route.len() > 1 {
            (self.calculate_route_distance() / 1000) * 5
        } else {
            0
        }
    }

    /// Whether loading at the vehicle's tile fits (see `Vehicle::load_fits`), and, if so,
    /// the cargo it holds after that tick (see `spec_next_cargo_total`) when loading there.
    fn loading_check(&self, world: &World) -> (r: (bool, u64))
        ensures
            r.0 == self.load_fits(world),
            r.0 && self.state is Loading ==> r.1 == spec_next_cargo_total(*self, *world),
    {
        if self.y < world.tiles.len() && self.x < world.tiles[self.y].len() {
            match &world.tiles[self.y][self.x].content {
                TileContent::Station(st) => {
                    match capacity_within(&self.vehicle_type) {
                        None => (false, 0),
                        Some(cap) => {
                            let total = self.cargo.sum();
                            if total > cap as u64 {
                                return (false, 0);
                            }
                            let room: u64 = cap as u64 - total;
                            let w = st.cargo_waiting;
                            let k = self.cargo;
                            let a = loaded_amount(k.amount(CargoType::Passengers), w.amount(CargoType::Passengers), room);
                            let b = loaded_amount(k.amount(CargoType::Mail), w.amount(CargoType::Mail), room);
                            let c = loaded_amount(k.amount(CargoType::Coal), w.amount(CargoType::Coal), room);
                            let d = loaded_amount(k.amount(CargoType::IronOre), w.amount(CargoType::IronOre), room);
                            let e = loaded_amount(k.amount(CargoType::Steel), w.amount(CargoType::Steel), room);
                            let f = loaded_amount(k.amount(CargoType::Wood), w.amount(CargoType::Wood), room);
                            let g = loaded_amount(k.amount(CargoType::Oil), w.amount(CargoType::Oil), room);
                            let h = loaded_amount(k.amount(CargoType::Goods), w.amount(CargoType::Goods), room);
                            let i = loaded_amount(k.amount(CargoType::Food), w.amount(CargoType::Food), room);
                            let lim: u64 = 0xFFFF_FFFF;
                            let ok = a <= lim && b <= lim && c <= lim && d <= lim && e <= lim && f <= lim && g <= lim
                                && h <= lim && i <= lim;
                            proof {
                                let rm = spec_capacity(self.vehicle_type) - self.cargo.total();
                                if ok {
                                    assert forall|cargo: CargoType| #[trigger] spec_loaded(self.cargo, st.cargo_waiting, rm, cargo) <= u32::MAX by {
                                        match cargo {
                                            CargoType::Passengers => {},
                                            CargoType::Mail => {},
                                            CargoType::Coal => {},
                                            CargoType::IronOre => {},
                                            CargoType::Steel => {},
                                            CargoType::Wood => {},
                                            CargoType::Oil => {},
                                            CargoType::Goods => {},
                                            CargoType::Food => {},
                                        }
                                    }
                                } else {
                                    assert(!(spec_loaded(self.cargo, st.cargo_waiting, rm, CargoType::Passengers) <= u32::MAX
                                        && spec_loaded(self.cargo, st.cargo_waiting, rm, CargoType::Mail) <= u32::MAX
                                        && spec_loaded(self.cargo, st.cargo_waiting, rm, CargoType::Coal) <= u32::MAX
                                        && spec_loaded(self.cargo, st.cargo_waiting, rm, CargoType::IronOre) <= u32::MAX
                                        && spec_loaded(self.cargo, st.cargo_waiting, rm, CargoType::Steel) <= u32::MAX
                                        && spec_loaded(self.cargo, st.cargo_waiting, rm, CargoType::Wood) <= u32::MAX
                                        && spec_loaded(self.cargo, st.cargo_waiting, rm, CargoType::Oil) <= u32::MAX
                                        && spec_loaded(self.cargo, st.cargo_waiting, rm, CargoType::Goods) <= u32::MAX
                                        && spec_loaded(self.cargo, st.cargo_waiting, rm, CargoType::Food) <= u32::MAX));
                                }
                            }
                            if ok {
                                (true, a + b + c + d + e + f + g + h + i)
                            } else {
                                (false, 0)
                            }
                        },
                    }
                },
                _ => (true, self.cargo.sum()),
            }
        } else {
            (true, self.cargo.sum())
        }
    }

    /// Whether a tick of the vehicle on `world` can run: `Vehicle::can_update` holds and
    /// the cargo after the tick fits in a `u32`.
    pub fn tick_check(&self, world: &World) -> (r: bool)
        ensures
            r == (self.can_update(world) && spec_next_cargo_total(*self, *world) <= u32::MAX),
    {
        if self.age == u32::MAX {
            return false;
        }
        let bonus = self.route_bonus();
        let state_ok: bool = match self.state {
            VehicleState::Idle => true,
            VehicleState::Moving { progress, .. } => (progress as u64) + (self.speed as u64) <= 0xFFFF_FFFF,
            VehicleState::Loading => self.route.len() > 0 && self.route_index < usize::MAX,
            VehicleState::Unloading => {
                self.total_deliveries < u32::MAX && self.on_time_deliveries < u32::MAX
                    && (self.profit as i128) + (bonus as i128) <= 0x7FFF_FFFF_FFFF_FFFF
            },
            VehicleState::Broken => {
                let aged: u8 = if (self.age as u64 + 1) % 365 == 0 {
                    if self.reliability >= 5 { self.reliability - 5 } else { 0 }
                } else {
                    self.reliability
                };
                (aged as u16) + 20 <= 255
            },
        };
        if !state_ok {
            return false;
        }
        let (fits, loaded) = self.loading_check(world);
        let next: u64 = match self.state {
            VehicleState::Loading => {
                if !fits {
                    return false;
                }
                loaded
            },
            VehicleState::Unloading => 0,
            _ => self.cargo.sum(),
        };
        next <= 0xFFFF_FFFF
    }
}

impl Player {
    /// Whether a tick of the company on `world` can run (see `Player::can_update`).
    pub fn can_tick(&self, world: &World) -> (r: bool)
        ensures
            r == self.can_update(world),
    {
        if self.game_time == u32::MAX {
            return false;
        }
        let ghost vs = self.vehicles@;
        let mut i: usize = 0;
        while i < self.vehicles.len()
            invariant
                0 <= i <= vs.len(),
                vs == self.vehicles@,
                forall|j: int| 0 <= j < i ==> (#[trigger] vs[j]).can_update(world) && spec_next_cargo_total(vs[j], *world) <= u32::MAX,
            decreases vs.len() - i,
        {
            if !self.vehicles[i].tick_check(world) {
                return false;
            }
            i = i + 1;
        }
        true
    }
}

/// Whether every route worth a further vehicle has its first stop (see
/// `routes_expandable`).
pub(crate) fn routes_expandable_check(p: &Player) -> (r: bool)
    ensures
        r == routes_expandable(p.routes@),
{
    let mut i: usize = 0;
    while i < p.routes.len()
        invariant
            0 <= i <= p.routes@.len(),
            forall|j: int| 0 <= j < i && #[trigger] spec_worth_expanding(p.routes@[j]) ==> p.routes@[j].stations@.len() > 0,
        decreases p.routes@.len() - i,
    {
        if p.routes[i].profit > 100000 && p.routes[i].vehicle_ids.len() < 3 && p.routes[i].stations.len() == 0 {
            assert(spec_worth_expanding(p.routes@[i as int]));
            return false;
        }
        i = i + 1;
    }
    true
}

impl AIPlayer {
    /// Whether a tick of the computer company on `world` can start (see
    /// `spec_ai_can_start`); whether its decision can then run depends on what the tick
    /// leaves (see `AIPlayer::try_update`).
    pub fn can_tick(&self, world: &World) -> (r: bool)
        ensures
            r == spec_ai_can_start(*self, *world),
    {
        if !self.player.can_tick(world) || self.decision_timer == u32::MAX {
            return false;
        }
        let frequency: u32 = match self.difficulty {
            AIDifficulty::Easy => 300,
            AIDifficulty::Medium => 200,
            AIDifficulty::Hard => 100,
        };
        if self.decision_timer + 1 >= frequency {
            world.width <= 0x7FFF_FFF0 && world.height <= 0x7FFF_FFF0 && world.width > 0 && world.height > 0
        } else {
            true
        }
    }
}

} // verus!
