use vstd::prelude::*;
use crate::cargo::{CargoType, CargoAmounts, CARGO_KINDS, spec_cargo_index, spec_cargo_at};
use crate::world::{World, Tile, TileContent, Town, Industry, count_cargo, grid_has, grid_at};
use crate::rng::random_range;

verus! {

/// The market for one kind of cargo. `price_multiplier` is in thousandths
/// (1000 leaves the price as it is).
#[derive(Clone, Copy, Debug)]
pub struct SupplyDemand {
    pub supply: u32,
    pub demand: u32,
    pub price_multiplier: u32,
}

#[derive(Clone, Copy, Debug, PartialEq, Eq, Structural)]
pub enum EconomicState {
    Boom,
    Stable,
    Recession,
}

#[derive(Clone, Copy, Debug, PartialEq, Eq, Structural)]
pub enum PriceTrend {
    Rising,
    Stable,
    Falling,
}

/// The market for one kind of cargo; the price is in thousandths of a money unit.
#[derive(Clone, Copy, Debug)]
pub struct MarketInfo {
    pub cargo_type: CargoType,
    pub current_price: u64,
    pub supply: u32,
    pub demand: u32,
    pub price_trend: PriceTrend,
}

/// A summary of the economy; prices are in thousandths of a money unit.
#[derive(Debug)]
pub struct EconomicReport {
    pub economic_state: EconomicState,
    pub inflation_rate: u32,
    pub month: u32,
    pub top_commodities: Vec<(CargoType, u64)>,
}

/// The economy. Prices are in thousandths of a money unit per unit of cargo, indexed by
/// cargo kind; `inflation_rate` is the monthly price rise in thousandths (20 is 2%).
pub struct Economy {
    pub cargo_prices: [u64; 9],
    pub supply_demand: [SupplyDemand; 9],
    pub inflation_rate: u32,
    pub economic_state: EconomicState,
    pub month: u32,
}

/// Starting price of each kind of cargo, in thousandths.
pub open spec fn spec_initial_price(c: CargoType) -> u64 {
    match c {
        CargoType::Passengers => 5000,
        CargoType::Mail => 8000,
        CargoType::Coal => 3000,
        CargoType::IronOre => 4000,
        CargoType::Steel => 12000,
        CargoType::Wood => 6000,
        CargoType::Oil => 8000,
        CargoType::Goods => 15000,
        CargoType::Food => 7000,
    }
}

/// A town's contribution: `per_thousand` units for each thousand inhabitants, counting
/// a town of fewer than 100 as 100, rounded down.
pub open spec fn spec_town_amount(population: u32, per_thousand: int) -> int {
    let p = if population < 100 { 100 } else { population as int };
    p * per_thousand / 1000
}

/// What a tile adds to the demand (when `demand`) or supply of a kind of cargo: towns
/// want passengers, mail, goods and food and offer passengers and mail in proportion to
/// their population; industries offer their production of each output.
pub open spec fn spec_tile_flow(t: Tile, c: CargoType, demand: bool) -> int {
    match t.content {
        TileContent::Town(town) => if demand {
            match c {
                CargoType::Passengers => spec_town_amount(town.population, 50),
                CargoType::Mail => spec_town_amount(town.population, 20),
                CargoType::Goods => spec_town_amount(town.population, 30),
                CargoType::Food => spec_town_amount(town.population, 25),
                _ => 0,
            }
        } else {
            match c {
                CargoType::Passengers => spec_town_amount(town.population, 40),
                CargoType::Mail => spec_town_amount(town.population, 15),
                _ => 0,
            }
        },
        TileContent::Industry(ind) => if demand { 0 } else { ind.production_rate * count_cargo(ind.cargo_output@, c) },
        _ => 0,
    }
}

/// Whether a tile takes part in the demand (when `demand`) or supply of a kind of cargo.
pub open spec fn spec_tile_present(t: Tile, c: CargoType, demand: bool) -> bool {
    match t.content {
        TileContent::Town(_) => if demand {
            c == CargoType::Passengers || c == CargoType::Mail || c == CargoType::Goods || c == CargoType::Food
        } else {
            c == CargoType::Passengers || c == CargoType::Mail
        },
        TileContent::Industry(ind) => !demand && ind.cargo_output@.contains(c),
        _ => false,
    }
}

/// Sum of `spec_tile_flow` over the first `n` columns of row `y`.
pub open spec fn spec_row_flow(w: World, y: int, n: int, c: CargoType, demand: bool) -> int
    decreases n,
{
    if n <= 0 {
        0
    } else {
        spec_row_flow(w, y, n - 1, c, demand)
            + if grid_has(w.tiles@, n - 1, y) { spec_tile_flow(grid_at(w.tiles@, n - 1, y), c, demand) } else { 0 }
    }
}

/// Sum of `spec_tile_flow` over the first `m` rows, `width` columns each.
pub open spec fn spec_grid_flow(w: World, m: int, c: CargoType, demand: bool) -> int
    decreases m,
{
    if m <= 0 { 0 } else { spec_grid_flow(w, m - 1, c, demand) + spec_row_flow(w, m - 1, w.width as int, c, demand) }
}

/// Some tile among the first `n` columns of row `y` takes part.
pub open spec fn spec_row_present(w: World, y: int, n: int, c: CargoType, demand: bool) -> bool
    decreases n,
{
    if n <= 0 {
        false
    } else {
        spec_row_present(w, y, n - 1, c, demand)
            || (grid_has(w.tiles@, n - 1, y) && spec_tile_present(grid_at(w.tiles@, n - 1, y), c, demand))
    }
}

/// Some tile among the first `m` rows takes part.
pub open spec fn spec_grid_present(w: World, m: int, c: CargoType, demand: bool) -> bool
    decreases m,
{
    if m <= 0 { false } else { spec_grid_present(w, m - 1, c, demand) || spec_row_present(w, m - 1, w.width as int, c, demand) }
}

/// The total demand (when `demand`) or supply of a kind of cargo over the map.
pub open spec fn spec_world_flow(w: World, c: CargoType, demand: bool) -> int {
    spec_grid_flow(w, w.height as int, c, demand)
}

/// Some tile of the map takes part in the demand or supply of a kind of cargo.
pub open spec fn spec_world_present(w: World, c: CargoType, demand: bool) -> bool {
    spec_grid_present(w, w.height as int, c, demand)
}

/// Price multiplier, in thousandths, for the given supply and demand: demand over supply,
/// rounded down and kept between 500 and 1500; without supply it is 1500.
pub open spec fn spec_multiplier(supply: u32, demand: u32) -> u32 {
    if supply == 0 {
        1500
    } else {
        let r = (demand as int) * 1000 / (supply as int);
        if r > 1500 { 1500 } else if r < 500 { 500 } else { r as u32 }
    }
}

/// `price * factor / 1000`, rounded down to a whole thousandth, stopping at `u64::MAX`
/// (see `lemma_scaling_rounds_down`).
pub open spec fn spec_scale_price(price: u64, factor: int) -> u64 {
    let p = price * factor / 1000;
    if p > u64::MAX { u64::MAX } else { p as u64 }
}

/// Demand after a month in the given state: a tenth more in a boom, a tenth less in a
/// recession, rounded down and stopping at `u32::MAX`.
pub open spec fn spec_monthly_demand(demand: u32, state: EconomicState) -> u32 {
    match state {
        EconomicState::Boom => {
            let d = demand * 11 / 10;
            if d > u32::MAX { u32::MAX } else { d as u32 }
        },
        EconomicState::Recession => (demand * 9 / 10) as u32,
        EconomicState::Stable => demand,
    }
}

/// The economic state for a roll in `0..10`: boom for 0 to 2, stable for 3 to 6,
/// recession otherwise.
pub open spec fn spec_state_for_roll(roll: int) -> EconomicState {
    if roll <= 2 {
        EconomicState::Boom
    } else if roll <= 6 {
        EconomicState::Stable
    } else {
        EconomicState::Recession
    }
}

/// Price trend for a multiplier in thousandths.
pub open spec fn spec_price_trend(multiplier: u32) -> PriceTrend {
    if multiplier > 1200 {
        PriceTrend::Rising
    } else if multiplier < 800 {
        PriceTrend::Falling
    } else {
        PriceTrend::Stable
    }
}

/// The multiplier, in tenths, of the economic state.
pub open spec fn spec_state_factor(state: EconomicState) -> int {
    match state {
        EconomicState::Boom => 12,
        EconomicState::Stable => 10,
        EconomicState::Recession => 8,
    }
}

/// Price per unit, in thousandths, of carrying a kind of cargo over a distance given in
/// thousandths of a tile: the base price, raised by one percent per tile up to half again
/// at 50 tiles, times the factor of the economic state, rounded down and stopping at
/// `u64::MAX`.
pub open spec fn spec_cargo_price(base: u64, distance_milli: u64, state: EconomicState) -> u64 {
    let m = if distance_milli > 50000 { 50000 } else { distance_milli as int };
    let p = base * (100000 + m) * spec_state_factor(state) / 1000000;
    if p > u64::MAX { u64::MAX } else { p as u64 }
}

/// Payment for a delivery: the price per unit times the quantity, in whole money units,
/// rounded down and stopping at `i64::MAX`.
pub open spec fn spec_delivery_payment(price_milli: u64, quantity: u32) -> i64 {
    let p = price_milli * quantity / 1000;
    if p > i64::MAX { i64::MAX } else { p as i64 }
}

/// Price of a kind of cargo after the monthly step of a tick that ends in month `month`.
pub open spec fn spec_price_after_month(e: Economy, c: CargoType, month: u32) -> u64 {
    if month % 30 == 0 { spec_scale_price(e.price(c), 1000 + e.inflation_rate) } else { e.price(c) }
}

/// Demand for a kind of cargo after the monthly step of a tick that ends in month `month`.
pub open spec fn spec_demand_after_month(e: Economy, c: CargoType, month: u32) -> u32 {
    if month % 30 == 0 { spec_monthly_demand(e.market(c).demand, e.economic_state) } else { e.market(c).demand }
}

/// Supply of a kind of cargo after a tick on `w`.
pub open spec fn spec_supply_after(e: Economy, w: World, c: CargoType) -> u32 {
    if spec_world_present(w, c, false) { spec_world_flow(w, c, false) as u32 } else { e.market(c).supply }
}

/// Demand for a kind of cargo after a tick on `w` that ends in month `month`.
pub open spec fn spec_demand_after(e: Economy, w: World, c: CargoType, month: u32) -> u32 {
    if spec_world_present(w, c, true) { spec_world_flow(w, c, true) as u32 } else { spec_demand_after_month(e, c, month) }
}

/// The market for a kind of cargo after a tick on `w` that ends in month `month`.
pub open spec fn spec_market_after(e: Economy, w: World, c: CargoType, month: u32) -> SupplyDemand {
    let supply = spec_supply_after(e, w, c);
    let demand = spec_demand_after(e, w, c, month);
    SupplyDemand { supply, demand, price_multiplier: spec_multiplier(supply, demand) }
}

/// The top five commodities by price, dearest first, with their prices: each entry is
/// priced at least as high as every cargo not listed before it.
pub open spec fn is_top_five(e: Economy, r: Seq<(CargoType, u64)>) -> bool {
    &&& r.len() == 5
    &&& forall|k: int| 0 <= k < 5 ==> (#[trigger] r[k]).1 == e.price(r[k].0)
    &&& forall|k: int, j: int| 0 <= j < k < 5 ==> (#[trigger] r[j]).0 != (#[trigger] r[k]).0
    &&& forall|k: int, c: CargoType| #![trigger e.price(c), r[k]] 0 <= k < 5 && (forall|j: int| 0 <= j < k ==> (#[trigger] r[j]).0 != c)
        ==> e.price(c) <= r[k].1
}

/// No pick among the first `k` is `c`.
spec fn untaken(r: Seq<(CargoType, u64)>, k: int, c: CargoType) -> bool {
    forall|j: int| 0 <= j < k ==> #[trigger] r[j].0 != c
}

/// The position among the first `k` picks at which `c` was picked, if it was.
spec fn pick_of(r: Seq<(CargoType, u64)>, k: int, c: CargoType) -> int {
    choose|j: int| 0 <= j < k && #[trigger] r[j].0 == c
}

/// Fewer than nine picks leave some kind untaken.
proof fn lemma_untaken_exists(r: Seq<(CargoType, u64)>, k: int)
    requires
        0 <= k < 9,
        r.len() == k,
    ensures
        exists|c: CargoType| #[trigger] untaken(r, k, c),
{
    if !(exists|c: CargoType| #[trigger] untaken(r, k, c)) {
        let f = |i: int| pick_of(r, k, spec_cargo_at(i));
        let dom = Set::new(|i: int| 0 <= i < 9);
        let s = Set::new(|j: int| 0 <= j < k);
        assert forall|i: int| 0 <= i < 9 implies 0 <= #[trigger] f(i) < k && r[f(i)].0 == spec_cargo_at(i) by {
            assert(!untaken(r, k, spec_cargo_at(i)));
        }
        assert(s =~= vstd::set_lib::set_int_range(0, k));
        vstd::set_lib::lemma_int_range(0, k);
        assert(dom =~= vstd::set_lib::set_int_range(0, 9));
        vstd::set_lib::lemma_int_range(0, 9);
        let img = dom.map(f);
        assert(img.subset_of(s)) by {
            assert forall|j: int| img.contains(j) implies s.contains(j) by {
                let i = choose|i: int| dom.contains(i) && f(i) == j;
                assert(0 <= f(i) < k);
            }
        }
        assert(vstd::relations::injective_on(f, dom)) by {
            assert forall|a: int, b: int| dom.contains(a) && dom.contains(b) && #[trigger] f(a) == #[trigger] f(b) implies a == b by {
                assert(r[f(a)].0 == spec_cargo_at(a));
                assert(r[f(b)].0 == spec_cargo_at(b));
                if a != b {
                    assert(spec_cargo_at(a) != spec_cargo_at(b));
                }
            }
        }
        vstd::set_lib::lemma_map_size(dom, img, f);
        vstd::set_lib::lemma_len_subset(img, s);
    }
}

/// A running total per kind of cargo, remembering which kinds were touched.
struct Tally {
    sums: CargoAmounts,
    seen: [bool; 9],
}

impl Tally {
    spec fn seen_kind(&self, c: CargoType) -> bool {
        self.seen@[spec_cargo_index(c)]
    }

    fn new() -> (t: Tally)
        ensures
            forall|c: CargoType| #[trigger] t.sums.get(c) == 0 && !t.seen_kind(c),
    {
        Tally { sums: CargoAmounts::new(), seen: [false, false, false, false, false, false, false, false, false] }
    }

    fn add(&mut self, c: CargoType, n: u32)
        requires
            old(self).sums.get(c) + n <= u32::MAX,
        ensures
            final(self).sums.get(c) == old(self).sums.get(c) + n,
            final(self).seen_kind(c),
            forall|d: CargoType| d != c ==> #[trigger] final(self).sums.get(d) == old(self).sums.get(d)
                && final(self).seen_kind(d) == old(self).seen_kind(d),
    {
        self.sums.add(c, n);
        self.seen[c.index()] = true;
    }
}

proof fn lemma_tile_flow_nonneg(t: Tile, c: CargoType, demand: bool)
    ensures
        spec_tile_flow(t, c, demand) >= 0,
{
    match t.content {
        TileContent::Industry(ind) => {
            assert(ind.production_rate * count_cargo(ind.cargo_output@, c) >= 0) by (nonlinear_arith);
        },
        _ => {},
    }
}

proof fn lemma_row_flow_mono(w: World, y: int, a: int, b: int, c: CargoType, demand: bool)
    requires
        a <= b,
    ensures
        0 <= spec_row_flow(w, y, a, c, demand) <= spec_row_flow(w, y, b, c, demand),
    decreases b - a,
{
    if a < b {
        lemma_row_flow_mono(w, y, a, b - 1, c, demand);
        if b > 0 && grid_has(w.tiles@, b - 1, y) {
            lemma_tile_flow_nonneg(grid_at(w.tiles@, b - 1, y), c, demand);
        }
    } else {
        lemma_row_flow_nonneg(w, y, a, c, demand);
    }
}

proof fn lemma_row_flow_nonneg(w: World, y: int, n: int, c: CargoType, demand: bool)
    ensures
        spec_row_flow(w, y, n, c, demand) >= 0,
    decreases n,
{
    if n > 0 {
        lemma_row_flow_nonneg(w, y, n - 1, c, demand);
        if grid_has(w.tiles@, n - 1, y) {
            lemma_tile_flow_nonneg(grid_at(w.tiles@, n - 1, y), c, demand);
        }
    }
}

proof fn lemma_grid_flow_mono(w: World, a: int, b: int, c: CargoType, demand: bool)
    requires
        a <= b,
    ensures
        0 <= spec_grid_flow(w, a, c, demand) <= spec_grid_flow(w, b, c, demand),
    decreases b - a,
{
    if a < b {
        lemma_grid_flow_mono(w, a, b - 1, c, demand);
        if b > 0 {
            lemma_row_flow_nonneg(w, b - 1, w.width as int, c, demand);
        }
    } else {
        lemma_grid_flow_nonneg(w, a, c, demand);
    }
}

proof fn lemma_grid_flow_nonneg(w: World, m: int, c: CargoType, demand: bool)
    ensures
        spec_grid_flow(w, m, c, demand) >= 0,
    decreases m,
{
    if m > 0 {
        lemma_grid_flow_nonneg(w, m - 1, c, demand);
        lemma_row_flow_nonneg(w, m - 1, w.width as int, c, demand);
    }
}

/// The running total after `x` columns of row `y` is at most the whole map's total.
proof fn lemma_partial_flow_bounded(w: World, y: int, x: int, c: CargoType, demand: bool)
    requires
        0 <= y < w.height,
        0 <= x <= w.width,
    ensures
        0 <= spec_grid_flow(w, y, c, demand) + spec_row_flow(w, y, x, c, demand) <= spec_world_flow(w, c, demand),
{
    lemma_row_flow_mono(w, y, x, w.width as int, c, demand);
    lemma_grid_flow_mono(w, y + 1, w.height as int, c, demand);
    lemma_grid_flow_nonneg(w, y, c, demand);
}

proof fn lemma_count_prefix(s: Seq<CargoType>, i: int, c: CargoType)
    requires
        0 <= i < s.len(),
    ensures
        count_cargo(s.take(i + 1), c) == count_cargo(s.take(i), c) + if s[i] == c { 1nat } else { 0nat },
{
    assert(s.take(i + 1).drop_last() =~= s.take(i));
}

proof fn lemma_count_le(s: Seq<CargoType>, i: int, c: CargoType)
    requires
        0 <= i <= s.len(),
    ensures
        count_cargo(s.take(i), c) <= count_cargo(s, c),
    decreases s.len() - i,
{
    if i < s.len() {
        lemma_count_prefix(s, i, c);
        lemma_count_le(s, i + 1, c);
    } else {
        assert(s.take(i) =~= s);
    }
}

/// A town's contribution for `per_thousand` units per thousand inhabitants.
pub(crate) fn town_amount(population: u32, per_thousand: u64) -> (r: u32)
    requires
        per_thousand <= 50,
    ensures
        r == spec_town_amount(population, per_thousand as int),
{
    let p: u64 = if population < 100 { 100 } else { population as u64 };
    assert(p * per_thousand <= 0xFFFF_FFFF * 50) by (nonlinear_arith)
        requires
            p <= 0xFFFF_FFFF,
            per_thousand <= 50,
    ;
    (p * per_thousand / 1000) as u32
}

/// The price multiplier for the given supply and demand (see `spec_multiplier`).
pub fn multiplier(supply: u32, demand: u32) -> (r: u32)
    ensures
        r == spec_multiplier(supply, demand),
{
    if supply == 0 {
        1500
    } else {
        let r = (demand as u64) * 1000 / (supply as u64);
        if r > 1500 { 1500 } else if r < 500 { 500 } else { r as u32 }
    }
}

/// `price * factor / 1000`, rounded down, stopping at `u64::MAX`.
pub fn scale_price(price: u64, factor: u64) -> (r: u64)
    requires
        factor <= 0x1_0000_0000,
    ensures
        r == spec_scale_price(price, factor as int),
{
    assert((price as u128) * (factor as u128) <= 0xFFFF_FFFF_FFFF_FFFF * 0x1_0000_0000) by (nonlinear_arith)
        requires
            price <= 0xFFFF_FFFF_FFFF_FFFF,
            factor <= 0x1_0000_0000,
    ;
    let p = (price as u128) * (factor as u128) / 1000;
    if p > u64::MAX as u128 { u64::MAX } else { p as u64 }
}

/// The economic state for a roll in `0..10` (see `spec_state_for_roll`).
pub fn economic_state_for_roll(roll: usize) -> (s: EconomicState)
    ensures
        s == spec_state_for_roll(roll as int),
{
    if roll <= 2 {
        EconomicState::Boom
    } else if roll <= 6 {
        EconomicState::Stable
    } else {
        EconomicState::Recession
    }
}

/// `new` is `old` after an economic tick on `world`: the month advances; every thirtieth
/// month prices rise by inflation and demand follows the state; supply and demand are
/// counted anew and prices follow them; the state is drawn anew every 120 months.
pub open spec fn spec_economy_updated(old: Economy, new: Economy, world: World) -> bool {
    &&& new.month == old.month + 1
    &&& new.inflation_rate == old.inflation_rate
    &&& forall|c: CargoType| #[trigger] new.market(c) == spec_market_after(old, world, c, new.month)
    &&& forall|c: CargoType| #[trigger] new.price(c) == spec_scale_price(spec_price_after_month(old, c, new.month),
        spec_market_after(old, world, c, new.month).price_multiplier as int)
    &&& new.month % 120 != 0 ==> new.economic_state == old.economic_state
}

impl Economy {
    pub open spec fn price(&self, c: CargoType) -> u64 {
        self.cargo_prices@[spec_cargo_index(c)]
    }

    pub open spec fn market(&self, c: CargoType) -> SupplyDemand {
        self.supply_demand@[spec_cargo_index(c)]
    }

    /// The demand and supply totals of `world` fit in a `u32`.
    pub open spec fn flows_fit(world: World) -> bool {
        forall|c: CargoType| #![trigger spec_world_flow(world, c, true)]
            spec_world_flow(world, c, true) <= u32::MAX && spec_world_flow(world, c, false) <= u32::MAX
    }

    /// A monthly step: prices rise by the inflation rate and demand follows the
    /// economic state (see `spec_monthly_demand`).
    fn update_monthly_economics(&mut self, _world: &World)
        requires
            old(self).inflation_rate <= 0x1_0000_0000 - 1000,
        ensures
            forall|c: CargoType| #[trigger] final(self).price(c)
                == spec_scale_price(old(self).price(c), 1000 + old(self).inflation_rate),
            forall|c: CargoType| #[trigger] final(self).market(c) == (SupplyDemand {
                demand: spec_monthly_demand(old(self).market(c).demand, old(self).economic_state),
                ..old(self).market(c)
            }),
            final(self).inflation_rate == old(self).inflation_rate,
            final(self).economic_state == old(self).economic_state,
            final(self).month == old(self).month,
    {
        let factor = 1000u64 + self.inflation_rate as u64;
        let mut i: usize = 0;
        while i < CARGO_KINDS
            invariant
                0 <= i <= CARGO_KINDS,
                factor == 1000 + old(self).inflation_rate,
                factor <= 0x1_0000_0000,
                self.supply_demand == old(self).supply_demand,
                self.inflation_rate == old(self).inflation_rate,
                self.economic_state == old(self).economic_state,
                self.month == old(self).month,
                forall|c: CargoType| #[trigger] self.price(c) == if spec_cargo_index(c) < i {
                    spec_scale_price(old(self).price(c), factor as int)
                } else {
                    old(self).price(c)
                },
            decreases CARGO_KINDS - i,
        {
            let c = CargoType::from_index(i);
            let ghost prev = *self;
            let p = scale_price(self.cargo_prices[i], factor);
            self.cargo_prices[i] = p;
            assert forall|d: CargoType| #[trigger] self.price(d) == if spec_cargo_index(d) < i + 1 {
                spec_scale_price(old(self).price(d), factor as int)
            } else {
                old(self).price(d)
            } by {
                assert(prev.price(d) == if spec_cargo_index(d) < i { spec_scale_price(old(self).price(d), factor as int) } else { old(self).price(d) });
                if spec_cargo_index(d) == i {
                    assert(d == c);
                }
            }
            i = i + 1;
        }
        let ghost mid = *self;
        let mut k: usize = 0;
        while k < CARGO_KINDS
            invariant
                0 <= k <= CARGO_KINDS,
                self.cargo_prices == mid.cargo_prices,
                self.inflation_rate == old(self).inflation_rate,
                self.economic_state == old(self).economic_state,
                self.month == old(self).month,
                forall|c: CargoType| #[trigger] self.market(c) == if spec_cargo_index(c) < k {
                    SupplyDemand { demand: spec_monthly_demand(old(self).market(c).demand, old(self).economic_state), ..old(self).market(c) }
                } else {
                    old(self).market(c)
                },
            decreases CARGO_KINDS - k,
        {
            let c = CargoType::from_index(k);
            let ghost prev = *self;
            let mut sd = self.supply_demand[k];
            match self.economic_state {
                EconomicState::Boom => {
                    let d = (sd.demand as u64) * 11 / 10;
                    sd.demand = if d > u32::MAX as u64 { u32::MAX } else { d as u32 };
                },
                EconomicState::Recession => {
                    sd.demand = ((sd.demand as u64) * 9 / 10) as u32;
                },
                EconomicState::Stable => {},
            }
            self.supply_demand[k] = sd;
            assert forall|d: CargoType| #[trigger] self.market(d) == if spec_cargo_index(d) < k + 1 {
                SupplyDemand { demand: spec_monthly_demand(old(self).market(d).demand, old(self).economic_state), ..old(self).market(d) }
            } else {
                old(self).market(d)
            } by {
                assert(prev.market(d) == if spec_cargo_index(d) < k {
                    SupplyDemand { demand: spec_monthly_demand(old(self).market(d).demand, old(self).economic_state), ..old(self).market(d) }
                } else {
                    old(self).market(d)
                });
                if spec_cargo_index(d) == k {
                    assert(d == c);
                }
            }
            k = k + 1;
        }
        assert forall|c: CargoType| #[trigger] self.price(c) == spec_scale_price(old(self).price(c), 1000 + old(self).inflation_rate) by {
            assert(mid.price(c) == spec_scale_price(old(self).price(c), factor as int));
        }
    }

    /// Each market's multiplier follows its demand over supply, and each price is scaled
    /// by the new multiplier.
    fn update_cargo_prices(&mut self)
        ensures
            forall|c: CargoType| #[trigger] final(self).market(c) == (SupplyDemand {
                price_multiplier: spec_multiplier(old(self).market(c).supply, old(self).market(c).demand),
                ..old(self).market(c)
            }),
            forall|c: CargoType| #[trigger] final(self).price(c) == spec_scale_price(old(self).price(c),
                spec_multiplier(old(self).market(c).supply, old(self).market(c).demand) as int),
            final(self).inflation_rate == old(self).inflation_rate,
            final(self).economic_state == old(self).economic_state,
            final(self).month == old(self).month,
    {
        let mut i: usize = 0;
        while i < CARGO_KINDS
            invariant
                0 <= i <= CARGO_KINDS,
                self.inflation_rate == old(self).inflation_rate,
                self.economic_state == old(self).economic_state,
                self.month == old(self).month,
                forall|c: CargoType| #[trigger] self.market(c) == if spec_cargo_index(c) < i {
                    SupplyDemand { price_multiplier: spec_multiplier(old(self).market(c).supply, old(self).market(c).demand), ..old(self).market(c) }
                } else {
                    old(self).market(c)
                },
                forall|c: CargoType| #[trigger] self.price(c) == if spec_cargo_index(c) < i {
                    spec_scale_price(old(self).price(c), spec_multiplier(old(self).market(c).supply, old(self).market(c).demand) as int)
                } else {
                    old(self).price(c)
                },
            decreases CARGO_KINDS - i,
        {
            let c = CargoType::from_index(i);
            let ghost prev = *self;
            let mut sd = self.supply_demand[i];
            let m = multiplier(sd.supply, sd.demand);
            sd.price_multiplier = m;
            self.supply_demand[i] = sd;
            let p = scale_price(self.cargo_prices[i], m as u64);
            self.cargo_prices[i] = p;
            assert forall|d: CargoType| #[trigger] self.market(d) == if spec_cargo_index(d) < i + 1 {
                SupplyDemand { price_multiplier: spec_multiplier(old(self).market(d).supply, old(self).market(d).demand), ..old(self).market(d) }
            } else {
                old(self).market(d)
            } by {
                assert(prev.market(d) == if spec_cargo_index(d) < i {
                    SupplyDemand { price_multiplier: spec_multiplier(old(self).market(d).supply, old(self).market(d).demand), ..old(self).market(d) }
                } else {
                    old(self).market(d)
                });
                if spec_cargo_index(d) == i {
                    assert(d == c);
                }
            }
            assert forall|d: CargoType| #[trigger] self.price(d) == if spec_cargo_index(d) < i + 1 {
                spec_scale_price(old(self).price(d), spec_multiplier(old(self).market(d).supply, old(self).market(d).demand) as int)
            } else {
                old(self).price(d)
            } by {
                assert(prev.price(d) == if spec_cargo_index(d) < i {
                    spec_scale_price(old(self).price(d), spec_multiplier(old(self).market(d).supply, old(self).market(d).demand) as int)
                } else {
                    old(self).price(d)
                });
                assert(prev.market(d) == if spec_cargo_index(d) < i {
                    SupplyDemand { price_multiplier: spec_multiplier(old(self).market(d).supply, old(self).market(d).demand), ..old(self).market(d) }
                } else {
                    old(self).market(d)
                });
                if spec_cargo_index(d) == i {
                    assert(d == c);
                }
            }
            i = i + 1;
        }
    }

    /// Every 120th month the economic state is drawn anew: boom with chance 3 in 10,
    /// stable 4 in 10, recession 3 in 10.
    fn update_economic_state(&mut self)
        ensures
            final(self).cargo_prices == old(self).cargo_prices,
            final(self).supply_demand == old(self).supply_demand,
            final(self).inflation_rate == old(self).inflation_rate,
            final(self).month == old(self).month,
            old(self).month % 120 != 0 ==> final(self).economic_state == old(self).economic_state,
    {
        if self.month % 120 == 0 {
            self.economic_state = economic_state_for_roll(random_range(0, 10));
        }
    }

    /// Recounts supply and demand from the map: a kind in which some tile takes part gets
    /// the map's total; the others keep their figures.
    fn update_supply_demand(&mut self, world: &World)
        requires
            Economy::flows_fit(*world),
        ensures
            forall|c: CargoType| #[trigger] final(self).market(c) == (SupplyDemand {
                supply: if spec_world_present(*world, c, false) { spec_world_flow(*world, c, false) as u32 } else { old(self).market(c).supply },
                demand: if spec_world_present(*world, c, true) { spec_world_flow(*world, c, true) as u32 } else { old(self).market(c).demand },
                ..old(self).market(c)
            }),
            final(self).cargo_prices == old(self).cargo_prices,
            final(self).inflation_rate == old(self).inflation_rate,
            final(self).economic_state == old(self).economic_state,
            final(self).month == old(self).month,
    {
        let mut new_supply = Tally::new();
        let mut new_demand = Tally::new();
        let mut y: usize = 0;
        assert forall|c: CargoType| #![trigger new_demand.sums.get(c)] {
            &&& new_demand.sums.get(c) == spec_grid_flow(*world, 0, c, true)
            &&& new_supply.sums.get(c) == spec_grid_flow(*world, 0, c, false)
            &&& new_demand.seen_kind(c) == spec_grid_present(*world, 0, c, true)
            &&& new_supply.seen_kind(c) == spec_grid_present(*world, 0, c, false)
        } by {
            assert(new_supply.sums.get(c) == 0);
            assert(new_demand.sums.get(c) == 0);
            assert(spec_grid_flow(*world, 0, c, true) == 0);
            assert(!new_demand.seen_kind(c));
            assert(!spec_grid_present(*world, 0, c, true));
        }
        while y < world.height
            invariant
                0 <= y <= world.height,
                Economy::flows_fit(*world),
                forall|c: CargoType| #![trigger new_demand.sums.get(c)] {
                    &&& new_demand.sums.get(c) == spec_grid_flow(*world, y as int, c, true)
                    &&& new_supply.sums.get(c) == spec_grid_flow(*world, y as int, c, false)
                    &&& new_demand.seen_kind(c) == spec_grid_present(*world, y as int, c, true)
                    &&& new_supply.seen_kind(c) == spec_grid_present(*world, y as int, c, false)
                },
            decreases world.height - y,
        {
            let mut x: usize = 0;
            assert forall|c: CargoType| #![trigger new_demand.sums.get(c)] {
                &&& new_demand.sums.get(c) == spec_grid_flow(*world, y as int, c, true) + spec_row_flow(*world, y as int, 0, c, true)
                &&& new_supply.sums.get(c) == spec_grid_flow(*world, y as int, c, false) + spec_row_flow(*world, y as int, 0, c, false)
                &&& new_demand.seen_kind(c) == (spec_grid_present(*world, y as int, c, true) || spec_row_present(*world, y as int, 0, c, true))
                &&& new_supply.seen_kind(c) == (spec_grid_present(*world, y as int, c, false) || spec_row_present(*world, y as int, 0, c, false))
            } by {
                assert(new_demand.sums.get(c) == spec_grid_flow(*world, y as int, c, true));
                assert(new_supply.sums.get(c) == spec_grid_flow(*world, y as int, c, false));
                assert(new_demand.seen_kind(c) == spec_grid_present(*world, y as int, c, true));
                assert(new_supply.seen_kind(c) == spec_grid_present(*world, y as int, c, false));
                assert(spec_row_flow(*world, y as int, 0, c, true) == 0);
                assert(spec_row_flow(*world, y as int, 0, c, false) == 0);
                assert(!spec_row_present(*world, y as int, 0, c, true));
                assert(!spec_row_present(*world, y as int, 0, c, false));
            }
            while x < world.width
                invariant
                    0 <= x <= world.width,
                    0 <= y < world.height,
                    Economy::flows_fit(*world),
                    forall|c: CargoType| #![trigger new_demand.sums.get(c)] {
                        &&& new_demand.sums.get(c) == spec_grid_flow(*world, y as int, c, true) + spec_row_flow(*world, y as int, x as int, c, true)
                        &&& new_supply.sums.get(c) == spec_grid_flow(*world, y as int, c, false) + spec_row_flow(*world, y as int, x as int, c, false)
                        &&& new_demand.seen_kind(c) == (spec_grid_present(*world, y as int, c, true) || spec_row_present(*world, y as int, x as int, c, true))
                        &&& new_supply.seen_kind(c) == (spec_grid_present(*world, y as int, c, false) || spec_row_present(*world, y as int, x as int, c, false))
                    },
                decreases world.width - x,
            {
                proof {
                    assert forall|c: CargoType| #![trigger new_demand.sums.get(c)]
                        new_demand.sums.get(c) + (if grid_has(world.tiles@, x as int, y as int) { spec_tile_flow(grid_at(world.tiles@, x as int, y as int), c, true) } else { 0 }) <= u32::MAX by {
                        lemma_partial_flow_bounded(*world, y as int, x + 1, c, true);
                    }
                    assert forall|c: CargoType| #![trigger new_supply.sums.get(c)]
                        new_supply.sums.get(c) + (if grid_has(world.tiles@, x as int, y as int) { spec_tile_flow(grid_at(world.tiles@, x as int, y as int), c, false) } else { 0 }) <= u32::MAX by {
                        assert(new_supply.sums.get(c) == spec_grid_flow(*world, y as int, c, false) + spec_row_flow(*world, y as int, x as int, c, false)) by {
                            assert(new_demand.sums.get(c) == spec_grid_flow(*world, y as int, c, true) + spec_row_flow(*world, y as int, x as int, c, true));
                        }
                        lemma_partial_flow_bounded(*world, y as int, x + 1, c, false);
                        assert(spec_world_flow(*world, c, true) <= u32::MAX);
                    }
                }
                let ghost d0 = new_demand;
                let ghost s0 = new_supply;
                if let Some(tile) = world.get_tile(x, y) {
                    match &tile.content {
                        TileContent::Town(town) => {
                            proof {
                                assert(new_demand.sums.get(CargoType::Passengers) + spec_town_amount(town.population, 50) <= u32::MAX);
                                assert(new_demand.sums.get(CargoType::Mail) + spec_town_amount(town.population, 20) <= u32::MAX);
                                assert(new_demand.sums.get(CargoType::Goods) + spec_town_amount(town.population, 30) <= u32::MAX);
                                assert(new_demand.sums.get(CargoType::Food) + spec_town_amount(town.population, 25) <= u32::MAX);
                                assert(new_supply.sums.get(CargoType::Passengers) + spec_town_amount(town.population, 40) <= u32::MAX);
                                assert(new_supply.sums.get(CargoType::Mail) + spec_town_amount(town.population, 15) <= u32::MAX);
                            }
                            self.process_town_demand_supply(town, &mut new_demand, &mut new_supply);
                            proof {
                                let t = Tile { terrain: crate::world::TerrainType::Grass, content: TileContent::Town(*town), height: 0 };
                                assert forall|c: CargoType| spec_tile_flow(t, c, true) == #[trigger] spec_tile_flow(*tile, c, true)
                                    && spec_tile_flow(t, c, false) == spec_tile_flow(*tile, c, false)
                                    && spec_tile_present(t, c, true) == spec_tile_present(*tile, c, true)
                                    && spec_tile_present(t, c, false) == spec_tile_present(*tile, c, false) by {}
                            }
                        },
                        TileContent::Industry(industry) => {
                            proof {
                                assert forall|c: CargoType| #[trigger] new_supply.sums.get(c)
                                    + industry.production_rate * count_cargo(industry.cargo_output@, c) <= u32::MAX by {
                                    assert(spec_tile_flow(*tile, c, false) == industry.production_rate * count_cargo(industry.cargo_output@, c));
                                }
                            }
                            self.process_industry_supply(industry, &mut new_supply);
                        },
                        _ => {},
                    }
                }
                proof {
                    assert forall|c: CargoType| #![trigger new_demand.sums.get(c)] {
                        &&& new_demand.sums.get(c) == spec_grid_flow(*world, y as int, c, true) + spec_row_flow(*world, y as int, x + 1, c, true)
                        &&& new_supply.sums.get(c) == spec_grid_flow(*world, y as int, c, false) + spec_row_flow(*world, y as int, x + 1, c, false)
                        &&& new_demand.seen_kind(c) == (spec_grid_present(*world, y as int, c, true) || spec_row_present(*world, y as int, x + 1, c, true))
                        &&& new_supply.seen_kind(c) == (spec_grid_present(*world, y as int, c, false) || spec_row_present(*world, y as int, x + 1, c, false))
                    } by {
                        assert(d0.sums.get(c) == spec_grid_flow(*world, y as int, c, true) + spec_row_flow(*world, y as int, x as int, c, true));
                        assert(s0.sums.get(c) == spec_grid_flow(*world, y as int, c, false) + spec_row_flow(*world, y as int, x as int, c, false));
                        assert(d0.seen_kind(c) == (spec_grid_present(*world, y as int, c, true) || spec_row_present(*world, y as int, x as int, c, true)));
                        assert(s0.seen_kind(c) == (spec_grid_present(*world, y as int, c, false) || spec_row_present(*world, y as int, x as int, c, false)));
                        if grid_has(world.tiles@, x as int, y as int) {
                            let t = grid_at(world.tiles@, x as int, y as int);
                            match t.content {
                                TileContent::Town(_) => {
                                    assert(new_demand.sums.get(c) == d0.sums.get(c) + spec_tile_flow(t, c, true));
                                    assert(new_supply.sums.get(c) == s0.sums.get(c) + spec_tile_flow(t, c, false));
                                },
                                TileContent::Industry(_) => {
                                    assert(new_supply.sums.get(c) == s0.sums.get(c) + spec_tile_flow(t, c, false));
                                    assert(new_demand.sums.get(c) == d0.sums.get(c));
                                },
                                _ => {
                                    assert(new_demand.sums.get(c) == d0.sums.get(c));
                                    assert(new_supply.sums.get(c) == s0.sums.get(c));
                                },
                            }
                        } else {
                            assert(new_demand.sums.get(c) == d0.sums.get(c));
                            assert(new_supply.sums.get(c) == s0.sums.get(c));
                        }
                    }
                }
                let ghost xx = x + 1;
                x = x + 1;
                assert(x == xx);
            }
            assert forall|c: CargoType| #![trigger new_demand.sums.get(c)] {
                &&& new_demand.sums.get(c) == spec_grid_flow(*world, y + 1, c, true)
                &&& new_supply.sums.get(c) == spec_grid_flow(*world, y + 1, c, false)
                &&& new_demand.seen_kind(c) == spec_grid_present(*world, y + 1, c, true)
                &&& new_supply.seen_kind(c) == spec_grid_present(*world, y + 1, c, false)
            } by {
                assert(new_demand.sums.get(c) == spec_grid_flow(*world, y as int, c, true) + spec_row_flow(*world, y as int, x as int, c, true));
                assert(new_supply.sums.get(c) == spec_grid_flow(*world, y as int, c, false) + spec_row_flow(*world, y as int, x as int, c, false));
                assert(new_demand.seen_kind(c) == (spec_grid_present(*world, y as int, c, true) || spec_row_present(*world, y as int, x as int, c, true)));
                assert(new_supply.seen_kind(c) == (spec_grid_present(*world, y as int, c, false) || spec_row_present(*world, y as int, x as int, c, false)));
            }
            y = y + 1;
        }
        let mut i: usize = 0;
        while i < CARGO_KINDS
            invariant
                0 <= i <= CARGO_KINDS,
                y == world.height,
                Economy::flows_fit(*world),
                forall|c: CargoType| #![trigger new_demand.sums.get(c)] {
                    &&& new_demand.sums.get(c) == spec_world_flow(*world, c, true)
                    &&& new_supply.sums.get(c) == spec_world_flow(*world, c, false)
                    &&& new_demand.seen_kind(c) == spec_world_present(*world, c, true)
                    &&& new_supply.seen_kind(c) == spec_world_present(*world, c, false)
                },
                self.cargo_prices == old(self).cargo_prices,
                self.inflation_rate == old(self).inflation_rate,
                self.economic_state == old(self).economic_state,
                self.month == old(self).month,
                forall|c: CargoType| #[trigger] self.market(c) == if spec_cargo_index(c) < i {
                    SupplyDemand {
                        supply: if spec_world_present(*world, c, false) { spec_world_flow(*world, c, false) as u32 } else { old(self).market(c).supply },
                        demand: if spec_world_present(*world, c, true) { spec_world_flow(*world, c, true) as u32 } else { old(self).market(c).demand },
                        ..old(self).market(c)
                    }
                } else {
                    old(self).market(c)
                },
            decreases CARGO_KINDS - i,
        {
            let c = CargoType::from_index(i);
            let ghost prev = *self;
            let mut sd = self.supply_demand[i];
            if new_supply.seen[i] {
                sd.supply = new_supply.sums.amount(c);
            }
            if new_demand.seen[i] {
                sd.demand = new_demand.sums.amount(c);
            }
            self.supply_demand[i] = sd;
            proof {
                assert forall|d: CargoType| #[trigger] self.market(d) == if spec_cargo_index(d) < i + 1 {
                    SupplyDemand {
                        supply: if spec_world_present(*world, d, false) { spec_world_flow(*world, d, false) as u32 } else { old(self).market(d).supply },
                        demand: if spec_world_present(*world, d, true) { spec_world_flow(*world, d, true) as u32 } else { old(self).market(d).demand },
                        ..old(self).market(d)
                    }
                } else {
                    old(self).market(d)
                } by {
                    assert(prev.market(d) == if spec_cargo_index(d) < i {
                        SupplyDemand {
                            supply: if spec_world_present(*world, d, false) { spec_world_flow(*world, d, false) as u32 } else { old(self).market(d).supply },
                            demand: if spec_world_present(*world, d, true) { spec_world_flow(*world, d, true) as u32 } else { old(self).market(d).demand },
                            ..old(self).market(d)
                        }
                    } else {
                        old(self).market(d)
                    });
                    if spec_cargo_index(d) == i {
                        assert(d == c);
                        assert(new_demand.sums.get(d) == spec_world_flow(*world, d, true));
                    }
                }
            }
            i = i + 1;
        }
    }

    /// Adds a town's demand and supply to the running totals.
    fn process_town_demand_supply(&self, town: &Town, demand: &mut Tally, supply: &mut Tally)
        requires
            old(demand).sums.get(CargoType::Passengers) + spec_town_amount(town.population, 50) <= u32::MAX,
            old(demand).sums.get(CargoType::Mail) + spec_town_amount(town.population, 20) <= u32::MAX,
            old(demand).sums.get(CargoType::Goods) + spec_town_amount(town.population, 30) <= u32::MAX,
            old(demand).sums.get(CargoType::Food) + spec_town_amount(town.population, 25) <= u32::MAX,
            old(supply).sums.get(CargoType::Passengers) + spec_town_amount(town.population, 40) <= u32::MAX,
            old(supply).sums.get(CargoType::Mail) + spec_town_amount(town.population, 15) <= u32::MAX,
        ensures
            forall|c: CargoType| #![trigger final(demand).sums.get(c)] {
                let t = Tile { terrain: crate::world::TerrainType::Grass, content: TileContent::Town(*town), height: 0 };
                &&& final(demand).sums.get(c) == old(demand).sums.get(c) + spec_tile_flow(t, c, true)
                &&& final(demand).seen_kind(c) == (old(demand).seen_kind(c) || spec_tile_present(t, c, true))
                &&& final(supply).sums.get(c) == old(supply).sums.get(c) + spec_tile_flow(t, c, false)
                &&& final(supply).seen_kind(c) == (old(supply).seen_kind(c) || spec_tile_present(t, c, false))
            },
    {
        let pop = town.population;
        let ghost d0 = *demand;
        demand.add(CargoType::Passengers, town_amount(pop, 50));
        let ghost d1 = *demand;
        demand.add(CargoType::Mail, town_amount(pop, 20));
        let ghost d2 = *demand;
        demand.add(CargoType::Goods, town_amount(pop, 30));
        let ghost d3 = *demand;
        demand.add(CargoType::Food, town_amount(pop, 25));
        let ghost s0 = *supply;
        supply.add(CargoType::Passengers, town_amount(pop, 40));
        let ghost s1 = *supply;
        supply.add(CargoType::Mail, town_amount(pop, 15));
        proof {
            let t = Tile { terrain: crate::world::TerrainType::Grass, content: TileContent::Town(*town), height: 0 };
            assert forall|c: CargoType| #![trigger demand.sums.get(c)] {
                &&& demand.sums.get(c) == old(demand).sums.get(c) + spec_tile_flow(t, c, true)
                &&& demand.seen_kind(c) == (old(demand).seen_kind(c) || spec_tile_present(t, c, true))
                &&& supply.sums.get(c) == old(supply).sums.get(c) + spec_tile_flow(t, c, false)
                &&& supply.seen_kind(c) == (old(supply).seen_kind(c) || spec_tile_present(t, c, false))
            } by {
                assert(d1.sums.get(c) == d0.sums.get(c) + if c == CargoType::Passengers { spec_town_amount(pop, 50) } else { 0 });
                assert(d2.sums.get(c) == d1.sums.get(c) + if c == CargoType::Mail { spec_town_amount(pop, 20) } else { 0 });
                assert(d3.sums.get(c) == d2.sums.get(c) + if c == CargoType::Goods { spec_town_amount(pop, 30) } else { 0 });
                assert(demand.sums.get(c) == d3.sums.get(c) + if c == CargoType::Food { spec_town_amount(pop, 25) } else { 0 });
                assert(s1.sums.get(c) == s0.sums.get(c) + if c == CargoType::Passengers { spec_town_amount(pop, 40) } else { 0 });
                assert(supply.sums.get(c) == s1.sums.get(c) + if c == CargoType::Mail { spec_town_amount(pop, 15) } else { 0 });
                match c {
                    CargoType::Passengers => {},
                    CargoType::Mail => {},
                    CargoType::Goods => {},
                    CargoType::Food => {},
                    _ => {},
                }
            }
        }
    }

    /// Adds an industry's production to the running supply totals.
    fn process_industry_supply(&self, industry: &Industry, supply: &mut Tally)
        requires
            forall|c: CargoType| #[trigger] old(supply).sums.get(c)
                + industry.production_rate * count_cargo(industry.cargo_output@, c) <= u32::MAX,
        ensures
            forall|c: CargoType| #![trigger final(supply).sums.get(c)] {
                &&& final(supply).sums.get(c) == old(supply).sums.get(c) + industry.production_rate * count_cargo(industry.cargo_output@, c)
                &&& final(supply).seen_kind(c) == (old(supply).seen_kind(c) || industry.cargo_output@.contains(c))
            },
    {
        let n = industry.cargo_output.len();
        let rate = industry.production_rate;
        let mut i: usize = 0;
        assert(industry.cargo_output@.take(0) =~= Seq::<CargoType>::empty());
        assert forall|c: CargoType| #![trigger supply.sums.get(c)] supply.sums.get(c) == old(supply).sums.get(c)
            + rate * count_cargo(industry.cargo_output@.take(0), c) by {
            assert(rate * 0 == 0);
        }
        while i < n
            invariant
                0 <= i <= n,
                n == industry.cargo_output@.len(),
                rate == industry.production_rate,
                forall|c: CargoType| #[trigger] old(supply).sums.get(c)
                    + industry.production_rate * count_cargo(industry.cargo_output@, c) <= u32::MAX,
                forall|c: CargoType| #![trigger supply.sums.get(c)] {
                    &&& supply.sums.get(c) == old(supply).sums.get(c) + rate * count_cargo(industry.cargo_output@.take(i as int), c)
                    &&& supply.seen_kind(c) == (old(supply).seen_kind(c) || industry.cargo_output@.take(i as int).contains(c))
                },
            decreases n - i,
        {
            let c = industry.cargo_output[i];
            proof {
                lemma_count_prefix(industry.cargo_output@, i as int, c);
                lemma_count_le(industry.cargo_output@, i + 1, c);
                assert(rate * count_cargo(industry.cargo_output@.take(i + 1), c) <= rate * count_cargo(industry.cargo_output@, c)) by (nonlinear_arith)
                    requires
                        count_cargo(industry.cargo_output@.take(i + 1), c) <= count_cargo(industry.cargo_output@, c),
                ;
                assert(rate * (count_cargo(industry.cargo_output@.take(i as int), c) + 1)
                    == rate * count_cargo(industry.cargo_output@.take(i as int), c) + rate) by (nonlinear_arith);
            }
            let ghost s0 = *supply;
            supply.add(c, rate);
            proof {
                assert forall|d: CargoType| #![trigger supply.sums.get(d)] {
                    &&& supply.sums.get(d) == old(supply).sums.get(d) + rate * count_cargo(industry.cargo_output@.take(i + 1), d)
                    &&& supply.seen_kind(d) == (old(supply).seen_kind(d) || industry.cargo_output@.take(i + 1).contains(d))
                } by {
                    assert(s0.sums.get(d) == old(supply).sums.get(d) + rate * count_cargo(industry.cargo_output@.take(i as int), d));
                    assert(s0.seen_kind(d) == (old(supply).seen_kind(d) || industry.cargo_output@.take(i as int).contains(d)));
                    assert(supply.sums.get(d) == s0.sums.get(d) + if d == c { rate as int } else { 0 });
                    assert(supply.seen_kind(d) == (s0.seen_kind(d) || d == c));
                    lemma_count_prefix(industry.cargo_output@, i as int, d);
                    assert(industry.cargo_output@.take(i + 1) =~= industry.cargo_output@.take(i as int).push(c));
                    assert(industry.cargo_output@.take(i + 1).contains(d) == (industry.cargo_output@.take(i as int).contains(d) || d == c)) by {
                        if d == c {
                            assert(industry.cargo_output@.take(i + 1)[i as int] == c);
                        }
                        if industry.cargo_output@.take(i + 1).contains(d) && d != c {
                            let k = choose|k: int| 0 <= k < i + 1 && #[trigger] industry.cargo_output@.take(i + 1)[k] == d;
                            assert(industry.cargo_output@.take(i as int)[k] == d);
                        }
                    }
                    assert(rate * (count_cargo(industry.cargo_output@.take(i as int), d) + 1)
                        == rate * count_cargo(industry.cargo_output@.take(i as int), d) + rate) by (nonlinear_arith);
                }
            }
            i = i + 1;
        }
        assert(industry.cargo_output@.take(n as int) =~= industry.cargo_output@);
    }

    /// One tick of the economy on `world`: the month advances; every 30th month prices
    /// inflate and demand follows the economic state; supply and demand are recounted
    /// from the map; multipliers and prices follow supply and demand; and every 120th
    /// month the economic state may change.
    pub fn update(&mut self, world: &mut World)
        requires
            old(self).month < u32::MAX,
            old(self).inflation_rate <= 0x1_0000_0000 - 1000,
            Economy::flows_fit(*old(world)),
        ensures
            *final(world) == *old(world),
            spec_economy_updated(*old(self), *final(self), *old(world)),
    {
        self.month = self.month + 1;
        let ghost e0 = *self;
        if self.month % 30 == 0 {
            self.update_monthly_economics(world);
        }
        let ghost e1 = *self;
        self.update_supply_demand(world);
        let ghost e2 = *self;
        self.update_cargo_prices();
        let ghost e3 = *self;
        self.update_economic_state();
        proof {
            assert forall|c: CargoType| #[trigger] self.market(c) == spec_market_after(*old(self), *old(world), c, self.month) by {
                assert(e0.market(c) == old(self).market(c));
                assert(e0.price(c) == old(self).price(c));
                assert(e1.market(c).supply == old(self).market(c).supply);
                assert(e1.market(c).demand == spec_demand_after_month(*old(self), c, self.month));
                assert(e1.price(c) == spec_price_after_month(*old(self), c, self.month));
                assert(e2.market(c).supply == spec_supply_after(*old(self), *old(world), c));
                assert(e2.market(c).demand == spec_demand_after(*old(self), *old(world), c, self.month));
                assert(e2.price(c) == e1.price(c));
                assert(e3.market(c) == self.market(c));
                assert(e3.price(c) == self.price(c));
            }
            assert forall|c: CargoType| #[trigger] self.price(c) == spec_scale_price(spec_price_after_month(*old(self), c, self.month),
                    spec_market_after(*old(self), *old(world), c, self.month).price_multiplier as int) by {
                assert(e0.market(c) == old(self).market(c));
                assert(e0.price(c) == old(self).price(c));
                assert(e1.market(c).supply == old(self).market(c).supply);
                assert(e1.market(c).demand == spec_demand_after_month(*old(self), c, self.month));
                assert(e1.price(c) == spec_price_after_month(*old(self), c, self.month));
                assert(e2.market(c).supply == spec_supply_after(*old(self), *old(world), c));
                assert(e2.market(c).demand == spec_demand_after(*old(self), *old(world), c, self.month));
                assert(e2.price(c) == e1.price(c));
                assert(e3.market(c) == self.market(c));
                assert(e3.price(c) == self.price(c));
            }
        }
    }

    /// Price per unit, in thousandths, of carrying a kind of cargo over a distance given
    /// in thousandths of a tile (see `spec_cargo_price`): the exact price rounded down to
    /// a whole thousandth, so state prices keep their proportions only to a thousandth
    /// (see `lemma_price_rounds_down` and `lemma_state_prices_in_proportion`).
    pub fn get_cargo_price(&self, cargo_type: &CargoType, distance_milli: u64) -> (r: u64)
        ensures
            r == spec_cargo_price(self.price(*cargo_type), distance_milli, self.economic_state),
    {
        let base_price = self.cargo_prices[cargo_type.index()];
        let m: u128 = if distance_milli > 50000 { 50000 } else { distance_milli as u128 };
        let factor: u128 = match self.economic_state {
            EconomicState::Boom => 12,
            EconomicState::Stable => 10,
            EconomicState::Recession => 8,
        };
        assert((base_price as u128) * (100000 + m) <= 0xFFFF_FFFF_FFFF_FFFF * 150000) by (nonlinear_arith)
            requires
                base_price <= 0xFFFF_FFFF_FFFF_FFFF,
                m <= 50000,
        ;
        assert((base_price as u128) * (100000 + m) * factor <= 0xFFFF_FFFF_FFFF_FFFF * 150000 * 12) by (nonlinear_arith)
            requires
                (base_price as u128) * (100000 + m) <= 0xFFFF_FFFF_FFFF_FFFF * 150000,
                factor <= 12,
        ;
        let p = (base_price as u128) * (100000 + m) * factor / 1000000;
        if p > u64::MAX as u128 { u64::MAX } else { p as u64 }
    }

    /// Payment for delivering `quantity` units over a distance in thousandths of a tile.
    pub fn calculate_delivery_payment(&self, cargo_type: &CargoType, quantity: u32, distance_milli: u64) -> (r: i64)
        ensures
            r == spec_delivery_payment(spec_cargo_price(self.price(*cargo_type), distance_milli, self.economic_state), quantity),
    {
        let price_per_unit = self.get_cargo_price(cargo_type, distance_milli);
        assert((price_per_unit as u128) * (quantity as u128) <= 0xFFFF_FFFF_FFFF_FFFF * 0xFFFF_FFFF) by (nonlinear_arith)
            requires
                price_per_unit <= 0xFFFF_FFFF_FFFF_FFFF,
                quantity <= 0xFFFF_FFFF,
        ;
        let p = (price_per_unit as u128) * (quantity as u128) / 1000;
        if p > i64::MAX as u128 { i64::MAX } else { p as i64 }
    }

    /// The market for a kind of cargo.
    pub fn get_market_info(&self, cargo_type: &CargoType) -> (r: MarketInfo)
        ensures
            r.cargo_type == *cargo_type,
            r.current_price == self.price(*cargo_type),
            r.supply == self.market(*cargo_type).supply,
            r.demand == self.market(*cargo_type).demand,
            r.price_trend == spec_price_trend(self.market(*cargo_type).price_multiplier),
    {
        let sd = &self.supply_demand[cargo_type.index()];
        MarketInfo {
            cargo_type: *cargo_type,
            current_price: self.cargo_prices[cargo_type.index()],
            supply: sd.supply,
            demand: sd.demand,
            price_trend: self.calculate_price_trend(sd),
        }
    }

    fn calculate_price_trend(&self, sd: &SupplyDemand) -> (r: PriceTrend)
        ensures
            r == spec_price_trend(sd.price_multiplier),
    {
        if sd.price_multiplier > 1200 {
            PriceTrend::Rising
        } else if sd.price_multiplier < 800 {
            PriceTrend::Falling
        } else {
            PriceTrend::Stable
        }
    }

    /// A summary of the economy with its five dearest commodities.
    pub fn get_economic_report(&self) -> (r: EconomicReport)
        ensures
            r.economic_state == self.economic_state,
            r.inflation_rate == self.inflation_rate,
            r.month == self.month,
            is_top_five(*self, r.top_commodities@),
    {
        EconomicReport {
            economic_state: self.economic_state,
            inflation_rate: self.inflation_rate,
            month: self.month,
            top_commodities: self.get_top_commodities(),
        }
    }

    /// The five dearest commodities, dearest first; among equal prices the cargo listed
    /// first in `CargoType` comes first.
    fn get_top_commodities(&self) -> (r: Vec<(CargoType, u64)>)
        ensures
            is_top_five(*self, r@),
    {
        let mut taken: [bool; 9] = [false, false, false, false, false, false, false, false, false];
        let mut r: Vec<(CargoType, u64)> = Vec::new();
        let mut k: usize = 0;
        while k < 5
            invariant
                0 <= k <= 5,
                r@.len() == k,
                forall|j: int| 0 <= j < k ==> (#[trigger] r@[j]).1 == self.price(r@[j].0),
                forall|a: int, j: int| 0 <= j < a < k ==> (#[trigger] r@[j]).0 != (#[trigger] r@[a]).0,
                forall|a: int, c: CargoType| #![trigger self.price(c), r@[a]] 0 <= a < k && (forall|j: int| 0 <= j < a ==> (#[trigger] r@[j]).0 != c)
                    ==> self.price(c) <= r@[a].1,
                forall|c: CargoType| #[trigger] taken@[spec_cargo_index(c)] == exists|j: int| 0 <= j < k && r@[j].0 == c,
            decreases 5 - k,
        {
            let mut best: usize = 9;
            let mut i: usize = 0;
            while i < 9
                invariant
                    0 <= i <= 9,
                    0 <= k < 5,
                    r@.len() == k,
                    forall|c: CargoType| #[trigger] taken@[spec_cargo_index(c)] == exists|j: int| 0 <= j < k && r@[j].0 == c,
                    best == 9 || (best < i && !taken@[best as int]),
                    best == 9 ==> forall|j: int| 0 <= j < i ==> taken@[j],
                    best < 9 ==> forall|j: int| 0 <= j < i && !taken@[j] ==> self.cargo_prices@[j] <= self.cargo_prices@[best as int],
                decreases 9 - i,
            {
                if !taken[i] {
                    if best == 9 || self.cargo_prices[i] > self.cargo_prices[best] {
                        best = i;
                    }
                }
                i = i + 1;
            }
            proof {
                if best == 9 {
                    lemma_untaken_exists(r@, k as int);
                    let c = choose|c: CargoType| #[trigger] untaken(r@, k as int, c);
                    assert(taken@[spec_cargo_index(c)]);
                }
            }
            let c = CargoType::from_index(best);
            let ghost old_r = r@;
            r.push((c, self.cargo_prices[best]));
            taken[best] = true;
            proof {
                assert forall|d: CargoType| #[trigger] taken@[spec_cargo_index(d)] == exists|j: int| 0 <= j < k + 1 && r@[j].0 == d by {
                    if spec_cargo_index(d) == best {
                        assert(d == c);
                        assert(r@[k as int].0 == d);
                    } else {
                        assert(d != c);
                        if exists|j: int| 0 <= j < k + 1 && r@[j].0 == d {
                            let j = choose|j: int| 0 <= j < k + 1 && r@[j].0 == d;
                            assert(old_r[j].0 == d);
                        }
                        if exists|j: int| 0 <= j < k && old_r[j].0 == d {
                            let j = choose|j: int| 0 <= j < k && old_r[j].0 == d;
                            assert(r@[j].0 == d);
                        }
                    }
                }
                assert forall|a: int, j: int| 0 <= j < a < k + 1 implies (#[trigger] r@[j]).0 != (#[trigger] r@[a]).0 by {
                    if a == k {
                        assert(old_r[j] == r@[j]);
                        if r@[j].0 == c {
                            assert(taken@[spec_cargo_index(c)]) by {
                                assert(exists|jj: int| 0 <= jj < k && old_r[jj].0 == c);
                            }
                        }
                    } else {
                        assert(old_r[j] == r@[j]);
                        assert(old_r[a] == r@[a]);
                    }
                }
                assert forall|a: int, d: CargoType| #![trigger self.price(d), r@[a]] 0 <= a < k + 1 && (forall|j: int| 0 <= j < a ==> (#[trigger] r@[j]).0 != d)
                    implies self.price(d) <= r@[a].1 by {
                    if a < k {
                        assert(old_r[a] == r@[a]);
                        assert forall|j: int| 0 <= j < a implies (#[trigger] old_r[j]).0 != d by {
                            assert(old_r[j] == r@[j]);
                        }
                    } else {
                        assert(!taken@[spec_cargo_index(d)] || spec_cargo_index(d) == best) by {
                            if taken@[spec_cargo_index(d)] && spec_cargo_index(d) != best {
                                assert(exists|j: int| 0 <= j < k && old_r[j].0 == d);
                                let j = choose|j: int| 0 <= j < k && old_r[j].0 == d;
                                assert(r@[j] == old_r[j]);
                            }
                        }
                    }
                }
            }
            k = k + 1;
        }
        r
    }

    /// The starting economy: base prices, supply, demand and multipliers at 1000, 2%
    /// monthly inflation, a stable state and month zero.
    pub fn new() -> (e: Economy)
        ensures
            forall|c: CargoType| #[trigger] e.price(c) == spec_initial_price(c),
            forall|c: CargoType| #![trigger e.market(c)] e.market(c).supply == 1000 && e.market(c).demand == 1000
                && e.market(c).price_multiplier == 1000,
            e.inflation_rate == 20,
            e.economic_state == EconomicState::Stable,
            e.month == 0,
    {
        let sd = SupplyDemand { supply: 1000, demand: 1000, price_multiplier: 1000 };
        Economy {
            cargo_prices: [5000u64, 8000, 3000, 4000, 12000, 6000, 8000, 15000, 7000],
            supply_demand: [sd, sd, sd, sd, sd, sd, sd, sd, sd],
            inflation_rate: 20,
            economic_state: EconomicState::Stable,
            month: 0,
        }
    }
}

} // verus!
