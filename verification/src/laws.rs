use vstd::prelude::*;
use crate::economy::{Economy, EconomicState, spec_cargo_price, spec_multiplier, spec_delivery_payment, spec_scale_price,
    spec_economy_updated, spec_market_after, spec_price_after_month};
use crate::cargo::CargoType;
use crate::vehicle::{VehicleType, spec_current_value, spec_purchase_cost, spec_running_costs, spec_base_running_cost, lemma_purchase_cost_nonneg};
use crate::player::{spec_rated_reputation, spec_count_on_time};
use crate::vehicle::{Vehicle, spec_updated, lemma_route_milli_bounds};
use crate::world::{World, Tile, TileContent, IndustryType, is_generated_industry, spec_grow_once, spec_grow, spec_world_updated};
use crate::economy::{spec_monthly_demand, spec_world_present};
use crate::player::{Player, spec_ticked, spec_sum_costs};
use crate::ai::{AITarget, AITargetType, AIStrategy, spec_target_key};
use crate::wrap::wrapped;

verus! {

proof fn lemma_div_mono(a: int, b: int, d: int)
    requires
        0 <= a <= b,
        d > 0,
    ensures
        a / d <= b / d,
{
    assert(a / d <= b / d) by (nonlinear_arith)
        requires
            0 <= a <= b,
            d > 0,
    ;
}

proof fn lemma_mul_mono(a: int, b: int, c: int)
    requires
        0 <= a <= b,
        0 <= c,
    ensures
        a * c <= b * c,
{
    assert(a * c <= b * c) by (nonlinear_arith)
        requires
            0 <= a <= b,
            0 <= c,
    ;
}

/// Longer routes pay at least as much per unit: the price does not fall as the distance
/// grows.
pub proof fn lemma_price_grows_with_distance(base: u64, d1: u64, d2: u64, s: EconomicState)
    requires
        d1 <= d2,
    ensures
        spec_cargo_price(base, d1, s) <= spec_cargo_price(base, d2, s),
{
    let m1: int = if d1 > 50000 { 50000 } else { d1 as int };
    let m2: int = if d2 > 50000 { 50000 } else { d2 as int };
    let f = crate::economy::spec_state_factor(s);
    assert(base * (100000 + m1) <= base * (100000 + m2)) by (nonlinear_arith)
        requires
            0 <= base,
            m1 <= m2,
    ;
    lemma_mul_mono(base * (100000 + m1), base * (100000 + m2), f);
    assert(base * (100000 + m1) >= 0) by (nonlinear_arith)
        requires
            0 <= base,
            0 <= m1,
    ;
    lemma_mul_mono(0, base * (100000 + m1), f);
    lemma_div_mono(base * (100000 + m1) * f, base * (100000 + m2) * f, 1000000);
}

/// Distance stops counting at 50 tiles: every longer route pays what a 50-tile route pays.
pub proof fn lemma_price_distance_cap(base: u64, d: u64, s: EconomicState)
    requires
        d >= 50000,
    ensures
        spec_cargo_price(base, d, s) == spec_cargo_price(base, 50000, s),
{
}

/// A boom pays more than stable times, and stable times more than a recession.
pub proof fn lemma_price_follows_state(base: u64, d: u64)
    ensures
        spec_cargo_price(base, d, EconomicState::Recession) <= spec_cargo_price(base, d, EconomicState::Stable),
        spec_cargo_price(base, d, EconomicState::Stable) <= spec_cargo_price(base, d, EconomicState::Boom),
{
    let m: int = if d > 50000 { 50000 } else { d as int };
    assert(base * (100000 + m) >= 0) by (nonlinear_arith)
        requires
            0 <= base,
            0 <= m,
    ;
    lemma_mul_mono(8, 10, base * (100000 + m));
    lemma_mul_mono(10, 12, base * (100000 + m));
    assert(base * (100000 + m) * 8 == 8 * (base * (100000 + m))) by (nonlinear_arith);
    assert(base * (100000 + m) * 10 == 10 * (base * (100000 + m))) by (nonlinear_arith);
    assert(base * (100000 + m) * 12 == 12 * (base * (100000 + m))) by (nonlinear_arith);
    lemma_mul_mono(0, 8, base * (100000 + m));
    lemma_div_mono(base * (100000 + m) * 8, base * (100000 + m) * 10, 1000000);
    lemma_div_mono(base * (100000 + m) * 10, base * (100000 + m) * 12, 1000000);
}

/// A delivery of more units pays at least as much.
pub proof fn lemma_payment_grows_with_quantity(price: u64, q1: u32, q2: u32)
    requires
        q1 <= q2,
    ensures
        spec_delivery_payment(price, q1) <= spec_delivery_payment(price, q2),
{
    assert(price * q1 <= price * q2) by (nonlinear_arith)
        requires
            0 <= price,
            q1 <= q2,
    ;
    assert(price * q1 >= 0) by (nonlinear_arith)
        requires
            0 <= price,
            0 <= q1,
    ;
    lemma_div_mono(price * q1, price * q2, 1000);
}

/// The price multiplier stays between a half and one and a half.
pub proof fn lemma_multiplier_bounds(supply: u32, demand: u32)
    ensures
        500 <= spec_multiplier(supply, demand) <= 1500,
{
}

/// More demand never lowers the multiplier, and more supply never raises it.
pub proof fn lemma_multiplier_follows_the_market(s1: u32, s2: u32, d1: u32, d2: u32)
    requires
        0 < s1 <= s2,
        d1 <= d2,
    ensures
        spec_multiplier(s1, d1) <= spec_multiplier(s1, d2),
        spec_multiplier(s2, d1) <= spec_multiplier(s1, d1),
{
    lemma_mul_mono(d1 as int, d2 as int, 1000);
    lemma_div_mono(d1 * 1000, d2 * 1000, s1 as int);
    assert((d1 as int) * 1000 / (s2 as int) <= (d1 as int) * 1000 / (s1 as int)) by (nonlinear_arith)
        requires
            0 < s1 <= s2,
            0 <= d1,
    ;
}

/// Inflation never lowers a price: scaling by a factor of a thousand or more keeps it or
/// raises it.
pub proof fn lemma_inflation_raises_prices(price: u64, factor: int)
    requires
        factor >= 1000,
    ensures
        spec_scale_price(price, factor) >= price,
{
    lemma_mul_mono(1000, factor, price as int);
    assert(1000 * (price as int) == price * 1000) by (nonlinear_arith);
    assert(price * factor == factor * price) by (nonlinear_arith);
    lemma_div_mono(price * 1000, price * factor, 1000);
}

/// A vehicle is worth no more than its price and, however old, at least a fifth of it.
pub proof fn lemma_value_bounds(vt: VehicleType, age: u32)
    ensures
        spec_purchase_cost(vt) / 5 <= spec_current_value(vt, age) <= spec_purchase_cost(vt),
{
    lemma_purchase_cost_nonneg(vt);
    let c = spec_purchase_cost(vt);
    let d: int = if 15 * age > 29200 { 29200 } else { 15 * age };
    assert(c * (36500 - d) <= c * 36500) by (nonlinear_arith)
        requires
            c >= 0,
            0 <= d,
    ;
    assert(c * (36500 - d) >= c * 7300) by (nonlinear_arith)
        requires
            c >= 0,
            d <= 29200,
    ;
    assert(c * 36500 / 36500 == c) by (nonlinear_arith);
    assert(c * 7300 / 36500 == c / 5) by (nonlinear_arith)
        requires
            c >= 0,
    ;
    assert(c * 7300 >= 0) by (nonlinear_arith)
        requires
            c >= 0,
    ;
    lemma_div_mono(c * (36500 - d), c * 36500, 36500);
    lemma_div_mono(c * 7300, c * (36500 - d), 36500);
}

/// An older vehicle is worth no more than a younger one of the same type.
pub proof fn lemma_value_declines_with_age(vt: VehicleType, a1: u32, a2: u32)
    requires
        a1 <= a2,
    ensures
        spec_current_value(vt, a2) <= spec_current_value(vt, a1),
{
    lemma_purchase_cost_nonneg(vt);
    let c = spec_purchase_cost(vt);
    let d1: int = if 15 * a1 > 29200 { 29200 } else { 15 * a1 };
    let d2: int = if 15 * a2 > 29200 { 29200 } else { 15 * a2 };
    assert(c * (36500 - d2) <= c * (36500 - d1)) by (nonlinear_arith)
        requires
            c >= 0,
            d1 <= d2,
    ;
    assert(c * (36500 - d2) >= 0) by (nonlinear_arith)
        requires
            c >= 0,
            d2 <= 36500,
    ;
    lemma_div_mono(c * (36500 - d2), c * (36500 - d1), 36500);
}

/// An older vehicle costs no less to run than a younger one of the same type and
/// reliability.
pub proof fn lemma_running_costs_grow_with_age(vt: VehicleType, a1: u32, a2: u32, reliability: u8)
    requires
        a1 <= a2,
    ensures
        spec_running_costs(vt, a1, reliability) <= spec_running_costs(vt, a2, reliability),
{
    if reliability < 200 {
        let b = spec_base_running_cost(vt);
        assert(b >= 0);
        let r = 200 - reliability;
        assert(b * (3650 + a1) <= b * (3650 + a2)) by (nonlinear_arith)
            requires
                b >= 0,
                a1 <= a2,
        ;
        assert(b * (3650 + a1) >= 0) by (nonlinear_arith)
            requires
                b >= 0,
                a1 >= 0,
        ;
        lemma_mul_mono(b * (3650 + a1), b * (3650 + a2), r as int);
        lemma_mul_mono(0, b * (3650 + a1), r as int);
        lemma_div_mono(b * (3650 + a1) * r, b * (3650 + a2) * r, 365000);
    }
}

/// The monthly rating of a company's reputation: with no vehicles it stays; when more
/// than four in five vehicles keep time it rises a point, to at most 100; when fewer than
/// half do it falls a point, to at least 0; otherwise it stays. A reputation between 0
/// and 100 stays in that range.
pub proof fn lemma_reputation_rating(reputation: u32, vs: Seq<Vehicle>)
    requires
        reputation <= 100,
    ensures
        spec_rated_reputation(reputation, vs) <= 100,
        vs.len() == 0 ==> spec_rated_reputation(reputation, vs) == reputation,
        vs.len() > 0 && 5 * spec_count_on_time(vs) > 4 * vs.len() ==>
            spec_rated_reputation(reputation, vs) == if reputation == 100 { 100 } else { reputation + 1 },
        vs.len() > 0 && 2 * spec_count_on_time(vs) < vs.len() ==>
            spec_rated_reputation(reputation, vs) == if reputation == 0 { 0 } else { reputation - 1 },
        vs.len() > 0 && 2 * spec_count_on_time(vs) >= vs.len() && 5 * spec_count_on_time(vs) <= 4 * vs.len() ==>
            spec_rated_reputation(reputation, vs) == reputation,
{
}

/// Towns never shrink.
pub proof fn lemma_towns_never_shrink(population: u32, rate: u32)
    ensures
        spec_grow_once(population, rate) >= population,
{
    lemma_mul_mono(10000, 10000 + rate, population as int);
    assert(10000 * (population as int) == population as int * 10000) by (nonlinear_arith);
    assert((population as int) * 10000 / 10000 == population) by (nonlinear_arith);
    assert(population as int * (10000 + rate as int) == (10000 + rate) * population) by (nonlinear_arith);
    lemma_div_mono(population as int * 10000, population as int * (10000 + rate as int), 10000);
}

/// Any number of growth ticks leaves a town at least as large as it was.
proof fn lemma_growth_never_shrinks(population: u32, rate: u32, k: nat)
    ensures
        spec_grow(population, rate, k) >= population,
    decreases k,
{
    if k > 0 {
        lemma_growth_never_shrinks(population, rate, (k - 1) as nat);
        lemma_towns_never_shrink(spec_grow(population, rate, (k - 1) as nat), rate);
    }
}

/// A world tick never shrinks a town: a tile that held a town still holds one, at least
/// as populous, with the same name and growth rate.
pub proof fn lemma_world_tick_keeps_towns(old: World, new: World, x: usize, y: usize)
    requires
        spec_world_updated(old, new),
        old.in_bounds(x as int, y as int),
        old.tile_at(x as int, y as int).content is Town,
    ensures
        new.in_bounds(x as int, y as int),
        new.tile_at(x as int, y as int).content is Town,
        new.tile_at(x as int, y as int).content->Town_0.population
            >= old.tile_at(x as int, y as int).content->Town_0.population,
        new.tile_at(x as int, y as int).content->Town_0.name
            == old.tile_at(x as int, y as int).content->Town_0.name,
        new.tile_at(x as int, y as int).content->Town_0.growth_rate
            == old.tile_at(x as int, y as int).content->Town_0.growth_rate,
{
    assert(new.in_bounds(x as int, y as int));
    let t = old.tile_at(x as int, y as int).content->Town_0;
    let k = crate::world::occurrences(old.towns@, (x, y));
    lemma_growth_never_shrinks(t.population, t.growth_rate, k);
}

/// Cargo in demand never gets cheaper: when, after a tick, the demand for a kind of cargo
/// is at least its supply, its price has not fallen.
pub proof fn lemma_wanted_cargo_never_cheapens(old: Economy, new: Economy, world: World, c: CargoType)
    requires
        spec_economy_updated(old, new, world),
        spec_market_after(old, world, c, new.month).demand >= spec_market_after(old, world, c, new.month).supply,
    ensures
        new.price(c) >= old.price(c),
{
    let m = spec_market_after(old, world, c, new.month);
    if m.supply > 0 {
        assert((m.demand as int) * 1000 / (m.supply as int) >= 1000) by (nonlinear_arith)
            requires
                m.demand >= m.supply,
                m.supply > 0,
        ;
    }
    assert(m.price_multiplier >= 1000);
    let p1 = spec_price_after_month(old, c, new.month);
    if new.month % 30 == 0 {
        lemma_inflation_raises_prices(old.price(c), 1000 + old.inflation_rate);
    }
    assert(p1 >= old.price(c));
    lemma_inflation_raises_prices(p1, m.price_multiplier as int);
}

/// A vehicle's record only grows: a tick never takes a delivery away, never lowers its
/// profit, and keeps its on-time deliveries within its deliveries.
pub proof fn lemma_vehicle_record_only_grows(old: Vehicle, new: Vehicle, world: World)
    requires
        spec_updated(old, new, world),
        old.on_time_deliveries <= old.total_deliveries,
    ensures
        new.total_deliveries >= old.total_deliveries,
        new.on_time_deliveries <= new.total_deliveries,
        new.profit >= old.profit,
{
    lemma_route_milli_bounds(old.route@);
    crate::cargo::lemma_total_zero(new.cargo);
}

/// A boom pays six fifths of the stable price, and a recession four fifths, each rounded
/// down to a thousandth: five boom prices lie within four thousandths below and five
/// above six stable prices, and five recession prices within four below and three above
/// four stable prices. This holds wherever the boom price stays below `u64::MAX`.
pub proof fn lemma_state_prices_in_proportion(base: u64, d: u64)
    requires
        base * (100000 + (if d > 50000 { 50000int } else { d as int })) * 12 / 1000000 <= u64::MAX,
    ensures
        6 * spec_cargo_price(base, d, EconomicState::Stable) - 4 <= 5 * spec_cargo_price(base, d, EconomicState::Boom)
            <= 6 * spec_cargo_price(base, d, EconomicState::Stable) + 5,
        4 * spec_cargo_price(base, d, EconomicState::Stable) - 4 <= 5 * spec_cargo_price(base, d, EconomicState::Recession)
            <= 4 * spec_cargo_price(base, d, EconomicState::Stable) + 3,
{
    let m: int = if d > 50000 { 50000 } else { d as int };
    let x: int = base * (100000 + m);
    assert(x >= 0) by (nonlinear_arith)
        requires
            base >= 0,
            m >= 0,
            x == base * (100000 + m),
    ;
    assert(x * 10 / 1000000 <= x * 12 / 1000000 && x * 8 / 1000000 <= x * 12 / 1000000);
    let st = x * 10 / 1000000;
    let bo = x * 12 / 1000000;
    let re = x * 8 / 1000000;
    assert(6 * st - 4 <= 5 * bo <= 6 * st + 5) by (nonlinear_arith)
        requires
            x >= 0,
            st == x * 10 / 1000000,
            bo == x * 12 / 1000000,
    ;
    assert(4 * st - 4 <= 5 * re <= 4 * st + 3) by (nonlinear_arith)
        requires
            x >= 0,
            st == x * 10 / 1000000,
            re == x * 8 / 1000000,
    ;
}

/// Prices are kept in whole thousandths, rounded down: the exact price of a route lies
/// at or above the price given and less than a thousandth above it, wherever it stays
/// below `u64::MAX`.
pub proof fn lemma_price_rounds_down(base: u64, d: u64, s: EconomicState)
    requires
        base * (100000 + (if d > 50000 { 50000int } else { d as int })) * crate::economy::spec_state_factor(s)
            / 1000000 <= u64::MAX,
    ensures
        1000000 * spec_cargo_price(base, d, s)
            <= base * (100000 + (if d > 50000 { 50000int } else { d as int })) * crate::economy::spec_state_factor(s)
            < 1000000 * (spec_cargo_price(base, d, s) + 1),
{
}

/// A price scaled by a factor in thousandths is rounded down to a thousandth: the exact
/// product lies at or above the result and less than a thousandth above it, wherever it
/// stays below `u64::MAX`. The monthly rise by inflation and each tick's market multiplier
/// are such scalings.
pub proof fn lemma_scaling_rounds_down(price: u64, factor: int)
    requires
        factor >= 0,
        price * factor / 1000 <= u64::MAX,
    ensures
        1000 * spec_scale_price(price, factor) <= price * factor < 1000 * (spec_scale_price(price, factor) + 1),
{
}

/// A specialist ranks a route for its focus cargo thirty points above its priority (the
/// sum wrapping past `u32::MAX`), and every other target, a route for any other cargo
/// included, at exactly its priority.
pub proof fn lemma_specialist_favours_its_focus(t: AITarget, focus: CargoType)
    ensures
        match t.target_type {
            AITargetType::BuildRoute { cargo, .. } => {
                &&& cargo == focus && t.priority + 30 <= u32::MAX ==>
                    spec_target_key(t, AIStrategy::Specialist { focus }) == t.priority + 30
                &&& cargo == focus && t.priority + 30 > u32::MAX ==>
                    spec_target_key(t, AIStrategy::Specialist { focus }) == t.priority + 30 - 0x1_0000_0000
                &&& cargo != focus ==> spec_target_key(t, AIStrategy::Specialist { focus }) == t.priority
            },
            _ => spec_target_key(t, AIStrategy::Specialist { focus }) == t.priority,
        },
{
}

/// The monthly demand step never moves demand the wrong way: a recession takes a tenth
/// off (rounded down), so demand never rises; a boom adds a tenth (rounded down, stopping
/// at `u32::MAX`), so demand never falls; a stable market keeps it.
pub proof fn lemma_monthly_demand_direction(demand: u32)
    ensures
        spec_monthly_demand(demand, EconomicState::Recession) == demand * 9 / 10,
        spec_monthly_demand(demand, EconomicState::Recession) <= demand,
        demand * 11 / 10 <= u32::MAX ==> spec_monthly_demand(demand, EconomicState::Boom) == demand * 11 / 10,
        demand * 11 / 10 > u32::MAX ==> spec_monthly_demand(demand, EconomicState::Boom) == u32::MAX,
        spec_monthly_demand(demand, EconomicState::Boom) >= demand,
        spec_monthly_demand(demand, EconomicState::Stable) == demand,
{
}

/// On a tick that ends a month, a cargo that the map does not demand has its demand
/// moved by the economic state: in a recession it becomes nine tenths of what it was
/// (rounded down) and so never rises; in a boom it never falls.
pub proof fn lemma_month_end_demand(old: Economy, new: Economy, world: World, c: CargoType)
    requires
        spec_economy_updated(old, new, world),
        new.month % 30 == 0,
        !spec_world_present(world, c, true),
    ensures
        old.economic_state == EconomicState::Recession ==> {
            &&& new.market(c).demand == old.market(c).demand * 9 / 10
            &&& new.market(c).demand <= old.market(c).demand
        },
        old.economic_state == EconomicState::Boom ==> new.market(c).demand >= old.market(c).demand,
        old.economic_state == EconomicState::Stable ==> new.market(c).demand == old.market(c).demand,
{
    lemma_monthly_demand_direction(old.market(c).demand);
}

/// A company whose vehicles have, after the tick, made no delivery yet earns nothing in
/// it: its money changes by the running costs alone (wrapping in the `i64` range) and no
/// route's profit moves.
pub proof fn lemma_no_deliveries_no_income(old: Player, new: Player, world: World)
    requires
        spec_ticked(old, new, world),
        forall|i: int| 0 <= i < new.vehicles@.len() ==> (#[trigger] new.vehicles@[i]).total_deliveries == 0,
    ensures
        new.money == wrapped(old.money - spec_sum_costs(new.vehicles@)),
        forall|r: int| 0 <= r < new.routes@.len() ==> (#[trigger] new.routes@[r]).profit == old.routes@[r].profit,
{
    lemma_no_deliveries_sum(new.vehicles@);
    assert forall|r: int| 0 <= r < new.routes@.len() implies (#[trigger] new.routes@[r]).profit == old.routes@[r].profit by {
        lemma_no_deliveries_route(old.routes@, new.vehicles@, r);
        crate::wrap::lemma_wrapped_small(old.routes@[r].profit as int);
    }
}

proof fn lemma_no_deliveries_sum(vs: Seq<Vehicle>)
    requires
        forall|i: int| 0 <= i < vs.len() ==> (#[trigger] vs[i]).total_deliveries == 0,
    ensures
        crate::player::spec_sum_tick_profit(vs) == 0,
    decreases vs.len(),
{
    if vs.len() > 0 {
        let rest = vs.drop_last();
        assert forall|i: int| 0 <= i < rest.len() implies (#[trigger] rest[i]).total_deliveries == 0 by {
            assert(rest[i] == vs[i]);
        }
        lemma_no_deliveries_sum(rest);
        assert(vs.last() == vs[vs.len() - 1]);
    }
}

proof fn lemma_no_deliveries_route(routes: Seq<crate::player::Route>, vs: Seq<Vehicle>, r: int)
    requires
        forall|i: int| 0 <= i < vs.len() ==> (#[trigger] vs[i]).total_deliveries == 0,
    ensures
        crate::player::spec_route_income(routes, vs, r) == 0,
    decreases vs.len(),
{
    if vs.len() > 0 {
        let rest = vs.drop_last();
        assert forall|i: int| 0 <= i < rest.len() implies (#[trigger] rest[i]).total_deliveries == 0 by {
            assert(rest[i] == vs[i]);
        }
        lemma_no_deliveries_route(routes, rest, r);
        assert(vs.last() == vs[vs.len() - 1]);
    }
}

/// After loading, a vehicle heads for the next stop of its route: the stop after the one
/// it was at, and the first stop again once it has served the last, so it goes round its
/// route; the index always stays on the route.
pub proof fn lemma_loading_moves_on_round_the_route(old: Vehicle, new: Vehicle, world: World)
    requires
        spec_updated(old, new, world),
        old.state == crate::vehicle::VehicleState::Loading,
        old.route@.len() > 0,
        old.route_index < old.route@.len(),
    ensures
        old.route_index + 1 < old.route@.len() ==> new.route_index == old.route_index + 1,
        old.route_index + 1 == old.route@.len() ==> new.route_index == 0,
        new.route_index < old.route@.len(),
{
    let n = old.route@.len() as int;
    if old.route_index + 1 < n {
        assert((old.route_index + 1) % n == old.route_index + 1) by (nonlinear_arith)
            requires 0 <= old.route_index + 1 < n;
    } else {
        assert((old.route_index + 1) % n == 0) by (nonlinear_arith)
            requires old.route_index + 1 == n, n > 0;
    }
}

/// A generated industry produces exactly one cargo, fixed by its type, and never one it
/// consumes: a coal mine coal, an iron ore mine iron ore, a steel mill steel, a factory
/// goods, a farm food, a sawmill wood, an oil rig oil and a refinery goods.
pub proof fn lemma_industry_produces_its_cargo(t: Tile)
    requires
        is_generated_industry(t),
    ensures
        t.content matches TileContent::Industry(ind) && {
            &&& ind.cargo_output@.len() == 1
            &&& !ind.cargo_input@.contains(ind.cargo_output@[0])
            &&& ind.cargo_output@[0] == match ind.industry_type {
                IndustryType::CoalMine => CargoType::Coal,
                IndustryType::IronOreMine => CargoType::IronOre,
                IndustryType::SteelMill => CargoType::Steel,
                IndustryType::Factory => CargoType::Goods,
                IndustryType::Farm => CargoType::Food,
                IndustryType::Sawmill => CargoType::Wood,
                IndustryType::OilRig => CargoType::Oil,
                IndustryType::Refinery => CargoType::Goods,
            }
        },
{
    if let TileContent::Industry(ind) = t.content {
        match ind.industry_type {
            IndustryType::SteelMill => {
                assert(ind.cargo_input@[0] != CargoType::Steel && ind.cargo_input@[1] != CargoType::Steel);
            },
            IndustryType::Factory => {
                assert(ind.cargo_input@[0] != CargoType::Goods);
            },
            IndustryType::Refinery => {
                assert(ind.cargo_input@[0] != CargoType::Goods);
            },
            _ => {},
        }
    }
}

/// How the other strategies rank: an aggressive company puts vehicles twenty points and
/// new routes fifteen points above their priority, a conservative one puts routes to
/// expand twenty-five points above, a balanced one takes every priority as it is (each
/// sum wrapping past `u32::MAX`), and every other target is ranked at its priority.
pub proof fn lemma_strategy_keys(t: AITarget)
    ensures
        spec_target_key(t, AIStrategy::Balanced) == t.priority,
        spec_target_key(t, AIStrategy::Aggressive) == match t.target_type {
            AITargetType::BuyVehicle { .. } => (t.priority + 20) % 0x1_0000_0000,
            AITargetType::BuildRoute { .. } => (t.priority + 15) % 0x1_0000_0000,
            _ => t.priority as int,
        },
        spec_target_key(t, AIStrategy::Conservative) == match t.target_type {
            AITargetType::ExpandExistingRoute { .. } => (t.priority + 25) % 0x1_0000_0000,
            _ => t.priority as int,
        },
{
    let p = t.priority as int;
    assert(p + 20 <= u32::MAX ==> (p + 20) % 0x1_0000_0000 == p + 20) by (nonlinear_arith) requires 0 <= p;
    assert(p + 20 > u32::MAX ==> (p + 20) % 0x1_0000_0000 == p + 20 - 0x1_0000_0000) by (nonlinear_arith) requires 0 <= p <= u32::MAX;
    assert(p + 15 <= u32::MAX ==> (p + 15) % 0x1_0000_0000 == p + 15) by (nonlinear_arith) requires 0 <= p;
    assert(p + 15 > u32::MAX ==> (p + 15) % 0x1_0000_0000 == p + 15 - 0x1_0000_0000) by (nonlinear_arith) requires 0 <= p <= u32::MAX;
    assert(p + 25 <= u32::MAX ==> (p + 25) % 0x1_0000_0000 == p + 25) by (nonlinear_arith) requires 0 <= p;
    assert(p + 25 > u32::MAX ==> (p + 25) % 0x1_0000_0000 == p + 25 - 0x1_0000_0000) by (nonlinear_arith) requires 0 <= p <= u32::MAX;
}

/// A generated industry consumes what its type needs: a steel mill coal and iron ore, a
/// factory steel, a refinery oil, and every other industry nothing.
pub proof fn lemma_industry_consumes_its_inputs(t: Tile)
    requires
        is_generated_industry(t),
    ensures
        t.content matches TileContent::Industry(ind) && ind.cargo_input@ == match ind.industry_type {
            IndustryType::SteelMill => seq![CargoType::Coal, CargoType::IronOre],
            IndustryType::Factory => seq![CargoType::Steel],
            IndustryType::Refinery => seq![CargoType::Oil],
            _ => Seq::<CargoType>::empty(),
        },
{
}

/// A vehicle's round: an idle vehicle with a stop ahead sets off for it from where it
/// stands; a moving one arrives and starts loading once its progress reaches 1000, and
/// otherwise advances by its speed; an unloading one empties its hold and goes idle,
/// counting a delivery exactly when it carried something. None of these steps changes
/// the stop it heads for.
pub proof fn lemma_vehicle_round(old: Vehicle, new: Vehicle, world: World)
    requires
        spec_updated(old, new, world),
    ensures
        old.state == crate::vehicle::VehicleState::Idle && old.route_index < old.route@.len() ==> {
            &&& new.state == (crate::vehicle::VehicleState::Moving {
                from: (old.x, old.y), to: old.route@[old.route_index as int], progress: 0 })
            &&& new.x == old.x && new.y == old.y && new.route_index == old.route_index
        },
        old.state == crate::vehicle::VehicleState::Idle && old.route_index >= old.route@.len() ==>
            new.state == crate::vehicle::VehicleState::Idle,
        old.state matches crate::vehicle::VehicleState::Moving { from, to, progress } ==> {
            &&& new.route_index == old.route_index
            &&& progress + old.speed >= 1000 ==> new.x == to.0 && new.y == to.1
                && new.state == crate::vehicle::VehicleState::Loading
            &&& progress + old.speed < 1000 ==> new.x == old.x && new.y == old.y
                && new.state == (crate::vehicle::VehicleState::Moving { from, to, progress: (progress + old.speed) as u32 })
        },
        old.state == crate::vehicle::VehicleState::Unloading ==> {
            &&& new.state == crate::vehicle::VehicleState::Idle
            &&& new.cargo.total() == 0
            &&& new.route_index == old.route_index
            &&& new.total_deliveries == if old.cargo.total() > 0 { old.total_deliveries + 1 } else { old.total_deliveries as int }
        },
{
    if old.state == crate::vehicle::VehicleState::Unloading {
        crate::cargo::lemma_total_zero(new.cargo);
    }
}

/// A company running one vehicle earns, in a tick, the delivery profit of what that
/// vehicle carries once it has made a delivery, and nothing before; it pays the
/// vehicle's running costs either way (the balance wrapping in the `i64` range).
pub proof fn lemma_one_vehicle_income(old: Player, new: Player, world: World)
    requires
        spec_ticked(old, new, world),
        new.vehicles@.len() == 1,
    ensures
        new.money == wrapped(old.money
            + (if new.vehicles@[0].total_deliveries > 0 {
                crate::vehicle::spec_delivery_profit(new.vehicles@[0].cargo, new.vehicles@[0].route@)
            } else {
                0
            })
            - spec_running_costs(new.vehicles@[0].vehicle_type, new.vehicles@[0].age, new.vehicles@[0].reliability)),
{
    let vs = new.vehicles@;
    assert(vs.drop_last().len() == 0);
    assert(vs.last() == vs[0]);
    reveal_with_fuel(crate::player::spec_sum_tick_profit, 2);
    reveal_with_fuel(spec_sum_costs, 2);
}

} // verus!
