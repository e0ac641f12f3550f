use vstd::prelude::*;
use crate::cargo::{CargoType, CargoAmounts};
use crate::rng::random_range;
use crate::vehicle::{Vehicle, VehicleType, TruckType};

verus! {

#[derive(Clone, Copy, Debug, PartialEq, Eq, Structural)]
pub enum TerrainType {
    Grass,
    Water,
    Mountain,
    Desert,
    Forest,
}

#[derive(Debug)]
pub enum TileContent {
    Empty,
    Town(Town),
    Industry(Industry),
    Station(Station),
    Track(TrackType),
    Road,
}

#[derive(Clone, Copy, Debug, PartialEq, Eq, Structural)]
pub enum TrackType {
    Straight { horizontal: bool },
    Curve { from_dir: Direction, to_dir: Direction },
    Junction,
}

#[derive(Clone, Copy, Debug, PartialEq, Eq, Structural)]
pub enum Direction {
    North,
    South,
    East,
    West,
}

/// A town. `growth_rate` is the growth per tick in hundredths of a percent
/// (a rate of 150 grows the population by 1.5% each tick).
#[derive(Debug)]
pub struct Town {
    pub name: String,
    pub population: u32,
    pub growth_rate: u32,
    pub cargo_demand: CargoAmounts,
    pub cargo_supply: CargoAmounts,
}

#[derive(Debug)]
pub struct Industry {
    pub industry_type: IndustryType,
    pub production_rate: u32,
    pub cargo_input: Vec<CargoType>,
    pub cargo_output: Vec<CargoType>,
    pub stockpile: CargoAmounts,
}

#[derive(Clone, Copy, Debug, PartialEq, Eq, Structural)]
pub enum IndustryType {
    CoalMine,
    IronOreMine,
    SteelMill,
    Factory,
    Farm,
    Sawmill,
    OilRig,
    Refinery,
}

#[derive(Debug)]
pub struct Station {
    pub name: String,
    pub station_type: StationType,
    pub cargo_waiting: CargoAmounts,
    pub connections: Vec<(usize, usize)>,
}

#[derive(Clone, Copy, Debug, PartialEq, Eq, Structural)]
pub enum StationType {
    Train,
    Road,
    Airport,
    Harbor,
}

#[derive(Debug)]
pub struct Tile {
    pub terrain: TerrainType,
    pub content: TileContent,
    pub height: u8,
}

pub struct World {
    pub width: usize,
    pub height: usize,
    pub tiles: Vec<Vec<Tile>>,
    pub towns: Vec<(usize, usize)>,
    pub industries: Vec<(usize, usize)>,
    pub stations: Vec<(usize, usize)>,
}

/// The cargo an industry consumes.
pub open spec fn spec_industry_inputs(t: IndustryType) -> Seq<CargoType> {
    match t {
        IndustryType::SteelMill => seq![CargoType::Coal, CargoType::IronOre],
        IndustryType::Factory => seq![CargoType::Steel],
        IndustryType::Refinery => seq![CargoType::Oil],
        _ => Seq::empty(),
    }
}

/// The cargo an industry produces.
pub open spec fn spec_industry_outputs(t: IndustryType) -> Seq<CargoType> {
    match t {
        IndustryType::CoalMine => seq![CargoType::Coal],
        IndustryType::IronOreMine => seq![CargoType::IronOre],
        IndustryType::SteelMill => seq![CargoType::Steel],
        IndustryType::Factory => seq![CargoType::Goods],
        IndustryType::Farm => seq![CargoType::Food],
        IndustryType::Sawmill => seq![CargoType::Wood],
        IndustryType::OilRig => seq![CargoType::Oil],
        IndustryType::Refinery => seq![CargoType::Goods],
    }
}

/// The terrain chosen for a roll in `0..100`.
pub open spec fn spec_terrain_for_roll(roll: int) -> TerrainType {
    if roll <= 60 {
        TerrainType::Grass
    } else if roll <= 70 {
        TerrainType::Forest
    } else if roll <= 80 {
        TerrainType::Water
    } else if roll <= 90 {
        TerrainType::Mountain
    } else {
        TerrainType::Desert
    }
}

/// The industry chosen for a roll in `0..8`.
pub open spec fn spec_industry_for_roll(roll: int) -> IndustryType {
    if roll == 0 {
        IndustryType::CoalMine
    } else if roll == 1 {
        IndustryType::IronOreMine
    } else if roll == 2 {
        IndustryType::SteelMill
    } else if roll == 3 {
        IndustryType::Factory
    } else if roll == 4 {
        IndustryType::Farm
    } else if roll == 5 {
        IndustryType::Sawmill
    } else if roll == 6 {
        IndustryType::OilRig
    } else {
        IndustryType::Refinery
    }
}

/// Column `x` of row `y` exists in a grid of rows.
pub open spec fn grid_has(g: Seq<Vec<Tile>>, x: int, y: int) -> bool {
    0 <= y < g.len() && 0 <= x < g[y]@.len()
}

/// The tile at column `x` of row `y` of a grid of rows.
pub open spec fn grid_at(g: Seq<Vec<Tile>>, x: int, y: int) -> Tile {
    g[y]@[x]
}

/// Number of times `c` occurs in `s`.
pub open spec fn count_cargo(s: Seq<CargoType>, c: CargoType) -> nat
    decreases s.len(),
{
    if s.len() == 0 {
        0
    } else {
        count_cargo(s.drop_last(), c) + if s.last() == c { 1nat } else { 0nat }
    }
}

/// Number of times `p` occurs in `s`.
pub open spec fn occurrences(s: Seq<(usize, usize)>, p: (usize, usize)) -> nat
    decreases s.len(),
{
    if s.len() == 0 {
        0
    } else {
        occurrences(s.drop_last(), p) + if s.last() == p { 1nat } else { 0nat }
    }
}

/// One tick of town growth: the population grows by `rate` hundredths of a percent,
/// rounded down, and stops at `u32::MAX`.
pub open spec fn spec_grow_once(population: u32, rate: u32) -> u32 {
    let grown = population as int * (10000 + rate as int) / 10000;
    if grown > u32::MAX as int { u32::MAX } else { grown as u32 }
}

/// `k` ticks of town growth.
pub open spec fn spec_grow(population: u32, rate: u32, k: nat) -> u32
    decreases k,
{
    if k == 0 {
        population
    } else {
        spec_grow_once(spec_grow(population, rate, (k - 1) as nat), rate)
    }
}

/// `new` is `old` after `k` production ticks: an industry without inputs adds its
/// production rate to the stockpile of each of its outputs, once per occurrence of that
/// output in its output list; any other industry is left as it is.
pub open spec fn industry_after(old: Industry, new: Industry, k: nat) -> bool {
    &&& new.industry_type == old.industry_type
    &&& new.production_rate == old.production_rate
    &&& new.cargo_input == old.cargo_input
    &&& new.cargo_output == old.cargo_output
    &&& forall|c: CargoType| #[trigger] new.stockpile.get(c) == if old.cargo_input@.len() == 0 {
        old.stockpile.get(c) + k * old.production_rate * count_cargo(old.cargo_output@, c)
    } else {
        old.stockpile.get(c) as int
    }
}

/// The stockpiles of `ind` can take `k` production ticks without overflow.
pub open spec fn industry_can_produce(ind: Industry, k: nat) -> bool {
    ind.cargo_input@.len() == 0 ==> forall|c: CargoType|
        #[trigger] ind.stockpile.get(c) + k * ind.production_rate * count_cargo(ind.cargo_output@, c)
            <= u32::MAX
}

/// `new` is `old` after a world update in which its position was listed `k` times among
/// the towns and `j` times among the industries.
pub open spec fn tile_after_update(old: Tile, new: Tile, k: nat, j: nat) -> bool {
    &&& new.terrain == old.terrain
    &&& new.height == old.height
    &&& match old.content {
        TileContent::Town(t) => match new.content {
            TileContent::Town(n) => {
                &&& n.name == t.name
                &&& n.growth_rate == t.growth_rate
                &&& n.cargo_demand == t.cargo_demand
                &&& n.cargo_supply == t.cargo_supply
                &&& n.population == spec_grow(t.population, t.growth_rate, k)
            },
            _ => false,
        },
        TileContent::Industry(ind) => match new.content {
            TileContent::Industry(n) => industry_after(ind, n, j),
            _ => false,
        },
        _ => new.content == old.content,
    }
}


/// Counting one more element at the end of a sequence.
proof fn lemma_count_cargo_push(s: Seq<CargoType>, i: int, c: CargoType)
    requires
        0 <= i < s.len(),
    ensures
        count_cargo(s.take(i + 1), c) == count_cargo(s.take(i), c) + if s[i] == c { 1nat } else { 0nat },
{
    assert(s.take(i + 1).drop_last() =~= s.take(i));
}

proof fn lemma_occurrences_push(s: Seq<(usize, usize)>, i: int, p: (usize, usize))
    requires
        0 <= i < s.len(),
    ensures
        occurrences(s.take(i + 1), p) == occurrences(s.take(i), p) + if s[i] == p { 1nat } else { 0nat },
{
    assert(s.take(i + 1).drop_last() =~= s.take(i));
}

proof fn lemma_count_cargo_bounds(s: Seq<CargoType>, i: int, c: CargoType)
    requires
        0 <= i <= s.len(),
    ensures
        count_cargo(s.take(i), c) <= count_cargo(s, c),
    decreases s.len() - i,
{
    if i < s.len() {
        lemma_count_cargo_push(s, i, c);
        lemma_count_cargo_bounds(s, i + 1, c);
    } else {
        assert(s.take(i) =~= s);
    }
}

proof fn lemma_occurrences_bounds(s: Seq<(usize, usize)>, i: int, p: (usize, usize))
    requires
        0 <= i <= s.len(),
    ensures
        occurrences(s.take(i), p) <= occurrences(s, p),
    decreases s.len() - i,
{
    if i < s.len() {
        lemma_occurrences_push(s, i, p);
        lemma_occurrences_bounds(s, i + 1, p);
    } else {
        assert(s.take(i) =~= s);
    }
}

proof fn lemma_mul_step(a: int, k: int, r: int, n: int)
    requires
        0 <= k, 0 <= r, 0 <= n,
    ensures
        a + k * r * (n + 1) == a + k * r * n + k * r,
        a + (k + 1) * r * n == a + k * r * n + r * n,
{
    assert(k * r * (n + 1) == k * r * n + k * r) by (nonlinear_arith);
    assert((k + 1) * r * n == k * r * n + r * n) by (nonlinear_arith);
}

proof fn lemma_mul_k_mono(j: int, jj: int, r: int, n: int)
    requires
        0 <= j <= jj, 0 <= r, 0 <= n,
    ensures
        j * r * n <= jj * r * n,
{
    assert(j * r * n <= jj * r * n) by (nonlinear_arith)
        requires
            0 <= j <= jj, 0 <= r, 0 <= n,
    ;
}

proof fn lemma_mul_mono(k: int, r: int, a: int, b: int)
    requires
        0 <= k, 0 <= r, 0 <= a <= b,
    ensures
        k * r * a <= k * r * b,
{
    assert(k * r * a <= k * r * b) by (nonlinear_arith)
        requires
            0 <= k, 0 <= r, 0 <= a <= b,
    ;
}

/// The name of the `i`-th generated town.
fn town_name(i: usize) -> (r: String)
    ensures
        r@ == spec_town_name(i as int),
{
    let k = i % 10;
    let s = if k == 0 { "Springfield" }
    else if k == 1 { "Riverside" }
    else if k == 2 { "Madison" }
    else if k == 3 { "Georgetown" }
    else if k == 4 { "Franklin" }
    else if k == 5 { "Clinton" }
    else if k == 6 { "Chester" }
    else if k == 7 { "Marion" }
    else if k == 8 { "Greenwood" }
    else { "Fairview" };
    s.to_string()
}

/// The terrain for a roll in `0..100`.
pub fn terrain_for_roll(roll: usize) -> (t: TerrainType)
    ensures
        t == spec_terrain_for_roll(roll as int),
{
    if roll <= 60 {
        TerrainType::Grass
    } else if roll <= 70 {
        TerrainType::Forest
    } else if roll <= 80 {
        TerrainType::Water
    } else if roll <= 90 {
        TerrainType::Mountain
    } else {
        TerrainType::Desert
    }
}

/// The industry type for a roll in `0..8`.
pub fn industry_type_for_roll(roll: usize) -> (t: IndustryType)
    ensures
        t == spec_industry_for_roll(roll as int),
{
    if roll == 0 {
        IndustryType::CoalMine
    } else if roll == 1 {
        IndustryType::IronOreMine
    } else if roll == 2 {
        IndustryType::SteelMill
    } else if roll == 3 {
        IndustryType::Factory
    } else if roll == 4 {
        IndustryType::Farm
    } else if roll == 5 {
        IndustryType::Sawmill
    } else if roll == 6 {
        IndustryType::OilRig
    } else {
        IndustryType::Refinery
    }
}

/// One tick of growth of a town's population.
pub fn grow_population(population: u32, rate: u32) -> (r: u32)
    ensures
        r == spec_grow_once(population, rate),
{
    let p = population as u128;
    let f = 10000u128 + rate as u128;
    assert(p * f <= 0x1_0000_0000 * 0x2_0000_0000) by (nonlinear_arith)
        requires
            p <= 0x1_0000_0000,
            f <= 0x2_0000_0000,
    ;
    let grown: u128 = p * f / 10000u128;
    if grown > u32::MAX as u128 {
        u32::MAX
    } else {
        grown as u32
    }
}

impl Industry {
    /// One production tick: an industry that needs no input adds its production rate to
    /// the stockpile of each of its outputs.
    pub fn produce(&mut self)
        requires
            industry_can_produce(*old(self), 1),
        ensures
            industry_after(*old(self), *final(self), 1),
    {
        if self.cargo_input.len() == 0 {
            let n = self.cargo_output.len();
            let ghost start = self.stockpile;
            let mut i: usize = 0;
            assert(self.cargo_output@.take(0) =~= Seq::<CargoType>::empty());
            assert forall|c: CargoType| #[trigger] self.stockpile.get(c) == start.get(c)
                + 1 * self.production_rate * count_cargo(self.cargo_output@.take(0), c) by {
                assert(count_cargo(self.cargo_output@.take(0), c) == 0);
                assert(1 * self.production_rate * 0 == 0);
            }
            while i < n
                invariant
                    0 <= i <= n,
                    n == self.cargo_output@.len(),
                    self.industry_type == old(self).industry_type,
                    self.production_rate == old(self).production_rate,
                    self.cargo_input == old(self).cargo_input,
                    self.cargo_output == old(self).cargo_output,
                    self.cargo_input@.len() == 0,
                    start == old(self).stockpile,
                    industry_can_produce(*old(self), 1),
                    forall|c: CargoType| #[trigger] self.stockpile.get(c) == start.get(c)
                        + 1 * self.production_rate * count_cargo(self.cargo_output@.take(i as int), c),
                decreases n - i,
            {
                let c = self.cargo_output[i];
                proof {
                    assert forall|d: CargoType| true implies #[trigger] count_cargo(self.cargo_output@.take(i + 1), d)
                        == count_cargo(self.cargo_output@.take(i as int), d) + if self.cargo_output@[i as int] == d { 1nat } else { 0nat } by {
                        lemma_count_cargo_push(self.cargo_output@, i as int, d);
                    }
                    lemma_count_cargo_bounds(self.cargo_output@, i + 1, c);
                    lemma_mul_mono(1, self.production_rate as int, count_cargo(self.cargo_output@.take(i + 1), c) as int,
                        count_cargo(self.cargo_output@, c) as int);
                    assert(industry_can_produce(*old(self), 1));
                    assert(old(self).stockpile.get(c) + 1 * old(self).production_rate * count_cargo(old(self).cargo_output@, c) <= u32::MAX);
                    lemma_mul_step(start.get(c) as int, 1, self.production_rate as int,
                        count_cargo(self.cargo_output@.take(i as int), c) as int);
                }
                self.stockpile.add(c, self.production_rate);
                proof {
                    assert forall|d: CargoType| #[trigger] self.stockpile.get(d) == start.get(d)
                        + 1 * self.production_rate * count_cargo(self.cargo_output@.take(i + 1), d) by {
                        lemma_mul_step(start.get(d) as int, 1, self.production_rate as int,
                            count_cargo(self.cargo_output@.take(i as int), d) as int);
                    }
                }
                i = i + 1;
            }
            assert(self.cargo_output@.take(n as int) =~= self.cargo_output@);
        }
    }
}


/// The name given to the `i`-th town generated.
pub open spec fn spec_town_name(i: int) -> Seq<char> {
    let k = i % 10;
    if k == 0 { "Springfield"@ }
    else if k == 1 { "Riverside"@ }
    else if k == 2 { "Madison"@ }
    else if k == 3 { "Georgetown"@ }
    else if k == 4 { "Franklin"@ }
    else if k == 5 { "Clinton"@ }
    else if k == 6 { "Chester"@ }
    else if k == 7 { "Marion"@ }
    else if k == 8 { "Greenwood"@ }
    else { "Fairview"@ }
}

/// A town as world generation makes it: on grass or forest, with 500 to 4999
/// inhabitants, a growth rate of 10 to 199 hundredths of a percent, and no recorded
/// demand or supply.
pub open spec fn is_generated_town(t: Tile) -> bool {
    &&& (t.terrain == TerrainType::Grass || t.terrain == TerrainType::Forest)
    &&& match t.content {
        TileContent::Town(town) => {
            &&& 500 <= town.population < 5000
            &&& 10 <= town.growth_rate < 200
            &&& forall|c: CargoType| #[trigger] town.cargo_demand.get(c) == 0 && town.cargo_supply.get(c) == 0
        },
        _ => false,
    }
}

/// An industry as world generation makes it: inputs and outputs given by its type,
/// a production rate of 10 to 99 and an empty stockpile.
pub open spec fn is_generated_industry(t: Tile) -> bool {
    match t.content {
        TileContent::Industry(ind) => {
            &&& ind.cargo_input@ == spec_industry_inputs(ind.industry_type)
            &&& ind.cargo_output@ == spec_industry_outputs(ind.industry_type)
            &&& 10 <= ind.production_rate < 100
            &&& forall|c: CargoType| #[trigger] ind.stockpile.get(c) == 0
        },
        _ => false,
    }
}

/// `after` is `before` after attempt `i` to found a town at `d`, a position on the map:
/// on grass or forest a town named after the attempt takes the tile, with a population,
/// growth rate and empty tables as `is_generated_town` allows, and `d` is listed among
/// the towns; anywhere else the attempt changes nothing.
pub open spec fn town_placed(before: World, after: World, i: int, d: (usize, usize)) -> bool {
    &&& before.in_bounds(d.0 as int, d.1 as int)
    &&& if before.tile_at(d.0 as int, d.1 as int).terrain == TerrainType::Grass
        || before.tile_at(d.0 as int, d.1 as int).terrain == TerrainType::Forest {
        &&& after.width == before.width
        &&& after.height == before.height
        &&& after.same_shape(&before)
        &&& after.towns@ == before.towns@.push(d)
        &&& after.industries == before.industries
        &&& after.stations == before.stations
        &&& forall|a: usize, b: usize| #[trigger] grid_has(after.tiles@, a as int, b as int) && (a, b) != d
            ==> after.tile_at(a as int, b as int) == before.tile_at(a as int, b as int)
        &&& after.tile_at(d.0 as int, d.1 as int).terrain == before.tile_at(d.0 as int, d.1 as int).terrain
        &&& after.tile_at(d.0 as int, d.1 as int).height == before.tile_at(d.0 as int, d.1 as int).height
        &&& after.tile_at(d.0 as int, d.1 as int).content matches TileContent::Town(t) && t.name@ == spec_town_name(i)
        &&& is_generated_town(after.tile_at(d.0 as int, d.1 as int))
    } else {
        after == before
    }
}

/// The worlds `ws` follow one another by the town attempts at the positions `ds`, in turn.
pub open spec fn town_attempts(ws: Seq<World>, ds: Seq<(usize, usize)>) -> bool {
    &&& ws.len() == ds.len() + 1
    &&& forall|k: int| 0 <= k < ds.len() ==> #[trigger] town_placed(ws[k], ws[k + 1], k, ds[k])
}

/// `after` is `before` after an attempt to found an industry at `d`, a position on the
/// map: on an empty tile an industry of some type takes it, as `is_generated_industry`
/// allows, and `d` is listed among the industries; on any other tile the attempt changes
/// nothing.
pub open spec fn industry_placed(before: World, after: World, d: (usize, usize)) -> bool {
    &&& before.in_bounds(d.0 as int, d.1 as int)
    &&& if before.tile_at(d.0 as int, d.1 as int).content is Empty {
        &&& after.width == before.width
        &&& after.height == before.height
        &&& after.same_shape(&before)
        &&& after.industries@ == before.industries@.push(d)
        &&& after.towns == before.towns
        &&& after.stations == before.stations
        &&& forall|a: usize, b: usize| #[trigger] grid_has(after.tiles@, a as int, b as int) && (a, b) != d
            ==> after.tile_at(a as int, b as int) == before.tile_at(a as int, b as int)
        &&& after.tile_at(d.0 as int, d.1 as int).terrain == before.tile_at(d.0 as int, d.1 as int).terrain
        &&& after.tile_at(d.0 as int, d.1 as int).height == before.tile_at(d.0 as int, d.1 as int).height
        &&& is_generated_industry(after.tile_at(d.0 as int, d.1 as int))
    } else {
        after == before
    }
}

/// The worlds `ws` follow one another by the industry attempts at the positions `ds`.
pub open spec fn industry_attempts(ws: Seq<World>, ds: Seq<(usize, usize)>) -> bool {
    &&& ws.len() == ds.len() + 1
    &&& forall|k: int| 0 <= k < ds.len() ==> #[trigger] industry_placed(ws[k], ws[k + 1], ds[k])
}

/// `t` is a map as terrain generation leaves it: a `width` by `height` grid of empty
/// tiles, each of some terrain and a height below 10, with no towns, industries or
/// stations listed.
pub open spec fn is_terrain_map(t: World, width: usize, height: usize) -> bool {
    &&& t.width == width
    &&& t.height == height
    &&& t.wf()
    &&& t.towns@.len() == 0
    &&& t.industries@.len() == 0
    &&& t.stations@.len() == 0
    &&& forall|x: usize, y: usize| #[trigger] grid_has(t.tiles@, x as int, y as int) ==>
        t.tile_at(x as int, y as int).content is Empty && t.tile_at(x as int, y as int).height < 10
}

/// `w` comes from the terrain map `t` by five town attempts at the positions `ds`
/// (through the worlds `ws`) and then eight industry attempts at the positions `es`
/// (through the worlds `vs`).
pub open spec fn generated_by(
    t: World,
    ws: Seq<World>,
    ds: Seq<(usize, usize)>,
    vs: Seq<World>,
    es: Seq<(usize, usize)>,
    w: World,
) -> bool {
    &&& town_attempts(ws, ds)
    &&& ds.len() == 5
    &&& ws[0] == t
    &&& industry_attempts(vs, es)
    &&& es.len() == 8
    &&& vs[0] == ws[5]
    &&& vs[8] == w
}

/// `w` is a generated map of `width` by `height` tiles: a terrain map, then five attempts
/// to found a town and eight to found an industry, each at a drawn position.
pub open spec fn is_generated_world(w: World, width: usize, height: usize) -> bool {
    exists|t: World, ws: Seq<World>, ds: Seq<(usize, usize)>, vs: Seq<World>, es: Seq<(usize, usize)>|
        is_terrain_map(t, width, height) && #[trigger] generated_by(t, ws, ds, vs, es, w)
}

/// Along industry attempts the towns stay and the industries only grow.
proof fn lemma_industry_attempts_grow(vs: Seq<World>, es: Seq<(usize, usize)>, j: int, k: int)
    requires
        industry_attempts(vs, es),
        0 <= j <= k <= es.len(),
    ensures
        vs[k].towns == vs[j].towns,
        vs[k].industries@.len() >= vs[j].industries@.len(),
    decreases k - j,
{
    if j < k {
        lemma_industry_attempts_grow(vs, es, j, k - 1);
        assert(industry_placed(vs[k - 1], vs[(k - 1) + 1], es[k - 1]));
    }
}

impl World {
    /// The world as generation leaves it: a `width` by `height` grid without stations, with
    /// at most five town positions and eight industry positions, each on the map and
    /// holding a generated town or industry, heights below 10, and every other tile empty.
    pub open spec fn is_fresh(&self) -> bool {
        &&& self.wf()
        &&& self.stations@.len() == 0
        &&& self.towns@.len() <= 5
        &&& self.industries@.len() <= 8
        &&& forall|i: int| 0 <= i < self.towns@.len() ==> {
            let p = #[trigger] self.towns@[i];
            &&& self.in_bounds(p.0 as int, p.1 as int)
            &&& is_generated_town(self.tile_at(p.0 as int, p.1 as int))
        }
        &&& forall|i: int| 0 <= i < self.industries@.len() ==> {
            let p = #[trigger] self.industries@[i];
            &&& self.in_bounds(p.0 as int, p.1 as int)
            &&& is_generated_industry(self.tile_at(p.0 as int, p.1 as int))
        }
        &&& forall|x: usize, y: usize| #[trigger] grid_has(self.tiles@, x as int, y as int) ==> {
            &&& self.tile_at(x as int, y as int).height < 10
            &&& (self.tile_at(x as int, y as int).content is Empty || self.towns@.contains((x, y))
                || self.industries@.contains((x, y)))
        }
    }
}

/// The map symbol of a tile.
pub open spec fn spec_tile_char(t: Tile) -> char {
    match t.content {
        TileContent::Town(_) => '◉',
        TileContent::Industry(_) => '▓',
        TileContent::Station(_) => '■',
        TileContent::Track(track_type) => match track_type {
            TrackType::Straight { horizontal } => if horizontal { '─' } else { '│' },
            TrackType::Curve { .. } => '┐',
            TrackType::Junction => '┼',
        },
        TileContent::Road => '.',
        TileContent::Empty => match t.terrain {
            TerrainType::Grass => ' ',
            TerrainType::Water => '~',
            TerrainType::Mountain => '^',
            TerrainType::Desert => '∙',
            TerrainType::Forest => '♠',
        },
    }
}

/// The map symbol of a vehicle type.
pub open spec fn spec_vehicle_char(vt: VehicleType) -> char {
    match vt {
        VehicleType::Train { .. } => 'T',
        VehicleType::Road { truck_type } => match truck_type {
            TruckType::Bus { .. } => 'B',
            TruckType::SmallTruck { .. } => 't',
            TruckType::LargeTruck { .. } => 'T',
        },
        VehicleType::Ship { .. } => 'S',
        VehicleType::Aircraft { .. } => 'A',
    }
}

/// The index of the first vehicle standing on `(x, y)`, if any.
pub open spec fn first_vehicle_at(vehicles: Seq<Vehicle>, x: usize, y: usize) -> Option<int>
    decreases vehicles.len(),
{
    if vehicles.len() == 0 {
        None
    } else {
        match first_vehicle_at(vehicles.drop_last(), x, y) {
            Some(i) => Some(i),
            None => if vehicles.last().x == x && vehicles.last().y == y { Some(vehicles.len() - 1) } else { None },
        }
    }
}

/// A vehicle found first in a prefix is found first in the whole list.
proof fn lemma_first_vehicle_prefix(vehicles: Seq<Vehicle>, i: int, x: usize, y: usize)
    requires
        0 < i <= vehicles.len(),
        first_vehicle_at(vehicles.take(i - 1), x, y) is None,
        vehicles[i - 1].x == x && vehicles[i - 1].y == y,
    ensures
        first_vehicle_at(vehicles, x, y) == Some(i - 1),
    decreases vehicles.len() - i,
{
    assert(vehicles.take(i).drop_last() =~= vehicles.take(i - 1));
    if i < vehicles.len() {
        assert(vehicles.take(i + 1).drop_last() =~= vehicles.take(i));
        lemma_first_vehicle_some_prefix(vehicles, i + 1, x, y, i - 1);
    } else {
        assert(vehicles.take(i) =~= vehicles);
    }
}

proof fn lemma_first_vehicle_some_prefix(vehicles: Seq<Vehicle>, i: int, x: usize, y: usize, k: int)
    requires
        0 < i <= vehicles.len(),
        first_vehicle_at(vehicles.take(i - 1), x, y) == Some(k),
    ensures
        first_vehicle_at(vehicles, x, y) == Some(k),
    decreases vehicles.len() - i,
{
    assert(vehicles.take(i).drop_last() =~= vehicles.take(i - 1));
    if i < vehicles.len() {
        lemma_first_vehicle_some_prefix(vehicles, i + 1, x, y, k);
    } else {
        assert(vehicles.take(i) =~= vehicles);
    }
}

/// The first vehicle on a tile is the earliest one standing there.
pub proof fn lemma_first_vehicle_at(vehicles: Seq<Vehicle>, x: usize, y: usize)
    ensures
        match first_vehicle_at(vehicles, x, y) {
            Some(i) => 0 <= i < vehicles.len() && vehicles[i].x == x && vehicles[i].y == y
                && forall|j: int| 0 <= j < i ==> !(#[trigger] vehicles[j].x == x && vehicles[j].y == y),
            None => forall|j: int| 0 <= j < vehicles.len() ==> !(#[trigger] vehicles[j].x == x && vehicles[j].y == y),
        },
    decreases vehicles.len(),
{
    if vehicles.len() > 0 {
        lemma_first_vehicle_at(vehicles.drop_last(), x, y);
        assert forall|j: int| 0 <= j < vehicles.len() - 1 implies #[trigger] vehicles[j] == vehicles.drop_last()[j] by {}
    }
}

/// The position of the first vehicle standing on `(x, y)`, if any.
pub fn find_vehicle_at(vehicles: &Vec<Vehicle>, x: usize, y: usize) -> (r: Option<usize>)
    ensures
        match r {
            Some(i) => first_vehicle_at(vehicles@, x, y) == Some(i as int),
            None => first_vehicle_at(vehicles@, x, y) is None,
        },
{
    let mut i: usize = 0;
    while i < vehicles.len()
        invariant
            0 <= i <= vehicles@.len(),
            first_vehicle_at(vehicles@.take(i as int), x, y) is None,
        decreases vehicles@.len() - i,
    {
        proof {
            assert(vehicles@.take(i + 1).drop_last() =~= vehicles@.take(i as int));
        }
        if vehicles[i].x == x && vehicles[i].y == y {
            proof {
                lemma_first_vehicle_prefix(vehicles@, i + 1, x, y);
            }
            return Some(i);
        }
        i = i + 1;
    }
    assert(vehicles@.take(vehicles@.len() as int) =~= vehicles@);
    None
}

/// A tile left as it is counts as zero ticks of growth and production.
proof fn lemma_tile_after_refl(t: Tile)
    ensures
        tile_after_update(t, t, 0, 0),
{
    match t.content {
        TileContent::Industry(ind) => {
            assert forall|c: CargoType| #[trigger] ind.stockpile.get(c) == if ind.cargo_input@.len() == 0 {
                ind.stockpile.get(c) + 0 * ind.production_rate * count_cargo(ind.cargo_output@, c)
            } else {
                ind.stockpile.get(c) as int
            } by {
                assert(0 * ind.production_rate * count_cargo(ind.cargo_output@, c) == 0) by (nonlinear_arith);
            }
        },
        _ => {},
    }
}

/// Another tick of growth composes with earlier ones.
proof fn lemma_tile_after_grow(a: Tile, b: Tile, c: Tile, k: nat, j: nat)
    requires
        tile_after_update(a, b, k, j),
        tile_after_update(b, c, 1, 0),
    ensures
        tile_after_update(a, c, k + 1, j),
{
    match (a.content, b.content, c.content) {
        (TileContent::Industry(x), TileContent::Industry(y), TileContent::Industry(z)) => {
            assert forall|d: CargoType| #[trigger] z.stockpile.get(d) == y.stockpile.get(d) by {
                assert(0 * y.production_rate * count_cargo(y.cargo_output@, d) == 0) by (nonlinear_arith);
            }
        },
        (TileContent::Town(x), TileContent::Town(y), TileContent::Town(z)) => {
            assert(spec_grow(y.population, y.growth_rate, 0) == y.population);
            assert(spec_grow(y.population, y.growth_rate, 1) == spec_grow_once(y.population, y.growth_rate));
            assert(spec_grow(x.population, x.growth_rate, k + 1) == spec_grow_once(spec_grow(x.population, x.growth_rate, k), x.growth_rate));
        },
        _ => {},
    }
}

/// Another production tick composes with earlier ones.
proof fn lemma_tile_after_produce(a: Tile, b: Tile, c: Tile, k: nat, j: nat)
    requires
        tile_after_update(a, b, k, j),
        tile_after_update(b, c, 0, 1),
    ensures
        tile_after_update(a, c, k, j + 1),
{
    match (a.content, b.content, c.content) {
        (TileContent::Industry(x), TileContent::Industry(y), TileContent::Industry(z)) => {
            assert forall|d: CargoType| #[trigger] z.stockpile.get(d) == if x.cargo_input@.len() == 0 {
                x.stockpile.get(d) + (j + 1) * x.production_rate * count_cargo(x.cargo_output@, d)
            } else {
                x.stockpile.get(d) as int
            } by {
                lemma_mul_step(x.stockpile.get(d) as int, j as int, x.production_rate as int,
                    count_cargo(x.cargo_output@, d) as int);
            }
        },
        (TileContent::Town(x), TileContent::Town(y), TileContent::Town(z)) => {
            assert(spec_grow(y.population, y.growth_rate, 0) == y.population);
        },
        _ => {},
    }
}

/// Two tiles are the same, lists compared by their elements.
pub open spec fn same_tile(a: Tile, b: Tile) -> bool {
    &&& a.terrain == b.terrain
    &&& a.height == b.height
    &&& match (a.content, b.content) {
        (TileContent::Industry(x), TileContent::Industry(y)) => {
            &&& x.industry_type == y.industry_type
            &&& x.production_rate == y.production_rate
            &&& x.cargo_input@ == y.cargo_input@
            &&& x.cargo_output@ == y.cargo_output@
            &&& x.stockpile == y.stockpile
        },
        (TileContent::Station(x), TileContent::Station(y)) => {
            &&& x.name == y.name
            &&& x.station_type == y.station_type
            &&& x.cargo_waiting == y.cargo_waiting
            &&& x.connections@ == y.connections@
        },
        _ => a.content == b.content,
    }
}

fn copy_cargo_list(v: &Vec<CargoType>) -> (r: Vec<CargoType>)
    ensures
        r@ == v@,
{
    let mut r: Vec<CargoType> = Vec::new();
    let mut i: usize = 0;
    while i < v.len()
        invariant
            0 <= i <= v@.len(),
            r@ == v@.take(i as int),
        decreases v@.len() - i,
    {
        r.push(v[i]);
        i = i + 1;
        assert(r@ =~= v@.take(i as int));
    }
    assert(v@.take(v@.len() as int) =~= v@);
    r
}

impl Tile {
    /// The map symbol of the tile: its content's, or its terrain's when it is empty.
    pub fn ascii_char(&self) -> (c: char)
        ensures
            c == spec_tile_char(*self),
    {
        match &self.content {
            TileContent::Town(_) => '◉',
            TileContent::Industry(_) => '▓',
            TileContent::Station(_) => '■',
            TileContent::Track(track_type) => match track_type {
                TrackType::Straight { horizontal } => if *horizontal { '─' } else { '│' },
                TrackType::Curve { .. } => '┐',
                TrackType::Junction => '┼',
            },
            TileContent::Road => '.',
            TileContent::Empty => match self.terrain {
                TerrainType::Grass => ' ',
                TerrainType::Water => '~',
                TerrainType::Mountain => '^',
                TerrainType::Desert => '∙',
                TerrainType::Forest => '♠',
            },
        }
    }

    /// A copy of the tile.
    pub fn duplicate(&self) -> (r: Tile)
        ensures
            same_tile(r, *self),
    {
        let content = match &self.content {
            TileContent::Empty => TileContent::Empty,
            TileContent::Town(town) => TileContent::Town(Town {
                name: town.name.clone(),
                population: town.population,
                growth_rate: town.growth_rate,
                cargo_demand: town.cargo_demand,
                cargo_supply: town.cargo_supply,
            }),
            TileContent::Industry(industry) => TileContent::Industry(Industry {
                industry_type: industry.industry_type,
                production_rate: industry.production_rate,
                cargo_input: copy_cargo_list(&industry.cargo_input),
                cargo_output: copy_cargo_list(&industry.cargo_output),
                stockpile: industry.stockpile,
            }),
            TileContent::Station(station) => TileContent::Station(Station {
                name: station.name.clone(),
                station_type: station.station_type,
                cargo_waiting: station.cargo_waiting,
                connections: crate::seqs::copy_positions(&station.connections),
            }),
            TileContent::Track(track) => TileContent::Track(*track),
            TileContent::Road => TileContent::Road,
        };
        Tile { terrain: self.terrain, content, height: self.height }
    }

    /// One tick of growth, if the tile holds a town.
    pub fn grow_town(&mut self)
        ensures
            tile_after_update(*old(self), *final(self), 1, 0),
    {
        match &mut self.content {
            TileContent::Town(town) => {
                town.population = grow_population(town.population, town.growth_rate);
            },
            _ => {},
        }
        let ghost cur = self.content;
        proof {
            match (old(self).content, cur) {
                (TileContent::Industry(x), TileContent::Industry(y)) => {
                    assert forall|d: CargoType| #[trigger] y.stockpile.get(d) == if x.cargo_input@.len() == 0 {
                        x.stockpile.get(d) + 0 * x.production_rate * count_cargo(x.cargo_output@, d)
                    } else {
                        x.stockpile.get(d) as int
                    } by {
                        assert(0 * x.production_rate * count_cargo(x.cargo_output@, d) == 0) by (nonlinear_arith);
                    }
                },
                (TileContent::Town(x), TileContent::Town(y)) => {
                    assert(spec_grow(x.population, x.growth_rate, 0) == x.population);
                },
                _ => {},
            }
        }
    }

    /// One production tick, if the tile holds an industry.
    pub fn produce(&mut self)
        requires
            old(self).content matches TileContent::Industry(ind) ==> industry_can_produce(ind, 1),
        ensures
            tile_after_update(*old(self), *final(self), 0, 1),
    {
        match &mut self.content {
            TileContent::Industry(industry) => {
                industry.produce();
            },
            _ => {},
        }
        let ghost cur = self.content;
        proof {
            match (old(self).content, cur) {
                (TileContent::Town(x), TileContent::Town(y)) => {
                    assert(spec_grow(x.population, x.growth_rate, 0) == x.population);
                },
                _ => {},
            }
        }
    }
}

/// `new` is `old` after a world tick: the same map, in which each tile has grown or
/// produced once for each time its position is listed among the towns or industries.
pub open spec fn spec_world_updated(old: World, new: World) -> bool {
    &&& new.same_shape(&old)
    &&& new.width == old.width
    &&& new.height == old.height
    &&& new.towns == old.towns
    &&& new.industries == old.industries
    &&& new.stations == old.stations
    &&& forall|x: usize, y: usize| #[trigger] new.in_bounds(x as int, y as int) ==> tile_after_update(
        old.tile_at(x as int, y as int),
        new.tile_at(x as int, y as int),
        occurrences(old.towns@, (x, y)),
        occurrences(old.industries@, (x, y)),
    )
}

impl World {
    /// Column `x` of row `y` exists.
    pub open spec fn in_bounds(&self, x: int, y: int) -> bool {
        grid_has(self.tiles@, x, y)
    }

    /// The tile at column `x` of row `y`.
    pub open spec fn tile_at(&self, x: int, y: int) -> Tile {
        grid_at(self.tiles@, x, y)
    }

    /// The map is a `width` by `height` grid of rows.
    pub open spec fn wf(&self) -> bool {
        &&& self.tiles@.len() == self.height
        &&& forall|y: int| 0 <= y < self.height ==> #[trigger] self.tiles@[y]@.len() == self.width
    }

    /// The grid has the same shape as `other`'s.
    pub open spec fn same_shape(&self, other: &World) -> bool {
        &&& self.tiles@.len() == other.tiles@.len()
        &&& forall|y: int| 0 <= y < self.tiles@.len() ==> #[trigger] self.tiles@[y]@.len() == other.tiles@[y]@.len()
    }

    /// A new world of `width` by `height` tiles with random terrain, towns and industries.
    pub fn new(width: usize, height: usize) -> (w: World)
        requires
            width > 0,
            height > 0,
        ensures
            w.width == width,
            w.height == height,
            w.is_fresh(),
            w.industries@.no_duplicates(),
            is_generated_world(w, width, height),
            w.towns@.len() + w.industries@.len() >= 1,
    {
        let mut tiles: Vec<Vec<Tile>> = Vec::new();
        let mut y: usize = 0;
        while y < height
            invariant
                0 <= y <= height,
                tiles@.len() == y,
                forall|j: int| 0 <= j < y ==> #[trigger] tiles@[j]@.len() == width,
                forall|j: int, i: int| 0 <= j < y && 0 <= i < width ==> (#[trigger] tiles@[j]@[i]).content is Empty,
            decreases height - y,
        {
            let mut row: Vec<Tile> = Vec::new();
            let mut x: usize = 0;
            while x < width
                invariant
                    0 <= x <= width,
                    row@.len() == x,
                    forall|i: int| 0 <= i < x ==> (#[trigger] row@[i]).content is Empty,
                decreases width - x,
            {
                row.push(Tile { terrain: TerrainType::Grass, content: TileContent::Empty, height: 0 });
                x = x + 1;
            }
            tiles.push(row);
            y = y + 1;
        }
        let mut world = World {
            width,
            height,
            tiles,
            towns: Vec::new(),
            industries: Vec::new(),
            stations: Vec::new(),
        };
        world.generate_terrain();
        let ghost t = world;
        proof {
            assert forall|x: usize, y: usize| #[trigger] grid_has(t.tiles@, x as int, y as int) implies
                t.tile_at(x as int, y as int).content is Empty && t.tile_at(x as int, y as int).height < 10 by {
                assert(!t.towns@.contains((x, y)));
                assert(!t.industries@.contains((x, y)));
            }
        }
        world.generate_towns();
        let ghost tw = world;
        world.generate_industries();
        proof {
            let (ws, ds) = choose|ws: Seq<World>, ds: Seq<(usize, usize)>| #[trigger] town_attempts(ws, ds) && ds.len() == 5
                && ws[0] == t && ws[5] == tw;
            let (vs, es) = choose|vs: Seq<World>, es: Seq<(usize, usize)>| #[trigger] industry_attempts(vs, es) && es.len() == 8
                && vs[0] == tw && vs[8] == world;
            assert(generated_by(t, ws, ds, vs, es, world));
            lemma_industry_attempts_grow(vs, es, 0, 8);
            lemma_industry_attempts_grow(vs, es, 1, 8);
            if tw.towns@.len() == 0 {
                let d = es[0];
                assert(industry_placed(vs[0], vs[0int + 1], es[0]));
                assert(tw.in_bounds(d.0 as int, d.1 as int));
                assert(grid_has(tw.tiles@, d.0 as int, d.1 as int));
                assert(!tw.towns@.contains(d));
                assert(!tw.industries@.contains(d));
                assert(tw.tile_at(d.0 as int, d.1 as int).content is Empty);
                assert(vs[1].industries@.len() == 1);
            }
        }
        world
    }

    fn generate_terrain(&mut self)
        requires
            old(self).wf(),
            old(self).towns@.len() == 0,
            old(self).industries@.len() == 0,
            old(self).stations@.len() == 0,
            forall|x: usize, y: usize| #[trigger] grid_has(old(self).tiles@, x as int, y as int) ==>
                old(self).tile_at(x as int, y as int).content is Empty,
        ensures
            final(self).width == old(self).width,
            final(self).height == old(self).height,
            final(self).is_fresh(),
            final(self).towns@.len() == 0,
            final(self).industries@.len() == 0,
    {
        let mut y: usize = 0;
        while y < self.height
            invariant
                0 <= y <= self.height,
                self.wf(),
                self.width == old(self).width,
                self.height == old(self).height,
                self.towns@.len() == 0,
                self.industries@.len() == 0,
                self.stations@.len() == 0,
                forall|a: usize, b: usize| #[trigger] grid_has(self.tiles@, a as int, b as int) ==> {
                    &&& self.tile_at(a as int, b as int).content is Empty
                    &&& (b < y ==> self.tile_at(a as int, b as int).height < 10)
                },
            decreases self.height - y,
        {
            let mut x: usize = 0;
            while x < self.width
                invariant
                    0 <= x <= self.width,
                    0 <= y < self.height,
                    self.wf(),
                    self.width == old(self).width,
                    self.height == old(self).height,
                    self.towns@.len() == 0,
                    self.industries@.len() == 0,
                    self.stations@.len() == 0,
                    forall|a: usize, b: usize| #[trigger] grid_has(self.tiles@, a as int, b as int) ==> {
                        &&& self.tile_at(a as int, b as int).content is Empty
                        &&& ((b < y || (b == y && a < x)) ==> self.tile_at(a as int, b as int).height < 10)
                    },
                decreases self.width - x,
            {
                let roll = random_range(0, 100);
                let terrain = terrain_for_roll(roll);
                let h = random_range(0, 10);
                assert(self.tiles@[y as int]@.len() == self.width);
                let ghost before = self.tiles@;
                self.tiles[y][x].terrain = terrain;
                self.tiles[y][x].height = h as u8;
                proof {
                    assert forall|a: usize, b: usize| #[trigger] grid_has(self.tiles@, a as int, b as int) implies {
                        &&& self.tile_at(a as int, b as int).content is Empty
                        &&& ((b < y || (b == y && a < x + 1)) ==> self.tile_at(a as int, b as int).height < 10)
                    } by {
                        assert(grid_has(before, a as int, b as int));
                    }
                }
                x = x + 1;
            }
            y = y + 1;
        }
    }

    fn generate_towns(&mut self)
        requires
            old(self).is_fresh(),
            old(self).width > 0,
            old(self).height > 0,
            old(self).towns@.len() == 0,
            old(self).industries@.len() == 0,
        ensures
            final(self).width == old(self).width,
            final(self).height == old(self).height,
            final(self).is_fresh(),
            final(self).industries@.len() == 0,
            exists|ws: Seq<World>, ds: Seq<(usize, usize)>| #[trigger] town_attempts(ws, ds) && ds.len() == 5
                && ws[0] == *old(self) && ws[5] == *final(self),
    {
        let mut i: usize = 0;
        let ghost mut ws: Seq<World> = seq![*self];
        let ghost mut ds: Seq<(usize, usize)> = Seq::empty();
        while i < 5
            invariant
                0 <= i <= 5,
                self.width == old(self).width,
                self.height == old(self).height,
                self.width > 0,
                self.height > 0,
                self.is_fresh(),
                self.towns@.len() <= i,
                self.industries@.len() == 0,
                ds.len() == i,
                town_attempts(ws, ds),
                ws[0] == *old(self),
                ws[i as int] == *self,
            decreases 5 - i,
        {
            let x = random_range(0, self.width);
            let y = random_range(0, self.height);
            assert(self.tiles@[y as int]@.len() == self.width);
            let ghost start = *self;
            let terrain = self.tiles[y][x].terrain;
            if terrain == TerrainType::Grass || terrain == TerrainType::Forest {
                let population = random_range(500, 5000) as u32;
                let growth_rate = random_range(10, 200) as u32;
                let town = Town {
                    name: town_name(i),
                    population,
                    growth_rate,
                    cargo_demand: CargoAmounts::new(),
                    cargo_supply: CargoAmounts::new(),
                };
                let ghost before = *self;
                self.tiles[y][x].content = TileContent::Town(town);
                self.towns.push((x, y));
                proof {
                    assert forall|k: int| 0 <= k < self.towns@.len() implies {
                        let p = #[trigger] self.towns@[k];
                        &&& self.in_bounds(p.0 as int, p.1 as int)
                        &&& is_generated_town(self.tile_at(p.0 as int, p.1 as int))
                    } by {
                        if k < self.towns@.len() - 1 {
                            assert(before.towns@[k] == self.towns@[k]);
                        }
                    }
                    assert forall|a: usize, b: usize| #[trigger] grid_has(self.tiles@, a as int, b as int) implies {
                        &&& self.tile_at(a as int, b as int).height < 10
                        &&& (self.tile_at(a as int, b as int).content is Empty || self.towns@.contains((a, b))
                            || self.industries@.contains((a, b)))
                    } by {
                        assert(grid_has(before.tiles@, a as int, b as int));
                        if (a, b) == (x, y) {
                            assert(self.towns@[self.towns@.len() - 1] == (a, b));
                        } else if before.towns@.contains((a, b)) {
                            let k = choose|k: int| 0 <= k < before.towns@.len() && before.towns@[k] == (a, b);
                            assert(self.towns@[k] == (a, b));
                        }
                    }
                    assert forall|a: usize, b: usize| #[trigger] grid_has(self.tiles@, a as int, b as int) && (a, b) != (x, y)
                        implies self.tile_at(a as int, b as int) == before.tile_at(a as int, b as int) by {
                        assert(grid_has(before.tiles@, a as int, b as int));
                    }
                }
            }
            proof {
                let ghost ws0 = ws;
                let ghost ds0 = ds;
                assert(town_placed(start, *self, i as int, (x, y)));
                ws = ws.push(*self);
                ds = ds.push((x, y));
                assert forall|k: int| 0 <= k < ds.len() implies #[trigger] town_placed(ws[k], ws[k + 1], k, ds[k]) by {
                    if k < i {
                        assert(ws[k] == ws0[k] && ws[k + 1] == ws0[k + 1] && ds[k] == ds0[k]);
                        assert(town_placed(ws0[k], ws0[k + 1], k, ds0[k]));
                    }
                }
            }
            i = i + 1;
        }
        assert(town_attempts(ws, ds));
    }

    fn generate_industries(&mut self)
        requires
            old(self).is_fresh(),
            old(self).width > 0,
            old(self).height > 0,
            old(self).industries@.len() == 0,
        ensures
            final(self).width == old(self).width,
            final(self).height == old(self).height,
            final(self).is_fresh(),
            final(self).industries@.no_duplicates(),
            exists|ws: Seq<World>, ds: Seq<(usize, usize)>| #[trigger] industry_attempts(ws, ds) && ds.len() == 8
                && ws[0] == *old(self) && ws[8] == *final(self),
    {
        let mut i: usize = 0;
        let ghost mut ws: Seq<World> = seq![*self];
        let ghost mut ds: Seq<(usize, usize)> = Seq::empty();
        while i < 8
            invariant
                0 <= i <= 8,
                self.width == old(self).width,
                self.height == old(self).height,
                self.width > 0,
                self.height > 0,
                self.is_fresh(),
                self.industries@.len() <= i,
                self.industries@.no_duplicates(),
                ds.len() == i,
                industry_attempts(ws, ds),
                ws[0] == *old(self),
                ws[i as int] == *self,
            decreases 8 - i,
        {
            let x = random_range(0, self.width);
            let y = random_range(0, self.height);
            assert(self.tiles@[y as int]@.len() == self.width);
            let ghost start = *self;
            let is_empty = match self.tiles[y][x].content {
                TileContent::Empty => true,
                _ => false,
            };
            if is_empty {
                proof {
                    if self.industries@.contains((x, y)) {
                        let k = choose|k: int| 0 <= k < self.industries@.len() && self.industries@[k] == (x, y);
                        assert(is_generated_industry(self.tile_at(x as int, y as int)));
                    }
                }
                let industry_type = industry_type_for_roll(random_range(0, 8));
                let (input, output) = self.get_industry_cargo(&industry_type);
                let production_rate = random_range(10, 100) as u32;
                let industry = Industry {
                    industry_type,
                    production_rate,
                    cargo_input: input,
                    cargo_output: output,
                    stockpile: CargoAmounts::new(),
                };
                let ghost before = *self;
                self.tiles[y][x].content = TileContent::Industry(industry);
                self.industries.push((x, y));
                proof {
                    assert forall|k: int| 0 <= k < self.towns@.len() implies {
                        let p = #[trigger] self.towns@[k];
                        &&& self.in_bounds(p.0 as int, p.1 as int)
                        &&& is_generated_town(self.tile_at(p.0 as int, p.1 as int))
                    } by {
                        let p = self.towns@[k];
                        assert(before.towns@[k] == p);
                        if p == (x, y) {
                            assert(is_generated_town(before.tile_at(x as int, y as int)));
                        }
                    }
                    assert forall|k: int| 0 <= k < self.industries@.len() implies {
                        let p = #[trigger] self.industries@[k];
                        &&& self.in_bounds(p.0 as int, p.1 as int)
                        &&& is_generated_industry(self.tile_at(p.0 as int, p.1 as int))
                    } by {
                        if k < self.industries@.len() - 1 {
                            assert(before.industries@[k] == self.industries@[k]);
                        }
                    }
                    assert forall|a: usize, b: usize| #[trigger] grid_has(self.tiles@, a as int, b as int) implies {
                        &&& self.tile_at(a as int, b as int).height < 10
                        &&& (self.tile_at(a as int, b as int).content is Empty || self.towns@.contains((a, b))
                            || self.industries@.contains((a, b)))
                    } by {
                        assert(grid_has(before.tiles@, a as int, b as int));
                        if (a, b) == (x, y) {
                            assert(self.industries@[self.industries@.len() - 1] == (a, b));
                        } else if before.industries@.contains((a, b)) {
                            let k = choose|k: int| 0 <= k < before.industries@.len() && before.industries@[k] == (a, b);
                            assert(self.industries@[k] == (a, b));
                        }
                    }
                    assert forall|a: usize, b: usize| #[trigger] grid_has(self.tiles@, a as int, b as int) && (a, b) != (x, y)
                        implies self.tile_at(a as int, b as int) == before.tile_at(a as int, b as int) by {
                        assert(grid_has(before.tiles@, a as int, b as int));
                    }
                }
            }
            proof {
                let ghost ws0 = ws;
                let ghost ds0 = ds;
                assert(industry_placed(start, *self, (x, y)));
                ws = ws.push(*self);
                ds = ds.push((x, y));
                assert forall|k: int| 0 <= k < ds.len() implies #[trigger] industry_placed(ws[k], ws[k + 1], ds[k]) by {
                    if k < i {
                        assert(ws[k] == ws0[k] && ws[k + 1] == ws0[k + 1] && ds[k] == ds0[k]);
                        assert(industry_placed(ws0[k], ws0[k + 1], ds0[k]));
                    }
                }
            }
            i = i + 1;
        }
        assert(industry_attempts(ws, ds));
    }

    /// The cargo an industry of the given type consumes and produces.
    fn get_industry_cargo(&self, industry_type: &IndustryType) -> (r: (Vec<CargoType>, Vec<CargoType>))
        ensures
            r.0@ == spec_industry_inputs(*industry_type),
            r.1@ == spec_industry_outputs(*industry_type),
    {
        match industry_type {
            IndustryType::CoalMine => (vec![], vec![CargoType::Coal]),
            IndustryType::IronOreMine => (vec![], vec![CargoType::IronOre]),
            IndustryType::SteelMill => (vec![CargoType::Coal, CargoType::IronOre], vec![CargoType::Steel]),
            IndustryType::Factory => (vec![CargoType::Steel], vec![CargoType::Goods]),
            IndustryType::Farm => (vec![], vec![CargoType::Food]),
            IndustryType::Sawmill => (vec![], vec![CargoType::Wood]),
            IndustryType::OilRig => (vec![], vec![CargoType::Oil]),
            IndustryType::Refinery => (vec![CargoType::Oil], vec![CargoType::Goods]),
        }
    }

    /// Every industry tile can take as many production ticks as its position is listed
    /// among the industries.
    pub open spec fn production_fits(&self) -> bool {
        forall|x: usize, y: usize| #[trigger] self.in_bounds(x as int, y as int) ==>
            (self.tile_at(x as int, y as int).content matches TileContent::Industry(ind) ==>
                industry_can_produce(ind, occurrences(self.industries@, (x, y))))
    }

    /// One tick of the world: each listed town grows and each listed industry produces,
    /// once per time its position is listed; positions off the map are skipped.
    pub fn update(&mut self)
        requires
            old(self).production_fits(),
        ensures
            spec_world_updated(*old(self), *final(self)),
    {
        let n = self.towns.len();
        let mut i: usize = 0;
        proof {
            assert(self.towns@.take(0) =~= Seq::<(usize, usize)>::empty());
            assert forall|x: usize, y: usize| #[trigger] self.in_bounds(x as int, y as int) implies tile_after_update(
                old(self).tile_at(x as int, y as int), self.tile_at(x as int, y as int),
                occurrences(self.towns@.take(0), (x, y)), 0) by {
                lemma_tile_after_refl(self.tile_at(x as int, y as int));
            }
        }
        while i < n
            invariant
                0 <= i <= n,
                n == self.towns@.len(),
                self.same_shape(old(self)),
                self.width == old(self).width,
                self.height == old(self).height,
                self.towns == old(self).towns,
                self.industries == old(self).industries,
                self.stations == old(self).stations,
                forall|x: usize, y: usize| #[trigger] grid_has(self.tiles@, x as int, y as int) ==> tile_after_update(
                    old(self).tile_at(x as int, y as int), grid_at(self.tiles@, x as int, y as int),
                    occurrences(self.towns@.take(i as int), (x, y)), 0),
            decreases n - i,
        {
            let (tx, ty) = self.towns[i];
            let ghost before = self.tiles@;
            if ty < self.tiles.len() && tx < self.tiles[ty].len() {
                self.tiles[ty][tx].grow_town();
            }
            proof {
                assert forall|x: usize, y: usize| #[trigger] grid_has(self.tiles@, x as int, y as int) implies tile_after_update(
                    old(self).tile_at(x as int, y as int), grid_at(self.tiles@, x as int, y as int),
                    occurrences(self.towns@.take(i + 1), (x, y)), 0) by {
                    lemma_occurrences_push(self.towns@, i as int, (x, y));
                    assert(old(self).in_bounds(x as int, y as int));
                    assert(grid_has(before, x as int, y as int));
                    if (x, y) == (tx, ty) {
                        lemma_tile_after_grow(old(self).tile_at(x as int, y as int), before[y as int]@[x as int],
                            self.tile_at(x as int, y as int), occurrences(self.towns@.take(i as int), (x, y)), 0);
                    } else {
                        assert(self.tile_at(x as int, y as int) == before[y as int]@[x as int]);
                    }
                }
            }
            i = i + 1;
        }
        assert(self.towns@.take(n as int) =~= self.towns@);
        let m = self.industries.len();
        let mut k: usize = 0;
        assert(self.industries@.take(0) =~= Seq::<(usize, usize)>::empty());
        while k < m
            invariant
                0 <= k <= m,
                m == self.industries@.len(),
                self.same_shape(old(self)),
                self.width == old(self).width,
                self.height == old(self).height,
                self.towns == old(self).towns,
                self.industries == old(self).industries,
                self.stations == old(self).stations,
                old(self).production_fits(),
                forall|x: usize, y: usize| #[trigger] grid_has(self.tiles@, x as int, y as int) ==> tile_after_update(
                    old(self).tile_at(x as int, y as int), grid_at(self.tiles@, x as int, y as int),
                    occurrences(old(self).towns@, (x, y)), occurrences(self.industries@.take(k as int), (x, y))),
            decreases m - k,
        {
            let (tx, ty) = self.industries[k];
            let ghost before = self.tiles@;
            if ty < self.tiles.len() && tx < self.tiles[ty].len() {
                proof {
                    let t0 = old(self).tile_at(tx as int, ty as int);
                    let t1 = self.tile_at(tx as int, ty as int);
                    assert(old(self).in_bounds(tx as int, ty as int));
                    assert(grid_has(self.tiles@, tx as int, ty as int));
                    assert(tile_after_update(t0, t1, occurrences(old(self).towns@, (tx, ty)),
                        occurrences(self.industries@.take(k as int), (tx, ty))));
                    lemma_occurrences_push(self.industries@, k as int, (tx, ty));
                    lemma_occurrences_bounds(self.industries@, k + 1, (tx, ty));
                    match (t0.content, t1.content) {
                        (TileContent::Industry(a), TileContent::Industry(b)) => {
                            let j = occurrences(self.industries@.take(k as int), (tx, ty));
                            let jj = occurrences(old(self).industries@, (tx, ty));
                            assert(industry_can_produce(a, jj));
                            assert forall|c: CargoType| b.cargo_input@.len() == 0 implies
                                #[trigger] b.stockpile.get(c) + 1 * b.production_rate * count_cargo(b.cargo_output@, c) <= u32::MAX by {
                                lemma_mul_step(a.stockpile.get(c) as int, j as int, a.production_rate as int,
                                    count_cargo(a.cargo_output@, c) as int);
                                lemma_mul_k_mono(j + 1 as int, jj as int, a.production_rate as int, count_cargo(a.cargo_output@, c) as int);
                                assert(a.stockpile.get(c) + jj * a.production_rate * count_cargo(a.cargo_output@, c) <= u32::MAX);
                            }
                        },
                        _ => {},
                    }
                }
                self.tiles[ty][tx].produce();
            }
            proof {
                assert forall|x: usize, y: usize| #[trigger] grid_has(self.tiles@, x as int, y as int) implies tile_after_update(
                    old(self).tile_at(x as int, y as int), grid_at(self.tiles@, x as int, y as int),
                    occurrences(old(self).towns@, (x, y)), occurrences(self.industries@.take(k + 1), (x, y))) by {
                    lemma_occurrences_push(self.industries@, k as int, (x, y));
                    assert(old(self).in_bounds(x as int, y as int));
                    assert(grid_has(before, x as int, y as int));
                    if (x, y) == (tx, ty) {
                        lemma_tile_after_produce(old(self).tile_at(x as int, y as int), before[y as int]@[x as int],
                            self.tile_at(x as int, y as int), occurrences(old(self).towns@, (x, y)),
                            occurrences(self.industries@.take(k as int), (x, y)));
                    } else {
                        assert(self.tile_at(x as int, y as int) == before[y as int]@[x as int]);
                    }
                }
            }
            k = k + 1;
        }
        assert(self.industries@.take(m as int) =~= self.industries@);
    }

    /// The map symbol at `(x, y)`; off the map it is a blank.
    pub fn get_ascii_char(&self, x: usize, y: usize) -> (c: char)
        ensures
            c == if self.in_bounds(x as int, y as int) { spec_tile_char(self.tile_at(x as int, y as int)) } else { ' ' },
    {
        match self.get_tile(x, y) {
            Some(tile) => tile.ascii_char(),
            None => ' ',
        }
    }

    /// The map symbol at `(x, y)`, showing the first vehicle standing there, if any.
    pub fn get_ascii_char_with_vehicles(&self, x: usize, y: usize, vehicles: &[Vehicle]) -> (c: char)
        ensures
            c == match first_vehicle_at(vehicles@, x, y) {
                Some(i) => spec_vehicle_char(vehicles@[i].vehicle_type),
                None => if self.in_bounds(x as int, y as int) { spec_tile_char(self.tile_at(x as int, y as int)) } else { ' ' },
            },
    {
        let mut i: usize = 0;
        while i < vehicles.len()
            invariant
                0 <= i <= vehicles@.len(),
                first_vehicle_at(vehicles@.take(i as int), x, y) is None,
            decreases vehicles@.len() - i,
        {
            proof {
                assert(vehicles@.take(i + 1).drop_last() =~= vehicles@.take(i as int));
            }
            if vehicles[i].x == x && vehicles[i].y == y {
                proof {
                    lemma_first_vehicle_prefix(vehicles@, i + 1, x, y);
                }
                return Self::get_vehicle_char(&vehicles[i].vehicle_type);
            }
            i = i + 1;
        }
        assert(vehicles@.take(vehicles@.len() as int) =~= vehicles@);
        self.get_ascii_char(x, y)
    }

    /// The map symbol of a vehicle type.
    pub fn get_vehicle_char(vehicle_type: &VehicleType) -> (c: char)
        ensures
            c == spec_vehicle_char(*vehicle_type),
    {
        match vehicle_type {
            VehicleType::Train { .. } => 'T',
            VehicleType::Road { truck_type } => match truck_type {
                TruckType::Bus { .. } => 'B',
                TruckType::SmallTruck { .. } => 't',
                TruckType::LargeTruck { .. } => 'T',
            },
            VehicleType::Ship { .. } => 'S',
            VehicleType::Aircraft { .. } => 'A',
        }
    }

    pub fn get_tile(&self, x: usize, y: usize) -> (r: Option<&Tile>)
        ensures
            r == if self.in_bounds(x as int, y as int) {
                Some(&self.tile_at(x as int, y as int))
            } else {
                None
            },
    {
        if y < self.tiles.len() && x < self.tiles[y].len() {
            Some(&self.tiles[y][x])
        } else {
            None
        }
    }

    pub fn set_tile_content(&mut self, x: usize, y: usize, content: TileContent)
        ensures
            final(self).same_shape(old(self)),
            final(self).width == old(self).width,
            final(self).height == old(self).height,
            final(self).towns == old(self).towns,
            final(self).industries == old(self).industries,
            final(self).stations == old(self).stations,
            forall|i: int, j: int| #[trigger] final(self).in_bounds(i, j) ==> final(self).tile_at(i, j) == if i == x && j == y {
                Tile { content: content, ..old(self).tile_at(i, j) }
            } else {
                old(self).tile_at(i, j)
            },
    {
        if y < self.tiles.len() && x < self.tiles[y].len() {
            self.tiles[y][x].content = content;
        }
    }
}

} // verus!
