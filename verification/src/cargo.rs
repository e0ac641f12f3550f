use vstd::prelude::*;

verus! {

/// The kinds of cargo that towns, industries and vehicles deal in.
#[derive(Clone, Copy, Debug, Hash, PartialEq, Eq, Structural)]
pub enum CargoType {
    Passengers,
    Mail,
    Coal,
    IronOre,
    Steel,
    Wood,
    Oil,
    Goods,
    Food,
}

/// Number of cargo kinds.
pub const CARGO_KINDS: usize = 9;

/// Position of a cargo kind in a table indexed by cargo.
pub open spec fn spec_cargo_index(c: CargoType) -> int {
    match c {
        CargoType::Passengers => 0,
        CargoType::Mail => 1,
        CargoType::Coal => 2,
        CargoType::IronOre => 3,
        CargoType::Steel => 4,
        CargoType::Wood => 5,
        CargoType::Oil => 6,
        CargoType::Goods => 7,
        CargoType::Food => 8,
    }
}

/// The cargo kind stored at a table position.
pub open spec fn spec_cargo_at(i: int) -> CargoType {
    if i == 0 { CargoType::Passengers }
    else if i == 1 { CargoType::Mail }
    else if i == 2 { CargoType::Coal }
    else if i == 3 { CargoType::IronOre }
    else if i == 4 { CargoType::Steel }
    else if i == 5 { CargoType::Wood }
    else if i == 6 { CargoType::Oil }
    else if i == 7 { CargoType::Goods }
    else { CargoType::Food }
}

impl CargoType {
    pub fn index(&self) -> (i: usize)
        ensures
            i == spec_cargo_index(*self),
            i < CARGO_KINDS,
    {
        match self {
            CargoType::Passengers => 0,
            CargoType::Mail => 1,
            CargoType::Coal => 2,
            CargoType::IronOre => 3,
            CargoType::Steel => 4,
            CargoType::Wood => 5,
            CargoType::Oil => 6,
            CargoType::Goods => 7,
            CargoType::Food => 8,
        }
    }

    pub fn from_index(i: usize) -> (c: CargoType)
        requires
            i < CARGO_KINDS,
        ensures
            c == spec_cargo_at(i as int),
            spec_cargo_index(c) == i,
    {
        if i == 0 { CargoType::Passengers }
        else if i == 1 { CargoType::Mail }
        else if i == 2 { CargoType::Coal }
        else if i == 3 { CargoType::IronOre }
        else if i == 4 { CargoType::Steel }
        else if i == 5 { CargoType::Wood }
        else if i == 6 { CargoType::Oil }
        else if i == 7 { CargoType::Goods }
        else { CargoType::Food }
    }
}

/// An amount of each kind of cargo; every kind not yet recorded counts as zero.
#[derive(Clone, Copy, Debug)]
pub struct CargoAmounts {
    pub amounts: [u32; 9],
}

impl CargoAmounts {
    pub open spec fn get(&self, c: CargoType) -> u32 {
        self.amounts@[spec_cargo_index(c)]
    }

    pub fn new() -> (r: CargoAmounts)
        ensures
            forall|c: CargoType| r.get(c) == 0,
    {
        CargoAmounts { amounts: [0u32, 0, 0, 0, 0, 0, 0, 0, 0] }
    }

    pub fn amount(&self, c: CargoType) -> (r: u32)
        ensures
            r == self.get(c),
    {
        self.amounts[c.index()]
    }

    pub fn add(&mut self, c: CargoType, n: u32)
        requires
            old(self).get(c) + n <= u32::MAX,
        ensures
            final(self).get(c) == old(self).get(c) + n,
            forall|d: CargoType| d != c ==> final(self).get(d) == old(self).get(d),
    {
        let i = c.index();
        let v = self.amounts[i];
        self.amounts[i] = v + n;
    }
}

} // verus!

verus! {

impl CargoAmounts {
    /// The sum of the amounts of all kinds.
    pub open spec fn total(&self) -> int {
        self.amounts@[0] + self.amounts@[1] + self.amounts@[2] + self.amounts@[3] + self.amounts@[4]
            + self.amounts@[5] + self.amounts@[6] + self.amounts@[7] + self.amounts@[8]
    }

    /// Every kind is at zero.
    pub open spec fn is_empty(&self) -> bool {
        forall|c: CargoType| #[trigger] self.get(c) == 0
    }

    pub fn sum(&self) -> (r: u64)
        ensures
            r == self.total(),
    {
        let a = &self.amounts;
        a[0] as u64 + a[1] as u64 + a[2] as u64 + a[3] as u64 + a[4] as u64 + a[5] as u64
            + a[6] as u64 + a[7] as u64 + a[8] as u64
    }

    /// Empties the table.
    pub fn clear(&mut self)
        ensures
            final(self).is_empty(),
            final(self).total() == 0,
    {
        self.amounts = [0u32, 0, 0, 0, 0, 0, 0, 0, 0];
    }
}

/// The total of an empty table is zero and a table with total zero is empty.
pub proof fn lemma_total_zero(a: CargoAmounts)
    ensures
        a.is_empty() <==> a.total() == 0,
{
    if a.total() == 0 {
        assert forall|c: CargoType| #[trigger] a.get(c) == 0 by {
            assert(a.amounts@[spec_cargo_index(c)] == 0);
        }
    }
    if a.is_empty() {
        assert(a.get(CargoType::Passengers) == 0);
        assert(a.get(CargoType::Mail) == 0);
        assert(a.get(CargoType::Coal) == 0);
        assert(a.get(CargoType::IronOre) == 0);
        assert(a.get(CargoType::Steel) == 0);
        assert(a.get(CargoType::Wood) == 0);
        assert(a.get(CargoType::Oil) == 0);
        assert(a.get(CargoType::Goods) == 0);
        assert(a.get(CargoType::Food) == 0);
    }
}

} // verus!
