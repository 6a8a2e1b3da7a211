use vstd::prelude::*;
use crate::order::Order;
use crate::power::Power;
use crate::territory::Territory;
use crate::unit::Unit;

verus! {

/// The kinds of phase of a game year.
#[derive(Debug, Clone, Copy, PartialEq, Eq, Structural)]
pub enum PhaseKind {
    SpringOrder,
    SpringRetreat,
    FallOrder,
    FallRetreat,
    Adjustment,
}

/// What a phase holds: the orders given in it, the board it starts from and
/// what its resolution produced.
pub struct PhaseData {
    pub orders: Vec<Order>,
    pub units: Vec<Unit>,
    pub territories: Vec<Territory>,
    pub resolved_units: Vec<Unit>,
    pub standoff_province_codes: Vec<String>,
}

/// A phase of a game.
pub struct Phase {
    pub year: i32,
    pub id: i64,
    pub kind: PhaseKind,
    pub data: PhaseData,
}

/// What the resolution of a phase reads of the phase before it.
pub struct PhaseContext {
    pub last_resolved_units: Vec<Unit>,
    pub standoff_codes: Vec<&'static str>,
}

/// Whether a phase holds no orders, units, territories, resolved units or standoffs yet.
pub open spec fn is_empty_data(d: PhaseData) -> bool {
    &&& d.orders@.len() == 0
    &&& d.units@.len() == 0
    &&& d.territories@.len() == 0
    &&& d.resolved_units@.len() == 0
    &&& d.standoff_province_codes@.len() == 0
}

/// Number of the entries of `ts` owned by `power` whose province holds a supply center.
pub open spec fn spec_count_supply_centers(ts: Seq<Territory>, power: Power) -> nat
    decreases ts.len(),
{
    if ts.len() == 0 {
        0
    } else {
        let rest = spec_count_supply_centers(ts.drop_last(), power);
        let t = ts.last();
        if t.power == power && crate::province::spec_supply(t.province.index()) {
            rest + 1
        } else {
            rest
        }
    }
}

/// Number of the units of `us` owned by `power`.
pub open spec fn spec_count_units(us: Seq<Unit>, power: Power) -> nat
    decreases us.len(),
{
    if us.len() == 0 {
        0
    } else {
        let rest = spec_count_units(us.drop_last(), power);
        if us.last().power == power {
            rest + 1
        } else {
            rest
        }
    }
}

impl PhaseData {
    /// Data of a phase that has not started.
    pub fn new() -> (r: PhaseData)
        ensures
            is_empty_data(r),
    {
        PhaseData {
            orders: Vec::new(),
            units: Vec::new(),
            territories: Vec::new(),
            resolved_units: Vec::new(),
            standoff_province_codes: Vec::new(),
        }
    }
}

impl Phase {
    /// A phase of `kind` in `year`.
    pub fn new(year: i32, id: i64, kind: PhaseKind) -> (r: Phase)
        ensures
            r.year == year,
            r.id == id,
            r.kind == kind,
            is_empty_data(r.data),
    {
        Phase { year, id, kind, data: PhaseData::new() }
    }

    /// The spring order phase of `year`.
    pub fn new_spring_order(year: i32, id: i64) -> (r: Phase)
        ensures
            r.year == year,
            r.id == id,
            r.kind == PhaseKind::SpringOrder,
            is_empty_data(r.data),
    {
        Phase::new(year, id, PhaseKind::SpringOrder)
    }

    /// The spring main (order) phase of `year`.
    pub fn new_spring_main(year: i32, id: i64) -> (r: Phase)
        ensures
            r.year == year,
            r.id == id,
            r.kind == PhaseKind::SpringOrder,
            is_empty_data(r.data),
    {
        Phase::new(year, id, PhaseKind::SpringOrder)
    }

    /// The spring retreat phase of `year`.
    pub fn new_spring_retreat(year: i32, id: i64) -> (r: Phase)
        ensures
            r.year == year,
            r.id == id,
            r.kind == PhaseKind::SpringRetreat,
            is_empty_data(r.data),
    {
        Phase::new(year, id, PhaseKind::SpringRetreat)
    }

    /// The adjustment phase of `year`.
    pub fn new_adjustment(year: i32, id: i64) -> (r: Phase)
        ensures
            r.year == year,
            r.id == id,
            r.kind == PhaseKind::Adjustment,
            is_empty_data(r.data),
    {
        Phase::new(year, id, PhaseKind::Adjustment)
    }

    /// Number of the supply centers that `power` owns.
    pub fn count_supply_centers(&self, power: &Power) -> (r: usize)
        ensures
            r == spec_count_supply_centers(self.data.territories@, *power),
    {
        let ts = &self.data.territories;
        let mut n: usize = 0;
        let mut i: usize = 0;
        while i < ts.len()
            invariant
                i <= ts@.len(),
                n == spec_count_supply_centers(ts@.take(i as int), *power),
                n <= i,
            decreases ts@.len() - i,
        {
            assert(ts@.take(i + 1).drop_last() =~= ts@.take(i as int));
            if ts[i].power == *power && ts[i].province.is_supply_center() {
                n = n + 1;
            }
            i = i + 1;
        }
        assert(ts@.take(ts@.len() as int) =~= ts@);
        n
    }

    /// Number of the units that `power` has.
    pub fn count_units(&self, power: &Power) -> (r: usize)
        ensures
            r == spec_count_units(self.data.units@, *power),
    {
        let us = &self.data.units;
        let mut n: usize = 0;
        let mut i: usize = 0;
        while i < us.len()
            invariant
                i <= us@.len(),
                n == spec_count_units(us@.take(i as int), *power),
                n <= i,
            decreases us@.len() - i,
        {
            assert(us@.take(i + 1).drop_last() =~= us@.take(i as int));
            if us[i].power == *power {
                n = n + 1;
            }
            i = i + 1;
        }
        assert(us@.take(us@.len() as int) =~= us@);
        n
    }
}

impl PhaseContext {
    /// A context with no units and no standoffs.
    pub fn new() -> (r: PhaseContext)
        ensures
            r.last_resolved_units@.len() == 0,
            r.standoff_codes@.len() == 0,
    {
        PhaseContext { last_resolved_units: Vec::new(), standoff_codes: Vec::new() }
    }
}

} // verus!
