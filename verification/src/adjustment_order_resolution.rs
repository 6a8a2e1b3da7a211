use vstd::prelude::*;
use crate::adjustment_adjudicator::AdjustmentAdjudicator;
use crate::adjustment_adjudicator::build_outcome;
use crate::adjustment_adjudicator::civil_orders;
use crate::adjustment_adjudicator::disband_outcome;
use crate::adjustment_adjudicator::is_civil_ranking;
use crate::adjustment_adjudicator::removals_left;
use crate::order::Order;
use crate::order::OrderKind;
use crate::order::OrderStatus;
use crate::phase::Phase;
use crate::phase::PhaseContext;
use crate::power::power_at;
use crate::territory::Territory;
use crate::unit::Unit;
use crate::validation::with_status;
use crate::map::spec_can_exist_at;
use crate::province::spec_area;
use crate::province::spec_is_home_sc_at;
use crate::phase::spec_count_supply_centers;
use crate::phase::spec_count_units;

verus! {

broadcast use vstd::seq_lib::group_seq_properties;

/// The orders once the builds are validated.
pub open spec fn after_builds(os: Seq<Order>, us: Seq<Unit>, ts: Seq<Territory>) -> Seq<Order> {
    Seq::new(os.len(), |i: int| build_outcome(os, i, us, ts))
}

/// The orders once the removals are validated (before civil disorder).
pub open spec fn after_disbands(os: Seq<Order>, us: Seq<Unit>, ts: Seq<Territory>) -> Seq<Order> {
    Seq::new(os.len(), |i: int| disband_outcome(os, i, us, ts))
}

/// An order that is still unresolved at the end of the phase is invalid.
pub open spec fn settled(o: Order) -> Order {
    if o.status == OrderStatus::Unresolved {
        with_status(o, OrderStatus::Invalid)
    } else {
        o
    }
}

/// Whether `ranked` gives, for each power that civil disorder concerns, its
/// units in their order of removal.
pub open spec fn is_civil_plan(
    ranked: Seq<Seq<Unit>>,
    os: Seq<Order>,
    us: Seq<Unit>,
    ts: Seq<Territory>,
) -> bool {
    &&& ranked.len() == 7
    &&& forall|k: int|
        0 <= k < 7 && removals_left(after_builds(os, us, ts), us, ts, power_at(k)) > 0
            ==> is_civil_ranking(#[trigger] ranked[k], us, power_at(k), ts)
}

/// The orders at the end of an adjustment phase: builds validated, removals
/// validated, the removals of civil disorder added, and the rest invalid.
pub open spec fn adjustment_orders(
    os: Seq<Order>,
    us: Seq<Unit>,
    ts: Seq<Territory>,
    ranked: Seq<Seq<Unit>>,
) -> Seq<Order> {
    let b = after_builds(os, us, ts);
    let d = after_disbands(b, us, ts);
    (d + civil_orders(ranked, 7, b, d, us, ts)).map_values(|o: Order| settled(o))
}

/// Whether a unit differs from `u`.
pub open spec fn other_than(u: Unit) -> spec_fn(Unit) -> bool {
    |x: Unit| x != u
}

/// The units after the valid orders are applied in turn: a build adds its
/// unit, a removal takes every equal unit off the board.
pub open spec fn adjusted_units(us: Seq<Unit>, os: Seq<Order>) -> Seq<Unit>
    decreases os.len(),
{
    if os.len() == 0 {
        us
    } else {
        let prev = adjusted_units(us, os.drop_last());
        let o = os.last();
        if o.status == OrderStatus::Valid {
            match o.kind {
                OrderKind::Build => prev.push(o.unit),
                OrderKind::Disband => prev.filter(other_than(o.unit)),
                _ => prev,
            }
        } else {
            prev
        }
    }
}

/// At the end of an adjustment phase no order is left unresolved.
pub proof fn law_adjustment_settles_every_order(
    os: Seq<Order>,
    us: Seq<Unit>,
    ts: Seq<Territory>,
    ranked: Seq<Seq<Unit>>,
    i: int,
)
    requires
        0 <= i < adjustment_orders(os, us, ts, ranked).len(),
    ensures
        adjustment_orders(os, us, ts, ranked)[i].status != OrderStatus::Unresolved,
{
}

/// A valid build adds its unit to the board, after the units that were there.
pub proof fn law_valid_build_adds_unit(us: Seq<Unit>, os: Seq<Order>)
    requires
        os.len() > 0,
        os.last().status == OrderStatus::Valid,
        os.last().kind is Build,
    ensures
        adjusted_units(us, os) == adjusted_units(us, os.drop_last()).push(os.last().unit),
{
}

/// After a valid removal no unit equal to the removed one is left on the board.
pub proof fn law_valid_removal_clears_unit(us: Seq<Unit>, os: Seq<Order>)
    requires
        os.len() > 0,
        os.last().status == OrderStatus::Valid,
        os.last().kind is Disband,
    ensures
        !adjusted_units(us, os).contains(os.last().unit),
{
    let prev = adjusted_units(us, os.drop_last());
    let u = os.last().unit;
    if adjusted_units(us, os).contains(u) {
        let k = choose|k: int| 0 <= k < adjusted_units(us, os).len() && adjusted_units(us, os)[k] == u;
        prev.lemma_filter_pred(other_than(u), k);
    }
}

/// A build that the adjustment phase finds valid names a home supply center
/// of the unit's power, which that power owns, where no unit stood, and where
/// a unit of its kind can stand.
pub proof fn law_valid_build_site(
    os: Seq<Order>,
    us: Seq<Unit>,
    ts: Seq<Territory>,
    ranked: Seq<Seq<Unit>>,
    i: int,
)
    requires
        0 <= i < os.len(),
        os[i].status == OrderStatus::Unresolved,
        os[i].kind is Build,
        adjustment_orders(os, us, ts, ranked)[i].status == OrderStatus::Valid,
    ensures
        spec_can_exist_at(os[i].unit, os[i].unit.province),
        spec_is_home_sc_at(spec_area(os[i].unit.province.index()), os[i].unit.power),
        exists|k: int|
            0 <= k < ts.len() && #[trigger] ts[k].power == os[i].unit.power && spec_area(
                ts[k].province.index(),
            ) == spec_area(os[i].unit.province.index()),
        forall|k: int|
            0 <= k < us.len() ==> spec_area(#[trigger] us[k].province.index()) != spec_area(
                os[i].unit.province.index(),
            ),
{
    let b = after_builds(os, us, ts);
    let d = after_disbands(b, us, ts);
    let all = d + civil_orders(ranked, 7, b, d, us, ts);
    assert(all[i] == d[i]);
    assert(d[i] == b[i]);
    assert(b[i] == build_outcome(os, i, us, ts));
}

/// A removal that the adjustment phase finds valid takes a unit that stands
/// on the board from a power with more units than supply centers; and a
/// power that may build nothing has no valid removal of a unit not on the board.
pub proof fn law_valid_removal(
    os: Seq<Order>,
    us: Seq<Unit>,
    ts: Seq<Territory>,
    ranked: Seq<Seq<Unit>>,
    i: int,
)
    requires
        0 <= i < os.len(),
        os[i].status == OrderStatus::Unresolved,
        os[i].kind is Disband,
        adjustment_orders(os, us, ts, ranked)[i].status == OrderStatus::Valid,
    ensures
        us.contains(os[i].unit) ==> spec_count_supply_centers(ts, os[i].unit.power) < spec_count_units(
            us,
            os[i].unit.power,
        ),
        spec_count_supply_centers(ts, os[i].unit.power) <= spec_count_units(us, os[i].unit.power)
            ==> us.contains(os[i].unit),
{
    let b = after_builds(os, us, ts);
    let d = after_disbands(b, us, ts);
    let all = d + civil_orders(ranked, 7, b, d, us, ts);
    assert(all[i] == d[i]);
    assert(d[i] == disband_outcome(b, i, us, ts));
    assert(b[i] == build_outcome(os, i, us, ts));
    if us.contains(os[i].unit) {
        let k = choose|k: int| 0 <= k < us.len() && us[k] == os[i].unit;
        assert(spec_area(us[k].province.index()) == spec_area(os[i].unit.province.index()));
    }
}

/// Resolves the orders of an adjustment phase and applies them to the units.
pub fn resolve_orders_for_adjustment_phase(current_phase: &mut Phase, _context: &PhaseContext)
    ensures
        exists|ranked: Seq<Seq<Unit>>|
            is_civil_plan(
                ranked,
                old(current_phase).data.orders@,
                old(current_phase).data.units@,
                old(current_phase).data.territories@,
            ) && final(current_phase).data.orders@ == adjustment_orders(
                old(current_phase).data.orders@,
                old(current_phase).data.units@,
                old(current_phase).data.territories@,
                ranked,
            ),
        final(current_phase).data.units@ == adjusted_units(
            old(current_phase).data.units@,
            final(current_phase).data.orders@,
        ),
        final(current_phase).data.territories@ == old(current_phase).data.territories@,
        final(current_phase).data.resolved_units@ == old(current_phase).data.resolved_units@,
        final(current_phase).data.standoff_province_codes@ == old(current_phase).data.standoff_province_codes@,
{
    let ghost os = old(current_phase).data.orders@;
    let ghost us = old(current_phase).data.units@;
    let ghost ts = old(current_phase).data.territories@;
    AdjustmentAdjudicator::validate_build_orders(current_phase);
    let ghost b = current_phase.data.orders@;
    assert(b =~= after_builds(os, us, ts));
    AdjustmentAdjudicator::validate_disband_orders(current_phase);
    let ghost c = current_phase.data.orders@;
    let ghost ranked = choose|ranked: Seq<Seq<Unit>>|
        ranked.len() == 7 && (forall|k: int|
            0 <= k < 7 && removals_left(b, us, ts, power_at(k)) > 0 ==> is_civil_ranking(
                #[trigger] ranked[k],
                us,
                power_at(k),
                ts,
            )) && c.skip(b.len() as int) == civil_orders(
            ranked,
            7,
            b,
            c.take(b.len() as int),
            us,
            ts,
        );
    assert(c.take(b.len() as int) =~= after_disbands(b, us, ts));
    assert(c =~= after_disbands(b, us, ts) + civil_orders(
        ranked,
        7,
        b,
        after_disbands(b, us, ts),
        us,
        ts,
    )) by {
        assert(c =~= c.take(b.len() as int) + c.skip(b.len() as int));
    }
    AdjustmentAdjudicator::invalidate_unresolved_orders(current_phase);
    assert(current_phase.data.orders@ =~= adjustment_orders(os, us, ts, ranked));
    assert(is_civil_plan(ranked, os, us, ts));
    apply_resolved_unit_locations(current_phase);
}

/// Takes every unit equal to `u` off the board.
fn remove_all(units: &mut Vec<Unit>, u: Unit)
    ensures
        final(units)@ == old(units)@.filter(other_than(u)),
{
    let mut kept: Vec<Unit> = Vec::new();
    let mut i: usize = 0;
    while i < units.len()
        invariant
            i <= units@.len(),
            units@ == old(units)@,
            kept@ == units@.take(i as int).filter(other_than(u)),
        decreases units@.len() - i,
    {
        let x = units[i];
        assert(units@.take(i + 1) =~= units@.take(i as int).push(x));
        proof {
            units@.take(i as int).lemma_filter_push(x, other_than(u));
        }
        if x != u {
            kept.push(x);
        }
        i = i + 1;
    }
    assert(units@.take(units@.len() as int) =~= units@);
    *units = kept;
}

/// Applies the valid builds and removals to the units, in the order of the orders.
fn apply_resolved_unit_locations(current_phase: &mut Phase)
    ensures
        final(current_phase).data.orders@ == old(current_phase).data.orders@,
        final(current_phase).data.units@ == adjusted_units(
            old(current_phase).data.units@,
            old(current_phase).data.orders@,
        ),
        final(current_phase).data.territories@ == old(current_phase).data.territories@,
        final(current_phase).data.resolved_units@ == old(current_phase).data.resolved_units@,
        final(current_phase).data.standoff_province_codes@ == old(current_phase).data.standoff_province_codes@,
{
    let n = current_phase.data.orders.len();
    let mut i: usize = 0;
    while i < n
        invariant
            n == current_phase.data.orders@.len(),
            i <= n,
            current_phase.data.orders@ == old(current_phase).data.orders@,
            current_phase.data.territories@ == old(current_phase).data.territories@,
            current_phase.data.resolved_units@ == old(current_phase).data.resolved_units@,
            current_phase.data.standoff_province_codes@ == old(current_phase).data.standoff_province_codes@,
            current_phase.data.units@ == adjusted_units(
                old(current_phase).data.units@,
                current_phase.data.orders@.take(i as int),
            ),
        decreases n - i,
    {
        let order = current_phase.data.orders[i];
        assert(current_phase.data.orders@.take(i + 1).drop_last() =~= current_phase.data.orders@.take(
            i as int,
        ));
        if order.is_valid() {
            match order.kind {
                OrderKind::Build => {
                    current_phase.data.units.push(order.unit);
                },
                OrderKind::Disband => {
                    remove_all(&mut current_phase.data.units, order.unit);
                },
                _ => {},
            }
        }
        i = i + 1;
    }
    assert(current_phase.data.orders@.take(n as int) =~= current_phase.data.orders@);
}

} // verus!
