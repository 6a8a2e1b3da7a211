use vstd::prelude::*;
use crate::adjudicator::adjudicate_orders;
use crate::adjudicator::adjudicated;
use crate::adjudicator::validated;
use crate::adjudicator::standoff_areas;
use crate::province::PROVINCE_COUNT;
use crate::province::spec_code;
use crate::order::Order;
use crate::order::OrderKind;
use crate::order::OrderStatus;
use crate::order::spec_is_assumed;
use crate::phase::Phase;
use crate::unit::Unit;

verus! {

/// Whether the unit of `o` is kept on the board after the resolution
/// (orders that were assumed or found invalid are left out).
pub open spec fn is_kept(o: Order) -> bool {
    !spec_is_assumed(o) && o.status != OrderStatus::Invalid
}

/// Where the unit of `o` stands after the resolution: at the destination of a
/// successful move, marked with its attacker when dislodged, else in place.
pub open spec fn main_placement(o: Order) -> Unit {
    if o.status == OrderStatus::Success && o.kind is Move {
        Unit { province: o.kind->Move_0.dest, ..o.unit }
    } else if o.status == OrderStatus::Dislodged {
        Unit { dislodged_from: o.dislodged_from, ..o.unit }
    } else {
        o.unit
    }
}

/// The placements of the kept units of `orders`, in order.
pub open spec fn main_placements(orders: Seq<Order>) -> Seq<Unit>
    decreases orders.len(),
{
    if orders.len() == 0 {
        Seq::empty()
    } else {
        let rest = main_placements(orders.drop_last());
        if is_kept(orders.last()) {
            rest.push(main_placement(orders.last()))
        } else {
            rest
        }
    }
}

/// Resolves the orders of a main (order) phase and records the resulting units.
pub fn resolve_orders_for_main_phase(current_phase: &mut Phase)
    requires
        old(current_phase).data.orders@.len() < 0x1_0000_0000,
    ensures
        adjudicated(old(current_phase).data.orders@, final(current_phase).data.orders@, true),
        final(current_phase).data.resolved_units@ == old(current_phase).data.resolved_units@
            + main_placements(final(current_phase).data.orders@),
        final(current_phase).data.units@ == old(current_phase).data.units@,
        final(current_phase).data.territories@ == old(current_phase).data.territories@,
        forall|k: int|
            0 <= k < old(current_phase).data.standoff_province_codes@.len() ==> final(current_phase).data.standoff_province_codes@[k] == old(current_phase).data.standoff_province_codes@[k],
        final(current_phase).data.standoff_province_codes@.len() == old(current_phase).data.standoff_province_codes@.len() + standoff_areas(
            validated(old(current_phase).data.orders@),
            final(current_phase).data.orders@,
            PROVINCE_COUNT as int,
        ).len(),
        forall|k: int|
            0 <= k < standoff_areas(
                validated(old(current_phase).data.orders@),
                final(current_phase).data.orders@,
                PROVINCE_COUNT as int,
            ).len() ==> #[trigger] final(current_phase).data.standoff_province_codes@[old(current_phase).data.standoff_province_codes@.len() + k]@ == spec_code(
                standoff_areas(
                    validated(old(current_phase).data.orders@),
                    final(current_phase).data.orders@,
                    PROVINCE_COUNT as int,
                )[k],
            ),
{
    adjudicate_orders(
        &mut current_phase.data.orders,
        &mut current_phase.data.standoff_province_codes,
        true,
    );
    apply_resolved_unit_locations(current_phase);
}

/// Appends to the resolved units the placement of every kept unit.
fn apply_resolved_unit_locations(current_phase: &mut Phase)
    ensures
        final(current_phase).data.orders@ == old(current_phase).data.orders@,
        final(current_phase).data.resolved_units@ == old(current_phase).data.resolved_units@
            + main_placements(old(current_phase).data.orders@),
        final(current_phase).data.units@ == old(current_phase).data.units@,
        final(current_phase).data.territories@ == old(current_phase).data.territories@,
        final(current_phase).data.standoff_province_codes@
            == old(current_phase).data.standoff_province_codes@,
{
    let n = current_phase.data.orders.len();
    let mut i: usize = 0;
    while i < n
        invariant
            n == current_phase.data.orders@.len(),
            i <= n,
            current_phase.data.orders@ == old(current_phase).data.orders@,
            current_phase.data.units@ == old(current_phase).data.units@,
            current_phase.data.territories@ == old(current_phase).data.territories@,
            current_phase.data.standoff_province_codes@
                == old(current_phase).data.standoff_province_codes@,
            current_phase.data.resolved_units@ == old(current_phase).data.resolved_units@
                + main_placements(current_phase.data.orders@.take(i as int)),
        decreases n - i,
    {
        let order = current_phase.data.orders[i];
        assert(current_phase.data.orders@.take(i + 1).drop_last()
            =~= current_phase.data.orders@.take(i as int));
        if !order.is_assumed() && !order.is_invalid() {
            let placed = match order.kind {
                OrderKind::Move(m) => {
                    if order.is_success() {
                        Unit { province: m.dest, ..order.unit }
                    } else if order.is_dislodged() {
                        Unit { dislodged_from: order.dislodged_from, ..order.unit }
                    } else {
                        order.unit
                    }
                },
                _ => {
                    if order.is_dislodged() {
                        Unit { dislodged_from: order.dislodged_from, ..order.unit }
                    } else {
                        order.unit
                    }
                },
            };
            current_phase.data.resolved_units.push(placed);
        }
        i = i + 1;
        assert(current_phase.data.resolved_units@ =~= old(current_phase).data.resolved_units@
            + main_placements(current_phase.data.orders@.take(i as int)));
    }
    assert(current_phase.data.orders@.take(n as int) =~= current_phase.data.orders@);
}

/// Number of the kept orders among the first `i`.
pub open spec fn kept_before(orders: Seq<Order>, i: int) -> nat
    decreases i,
{
    if i <= 0 {
        0
    } else {
        kept_before(orders, i - 1) + if is_kept(orders[i - 1]) {
            1nat
        } else {
            0nat
        }
    }
}

/// The count of kept orders grows with the prefix.
proof fn lemma_kept_before_mono(orders: Seq<Order>, i: int, j: int)
    requires
        0 <= i <= j,
    ensures
        kept_before(orders, i) <= kept_before(orders, j),
    decreases j - i,
{
    if i < j {
        lemma_kept_before_mono(orders, i, j - 1);
    }
}

/// Dropping the last order does not change the count of kept orders before it.
proof fn lemma_kept_before_prefix(orders: Seq<Order>, i: int)
    requires
        0 <= i < orders.len(),
    ensures
        kept_before(orders.drop_last(), i) == kept_before(orders, i),
    decreases i,
{
    if i > 0 {
        lemma_kept_before_prefix(orders, i - 1);
        assert(orders.drop_last()[i - 1] == orders[i - 1]);
    }
}

/// The placements record, in order, one unit for each kept order: its
/// unit, moved to the destination when the move succeeded, and marked with
/// the province of its attacker when it was dislodged.
pub proof fn law_main_placements(orders: Seq<Order>)
    ensures
        main_placements(orders).len() == kept_before(orders, orders.len() as int),
        forall|i: int|
            0 <= i < orders.len() && #[trigger] is_kept(orders[i]) ==> {
                let u = main_placements(orders)[kept_before(orders, i) as int];
                &&& u.power == orders[i].unit.power
                &&& u.kind == orders[i].unit.kind
                &&& u.province == (if orders[i].status == OrderStatus::Success && orders[i].kind is Move {
                    orders[i].kind->Move_0.dest
                } else {
                    orders[i].unit.province
                })
                &&& u.dislodged_from == (if orders[i].status == OrderStatus::Dislodged {
                    orders[i].dislodged_from
                } else {
                    orders[i].unit.dislodged_from
                })
            },
    decreases orders.len(),
{
    if orders.len() > 0 {
        let rest = orders.drop_last();
        let n = orders.len() - 1;
        law_main_placements(rest);
        lemma_kept_before_prefix(orders, n);
        assert forall|i: int| 0 <= i < orders.len() && #[trigger] is_kept(orders[i]) implies {
                let u = main_placements(orders)[kept_before(orders, i) as int];
                &&& u.power == orders[i].unit.power
                &&& u.kind == orders[i].unit.kind
                &&& u.province == (if orders[i].status == OrderStatus::Success && orders[i].kind is Move {
                    orders[i].kind->Move_0.dest
                } else {
                    orders[i].unit.province
                })
                &&& u.dislodged_from == (if orders[i].status == OrderStatus::Dislodged {
                    orders[i].dislodged_from
                } else {
                    orders[i].unit.dislodged_from
                })
            } by {
            if i < n {
                lemma_kept_before_prefix(orders, i);
                assert(rest[i] == orders[i]);
                assert(is_kept(rest[i]));
                lemma_kept_before_mono(rest, i + 1, n);
                assert(main_placements(orders)[kept_before(orders, i) as int] == main_placements(rest)[kept_before(rest, i) as int]);
            }
        }
    }
}

} // verus!
