use vstd::prelude::*;
use crate::order::Order;
use crate::order::OrderKind;
use crate::order::OrderStatus;
use crate::order::spec_is_assumed;
use crate::phase::Phase;
use crate::phase::PhaseContext;
use crate::retreat_adjudicator::RetreatAdjudicator;
use crate::retreat_adjudicator::retreat_dest;
use crate::retreat_adjudicator::retreats_decided;
use crate::retreat_adjudicator::retreats_validated;
use crate::unit::Unit;

verus! {

/// The units of `units` that no order of `orders` is given to.
pub open spec fn unordered_units(units: Seq<Unit>, orders: Seq<Order>) -> Seq<Unit>
    decreases units.len(),
{
    if units.len() == 0 {
        Seq::empty()
    } else {
        let rest = unordered_units(units.drop_last(), orders);
        if exists|k: int| 0 <= k < orders.len() && #[trigger] orders[k].unit == units.last() {
            rest
        } else {
            rest.push(units.last())
        }
    }
}

/// The units of the successful retreats of `orders` (given by the owners of
/// their units), each at its destination, in order.
pub open spec fn retreated_units(orders: Seq<Order>) -> Seq<Unit>
    decreases orders.len(),
{
    if orders.len() == 0 {
        Seq::empty()
    } else {
        let rest = retreated_units(orders.drop_last());
        let o = orders.last();
        if !spec_is_assumed(o) && o.kind is Retreat && o.status == OrderStatus::Success {
            rest.push(Unit { province: retreat_dest(o), ..o.unit })
        } else {
            rest
        }
    }
}

/// What the resolution of a retreat phase records: the units that retreated,
/// at their destinations, then the units of the last phase that the retreat
/// phase leaves alone (those that received no order), as they stand.
pub open spec fn retreat_placements(orders: Seq<Order>, ctx_units: Seq<Unit>) -> Seq<Unit> {
    retreated_units(orders) + unordered_units(ctx_units, orders)
}

/// Whether two units are equal in every field.
fn units_equal(a: &Unit, b: &Unit) -> (r: bool)
    ensures
        r == (*a == *b),
{
    let from_equal = match (a.dislodged_from, b.dislodged_from) {
        (Some(x), Some(y)) => x == y,
        (None, None) => true,
        _ => false,
    };
    a.same_piece(b) && from_equal
}

/// The units of `units` that no order of `orders` is given to.
fn collect_unordered_units(units: &Vec<Unit>, orders: &Vec<Order>) -> (r: Vec<Unit>)
    ensures
        r@ == unordered_units(units@, orders@),
{
    let mut r: Vec<Unit> = Vec::new();
    let mut i: usize = 0;
    while i < units.len()
        invariant
            i <= units@.len(),
            r@ == unordered_units(units@.take(i as int), orders@),
        decreases units@.len() - i,
    {
        assert(units@.take(i + 1).drop_last() =~= units@.take(i as int));
        assert(units@.take(i + 1).last() == units@[i as int]);
        let u = units[i];
        let mut found = false;
        let mut k: usize = 0;
        while k < orders.len()
            invariant
                k <= orders@.len(),
                found == exists|j: int| 0 <= j < k && #[trigger] orders@[j].unit == u,
            decreases orders@.len() - k,
        {
            if units_equal(&orders[k].unit, &u) {
                found = true;
            }
            k = k + 1;
        }
        if !found {
            r.push(u);
        }
        i = i + 1;
    }
    assert(units@.take(units@.len() as int) =~= units@);
    r
}

/// Resolves the orders of a retreat phase and records the resulting units.
pub fn resolve_orders_for_retreat_phase(current_phase: &mut Phase, context: &PhaseContext)
    ensures
        final(current_phase).data.orders@ == retreats_decided(
            retreats_validated(
                old(current_phase).data.orders@,
                context.last_resolved_units@,
                context.standoff_codes@,
            ),
        ),
        final(current_phase).data.resolved_units@ == old(current_phase).data.resolved_units@
            + retreat_placements(final(current_phase).data.orders@, context.last_resolved_units@),
        final(current_phase).data.units@ == old(current_phase).data.units@,
        final(current_phase).data.territories@ == old(current_phase).data.territories@,
{
    let ghost os = current_phase.data.orders@;
    RetreatAdjudicator::validate_retreat_orders(&mut current_phase.data.orders, context);
    let ghost validated = current_phase.data.orders@;
    assert(validated =~= retreats_validated(
        os,
        context.last_resolved_units@,
        context.standoff_codes@,
    ));
    RetreatAdjudicator::handle_retreat_orders(&mut current_phase.data.orders);
    assert(current_phase.data.orders@ =~= retreats_decided(validated));
    apply_resolved_unit_locations(current_phase, context);
}

/// Records the units after the retreats.
fn apply_resolved_unit_locations(current_phase: &mut Phase, context: &PhaseContext)
    ensures
        final(current_phase).data.orders@ == old(current_phase).data.orders@,
        final(current_phase).data.resolved_units@ == old(current_phase).data.resolved_units@
            + retreat_placements(old(current_phase).data.orders@, context.last_resolved_units@),
        final(current_phase).data.units@ == old(current_phase).data.units@,
        final(current_phase).data.territories@ == old(current_phase).data.territories@,
{
    let unordered = collect_unordered_units(&context.last_resolved_units, &current_phase.data.orders);
    let n = current_phase.data.orders.len();
    let ghost all = current_phase.data.orders@;
    let mut i: usize = 0;
    while i < n
        invariant
            n == current_phase.data.orders@.len(),
            i <= n,
            current_phase.data.orders@ == all,
            all == old(current_phase).data.orders@,
            current_phase.data.units@ == old(current_phase).data.units@,
            current_phase.data.territories@ == old(current_phase).data.territories@,
            unordered@ == unordered_units(context.last_resolved_units@, all),
            current_phase.data.resolved_units@ == old(current_phase).data.resolved_units@
                + retreated_units(all.take(i as int)),
        decreases n - i,
    {
        let order = current_phase.data.orders[i];
        assert(all.take(i + 1).drop_last() =~= all.take(i as int));
        if !order.is_assumed() && order.is_success() {
            if let OrderKind::Retreat(r) = order.kind {
                current_phase.data.resolved_units.push(Unit { province: r.dest, ..order.unit });
            }
        }
        i = i + 1;
        assert(current_phase.data.resolved_units@ =~= old(current_phase).data.resolved_units@
            + retreated_units(all.take(i as int)));
    }
    assert(all.take(n as int) =~= all);
    let ghost base = current_phase.data.resolved_units@;
    let mut k: usize = 0;
    while k < unordered.len()
        invariant
            k <= unordered@.len(),
            current_phase.data.orders@ == all,
            current_phase.data.units@ == old(current_phase).data.units@,
            current_phase.data.territories@ == old(current_phase).data.territories@,
            current_phase.data.resolved_units@ == base + unordered@.take(k as int),
        decreases unordered@.len() - k,
    {
        current_phase.data.resolved_units.push(unordered[k]);
        k = k + 1;
        assert(current_phase.data.resolved_units@ =~= base + unordered@.take(k as int));
    }
    assert(unordered@.take(unordered@.len() as int) =~= unordered@);
    assert(current_phase.data.resolved_units@ =~= old(current_phase).data.resolved_units@
        + retreat_placements(all, context.last_resolved_units@));
}

/// Whether `o` is a successful retreat given by the owner of its unit.
pub open spec fn retreated(o: Order) -> bool {
    !spec_is_assumed(o) && o.kind is Retreat && o.status == OrderStatus::Success
}

/// Number of the successful retreats among the first `i` orders.
pub open spec fn retreats_before(orders: Seq<Order>, i: int) -> nat
    decreases i,
{
    if i <= 0 {
        0
    } else {
        retreats_before(orders, i - 1) + if retreated(orders[i - 1]) {
            1nat
        } else {
            0nat
        }
    }
}

/// The count of successful retreats grows with the prefix.
proof fn lemma_retreats_before_mono(orders: Seq<Order>, i: int, j: int)
    requires
        0 <= i <= j,
    ensures
        retreats_before(orders, i) <= retreats_before(orders, j),
    decreases j - i,
{
    if i < j {
        lemma_retreats_before_mono(orders, i, j - 1);
    }
}

/// Dropping the last order does not change the count of retreats before it.
proof fn lemma_retreats_before_prefix(orders: Seq<Order>, i: int)
    requires
        0 <= i < orders.len(),
    ensures
        retreats_before(orders.drop_last(), i) == retreats_before(orders, i),
    decreases i,
{
    if i > 0 {
        lemma_retreats_before_prefix(orders, i - 1);
        assert(orders.drop_last()[i - 1] == orders[i - 1]);
    }
}

/// The units that retreated are recorded in order, each at its destination.
proof fn lemma_retreated_units(orders: Seq<Order>)
    ensures
        retreated_units(orders).len() == retreats_before(orders, orders.len() as int),
        forall|i: int|
            0 <= i < orders.len() && #[trigger] retreated(orders[i]) ==> retreated_units(orders)[retreats_before(
                orders,
                i,
            ) as int] == (Unit { province: orders[i].kind->Retreat_0.dest, ..orders[i].unit }),
    decreases orders.len(),
{
    if orders.len() > 0 {
        let rest = orders.drop_last();
        let n = orders.len() - 1;
        lemma_retreated_units(rest);
        lemma_retreats_before_prefix(orders, n);
        assert forall|i: int| 0 <= i < orders.len() && #[trigger] retreated(orders[i]) implies retreated_units(
            orders,
        )[retreats_before(orders, i) as int] == (Unit {
            province: orders[i].kind->Retreat_0.dest,
            ..orders[i].unit
        }) by {
            if i < n {
                lemma_retreats_before_prefix(orders, i);
                assert(rest[i] == orders[i]);
                assert(retreated(rest[i]));
                lemma_retreats_before_mono(rest, i + 1, n);
                assert(retreated_units(orders)[retreats_before(orders, i) as int] == retreated_units(rest)[retreats_before(
                    rest,
                    i,
                ) as int]);
            }
        }
    }
}

/// The units of `units` without an order are exactly those kept, each from `units`.
proof fn lemma_unordered_units(units: Seq<Unit>, orders: Seq<Order>)
    ensures
        forall|k: int|
            0 <= k < unordered_units(units, orders).len() ==> units.contains(
                #[trigger] unordered_units(units, orders)[k],
            ) && forall|j: int| 0 <= j < orders.len() ==> orders[j].unit != unordered_units(units, orders)[k],
        forall|m: int|
            0 <= m < units.len() && (forall|j: int| 0 <= j < orders.len() ==> orders[j].unit != #[trigger] units[m])
                ==> unordered_units(units, orders).contains(units[m]),
    decreases units.len(),
{
    if units.len() > 0 {
        let rest = units.drop_last();
        lemma_unordered_units(rest, orders);
        assert forall|k: int|
            0 <= k < unordered_units(units, orders).len() implies units.contains(
            #[trigger] unordered_units(units, orders)[k],
        ) && forall|j: int| 0 <= j < orders.len() ==> orders[j].unit != unordered_units(units, orders)[k] by {
            if k < unordered_units(rest, orders).len() {
                let x = unordered_units(rest, orders)[k];
                assert(unordered_units(units, orders)[k] == x);
                let q = choose|q: int| 0 <= q < rest.len() && rest[q] == x;
                assert(units[q] == x);
            } else {
                assert(unordered_units(units, orders)[k] == units.last());
                assert(units[units.len() - 1] == units.last());
            }
        }
        assert forall|m: int|
            0 <= m < units.len() && (forall|j: int| 0 <= j < orders.len() ==> orders[j].unit != #[trigger] units[m])
                implies unordered_units(units, orders).contains(units[m]) by {
            if m < units.len() - 1 {
                assert(rest[m] == units[m]);
                let q = choose|q: int|
                    0 <= q < unordered_units(rest, orders).len() && unordered_units(rest, orders)[q] == units[m];
                assert(unordered_units(units, orders)[q] == units[m]);
            } else {
                assert(units.last() == units[m]);
                let u = unordered_units(units, orders);
                assert(u[u.len() - 1] == units[m]);
            }
        }
    }
}

/// What a retreat phase records: first every successful retreat, in order,
/// with its unit moved to the destination; then every unit of the last phase
/// that received no order, each once, and nothing else.
pub proof fn law_retreat_placements(orders: Seq<Order>, ctx_units: Seq<Unit>)
    ensures
        forall|i: int|
            0 <= i < orders.len() && #[trigger] retreated(orders[i]) ==> retreat_placements(
                orders,
                ctx_units,
            )[retreats_before(orders, i) as int] == (Unit {
                province: orders[i].kind->Retreat_0.dest,
                ..orders[i].unit
            }),
        forall|k: int|
            retreats_before(orders, orders.len() as int) <= k < retreat_placements(orders, ctx_units).len()
                ==> ctx_units.contains(#[trigger] retreat_placements(orders, ctx_units)[k]) && forall|j: int|
                0 <= j < orders.len() ==> orders[j].unit != retreat_placements(orders, ctx_units)[k],
        forall|m: int|
            0 <= m < ctx_units.len() && (forall|j: int| 0 <= j < orders.len() ==> orders[j].unit != #[trigger] ctx_units[m])
                ==> retreat_placements(orders, ctx_units).contains(ctx_units[m]),
{
    lemma_retreated_units(orders);
    lemma_unordered_units(ctx_units, orders);
    let r = retreated_units(orders);
    let u = unordered_units(ctx_units, orders);
    assert forall|i: int| 0 <= i < orders.len() && #[trigger] retreated(orders[i]) implies retreat_placements(
        orders,
        ctx_units,
    )[retreats_before(orders, i) as int] == (Unit { province: orders[i].kind->Retreat_0.dest, ..orders[i].unit }) by {
        lemma_retreats_before_mono(orders, i + 1, orders.len() as int);
    }
    assert forall|k: int|
        retreats_before(orders, orders.len() as int) <= k < retreat_placements(orders, ctx_units).len()
            implies ctx_units.contains(#[trigger] retreat_placements(orders, ctx_units)[k]) && forall|j: int|
            0 <= j < orders.len() ==> orders[j].unit != retreat_placements(orders, ctx_units)[k] by {
        assert(retreat_placements(orders, ctx_units)[k] == u[k - r.len()]);
    }
    assert forall|m: int|
        0 <= m < ctx_units.len() && (forall|j: int| 0 <= j < orders.len() ==> orders[j].unit != #[trigger] ctx_units[m])
            implies retreat_placements(orders, ctx_units).contains(ctx_units[m]) by {
        let q = choose|q: int| 0 <= q < u.len() && u[q] == ctx_units[m];
        assert(retreat_placements(orders, ctx_units)[r.len() + q] == ctx_units[m]);
    }
}

} // verus!
