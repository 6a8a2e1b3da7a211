use vstd::prelude::*;
use crate::order::Order;
use crate::order::OrderKind;
use crate::order::OrderStatus;
use crate::order::spec_is_assumed;
use crate::phase::PhaseContext;
use crate::province::Province;
use crate::province::spec_area;
use crate::province::spec_code;
use crate::text::str_eq;
use crate::unit::Unit;
use crate::validation::copy_orders;
use crate::validation::with_status;

verus! {

/// Whether `o` is an unresolved retreat given by the owner of its unit.
pub open spec fn is_pending_retreat(o: Order) -> bool {
    !spec_is_assumed(o) && o.status == OrderStatus::Unresolved && o.kind is Retreat
}

/// Destination of a retreat.
pub open spec fn retreat_dest(o: Order) -> Province {
    o.kind->Retreat_0.dest
}

/// Whether one of `units` stands on `d`.
pub open spec fn dest_occupied(units: Seq<Unit>, d: Province) -> bool {
    exists|k: int| 0 <= k < units.len() && #[trigger] units[k].province == d
}

/// Whether the province of `d` is one of the standoffs `codes`.
pub open spec fn dest_in_standoff(codes: Seq<&str>, d: Province) -> bool {
    exists|k: int| 0 <= k < codes.len() && #[trigger] codes[k]@ == spec_code(spec_area(d.index()))
}

/// Whether the order `j` is a pending retreat to `d` of a unit dislodged from `d`.
pub open spec fn is_back_retreat(orders: Seq<Order>, j: int, d: Province) -> bool {
    is_pending_retreat(orders[j]) && retreat_dest(orders[j]) == d && orders[j].unit.dislodged_from
        == Some(d)
}

/// Whether the retreat `i` is refused: its destination is occupied, was left
/// empty by a standoff, or is where its unit was attacked from.
pub open spec fn retreat_refused(ctx_units: Seq<Unit>, codes: Seq<&str>, orders: Seq<Order>, i: int) -> bool {
    dest_occupied(ctx_units, retreat_dest(orders[i])) || dest_in_standoff(
        codes,
        retreat_dest(orders[i]),
    ) || is_back_retreat(orders, i, retreat_dest(orders[i]))
}

/// Number of the pending retreats of `orders` to `d`.
pub open spec fn count_pending_to(orders: Seq<Order>, d: Province) -> nat
    decreases orders.len(),
{
    if orders.len() == 0 {
        0
    } else {
        let rest = count_pending_to(orders.drop_last(), d);
        if is_pending_retreat(orders.last()) && retreat_dest(orders.last()) == d {
            rest + 1
        } else {
            rest
        }
    }
}

/// The orders once the refused retreats are marked invalid.
pub open spec fn retreats_validated(orders: Seq<Order>, ctx_units: Seq<Unit>, codes: Seq<&str>) -> Seq<Order> {
    Seq::new(
        orders.len(),
        |i: int|
            if is_pending_retreat(orders[i]) && retreat_refused(ctx_units, codes, orders, i) {
                with_status(orders[i], OrderStatus::Invalid)
            } else {
                orders[i]
            },
    )
}

/// The orders once every pending retreat is decided: it succeeds when it is
/// the only pending retreat to its destination, and fails otherwise.
pub open spec fn retreats_decided(orders: Seq<Order>) -> Seq<Order> {
    Seq::new(
        orders.len(),
        |i: int|
            if is_pending_retreat(orders[i]) {
                with_status(
                    orders[i],
                    if count_pending_to(orders, retreat_dest(orders[i])) == 1 {
                        OrderStatus::Success
                    } else {
                        OrderStatus::Failure
                    },
                )
            } else {
                orders[i]
            },
    )
}

/// Two pending retreats to the same destination make it count at least two.
proof fn lemma_two_pending_to(orders: Seq<Order>, i: int, j: int, d: Province)
    requires
        0 <= i < j < orders.len(),
        is_pending_retreat(orders[i]),
        is_pending_retreat(orders[j]),
        retreat_dest(orders[i]) == d,
        retreat_dest(orders[j]) == d,
    ensures
        count_pending_to(orders, d) >= 2,
    decreases orders.len(),
{
    if j < orders.len() - 1 {
        lemma_two_pending_to(orders.drop_last(), i, j, d);
    } else {
        lemma_one_pending_to(orders.drop_last(), i, d);
    }
}

/// A pending retreat to `d` makes its count at least one.
proof fn lemma_one_pending_to(orders: Seq<Order>, i: int, d: Province)
    requires
        0 <= i < orders.len(),
        is_pending_retreat(orders[i]),
        retreat_dest(orders[i]) == d,
    ensures
        count_pending_to(orders, d) >= 1,
    decreases orders.len(),
{
    if i < orders.len() - 1 {
        lemma_one_pending_to(orders.drop_last(), i, d);
    }
}

/// Of the retreats ordered in a retreat phase, at most one succeeds into any
/// one province: two successful retreats have different destinations.
pub proof fn law_one_retreat_per_destination(
    orders: Seq<Order>,
    ctx_units: Seq<Unit>,
    codes: Seq<&str>,
    i: int,
    j: int,
)
    requires
        0 <= i < j < orders.len(),
        is_pending_retreat(orders[i]),
        is_pending_retreat(orders[j]),
        retreats_decided(retreats_validated(orders, ctx_units, codes))[i].status
            == OrderStatus::Success,
        retreats_decided(retreats_validated(orders, ctx_units, codes))[j].status
            == OrderStatus::Success,
    ensures
        retreat_dest(orders[i]) != retreat_dest(orders[j]),
{
    let v = retreats_validated(orders, ctx_units, codes);
    if retreat_dest(orders[i]) == retreat_dest(orders[j]) {
        assert(v[i] == orders[i]);
        assert(v[j] == orders[j]);
        lemma_two_pending_to(v, i, j, retreat_dest(orders[i]));
    }
}

/// A retreat that succeeds goes to a province that no unit of the last phase
/// holds and that no standoff left empty.
pub proof fn law_successful_retreat_is_free(
    orders: Seq<Order>,
    ctx_units: Seq<Unit>,
    codes: Seq<&str>,
    i: int,
)
    requires
        0 <= i < orders.len(),
        is_pending_retreat(orders[i]),
        retreats_decided(retreats_validated(orders, ctx_units, codes))[i].status
            == OrderStatus::Success,
    ensures
        !dest_occupied(ctx_units, retreat_dest(orders[i])),
        !dest_in_standoff(codes, retreat_dest(orders[i])),
        forall|k: int| 0 <= k < ctx_units.len() ==> #[trigger] ctx_units[k].province != retreat_dest(orders[i]),
        forall|k: int|
            0 <= k < codes.len() ==> #[trigger] codes[k]@ != spec_code(spec_area(retreat_dest(orders[i]).index())),
        orders[i].unit.dislodged_from != Some(retreat_dest(orders[i])),
{
    let v = retreats_validated(orders, ctx_units, codes);
    assert(is_pending_retreat(v[i]));
}

/// The adjudicator of retreat phases.
pub struct RetreatAdjudicator;

/// Number of the pending retreats of `orders` to `d`.
fn count_pending_retreats(orders: &Vec<Order>, d: Province) -> (r: usize)
    ensures
        r == count_pending_to(orders@, d),
{
    let mut n: usize = 0;
    let mut i: usize = 0;
    while i < orders.len()
        invariant
            i <= orders@.len(),
            n == count_pending_to(orders@.take(i as int), d),
            n <= i,
        decreases orders@.len() - i,
    {
        assert(orders@.take(i + 1).drop_last() =~= orders@.take(i as int));
        let o = &orders[i];
        if !o.is_assumed() && o.is_unresolved() {
            if let OrderKind::Retreat(r) = o.kind {
                if r.dest == d {
                    n = n + 1;
                }
            }
        }
        i = i + 1;
    }
    assert(orders@.take(orders@.len() as int) =~= orders@);
    n
}

impl RetreatAdjudicator {
    /// Refuses the retreats to a province that is occupied, that a standoff
    /// left empty, or that the unit was attacked from.
    pub fn validate_retreat_orders(orders: &mut Vec<Order>, context: &PhaseContext)
        ensures
            final(orders)@.len() == old(orders)@.len(),
            forall|i: int|
                0 <= i < old(orders)@.len() ==> #[trigger] final(orders)@[i] == if is_pending_retreat(
                    old(orders)@[i],
                ) && retreat_refused(
                    context.last_resolved_units@,
                    context.standoff_codes@,
                    old(orders)@,
                    i,
                ) {
                    with_status(old(orders)@[i], OrderStatus::Invalid)
                } else {
                    old(orders)@[i]
                },
    {
        let snapshot = copy_orders(orders);
        let units = &context.last_resolved_units;
        let codes = &context.standoff_codes;
        let mut i: usize = 0;
        while i < orders.len()
            invariant
                snapshot@ == old(orders)@,
                orders@.len() == old(orders)@.len(),
                i <= orders@.len(),
                forall|k: int|
                    0 <= k < i ==> #[trigger] orders@[k] == if is_pending_retreat(old(orders)@[k])
                        && retreat_refused(units@, codes@, old(orders)@, k) {
                        with_status(old(orders)@[k], OrderStatus::Invalid)
                    } else {
                        old(orders)@[k]
                    },
                forall|k: int| i <= k < orders@.len() ==> orders@[k] == old(orders)@[k],
            decreases orders@.len() - i,
        {
            let o = orders[i];
            if !o.is_assumed() && o.is_unresolved() {
                if let OrderKind::Retreat(r) = o.kind {
                    let d = r.dest;
                    let mut occupied = false;
                    let mut k: usize = 0;
                    while k < units.len()
                        invariant
                            k <= units@.len(),
                            occupied == exists|j: int|
                                0 <= j < k && #[trigger] units@[j].province == d,
                        decreases units@.len() - k,
                    {
                        if units[k].province == d {
                            occupied = true;
                        }
                        k = k + 1;
                    }
                    let area_code = d.area().code();
                    let mut standoff = false;
                    let mut k: usize = 0;
                    while k < codes.len()
                        invariant
                            k <= codes@.len(),
                            area_code@ == spec_code(spec_area(d.index())),
                            standoff == exists|j: int|
                                0 <= j < k && #[trigger] codes@[j]@ == spec_code(
                                    spec_area(d.index()),
                                ),
                        decreases codes@.len() - k,
                    {
                        if str_eq(codes[k], area_code) {
                            standoff = true;
                        }
                        k = k + 1;
                    }
                    let back = o.unit.dislodged_from == Some(d);
                    if occupied || standoff || back {
                        orders.set(i, Order { status: OrderStatus::Invalid, ..o });
                    }
                }
            }
            i = i + 1;
        }
    }

    /// Decides every pending retreat: it succeeds when it is the only pending
    /// retreat to its destination, and fails otherwise.
    pub fn handle_retreat_orders(orders: &mut Vec<Order>)
        ensures
            final(orders)@.len() == old(orders)@.len(),
            forall|i: int|
                0 <= i < old(orders)@.len() ==> #[trigger] final(orders)@[i] == if is_pending_retreat(
                    old(orders)@[i],
                ) {
                    with_status(
                        old(orders)@[i],
                        if count_pending_to(old(orders)@, retreat_dest(old(orders)@[i])) == 1 {
                            OrderStatus::Success
                        } else {
                            OrderStatus::Failure
                        },
                    )
                } else {
                    old(orders)@[i]
                },
    {
        let snapshot = copy_orders(orders);
        let mut i: usize = 0;
        while i < orders.len()
            invariant
                snapshot@ == old(orders)@,
                orders@.len() == old(orders)@.len(),
                i <= orders@.len(),
                forall|k: int|
                    0 <= k < i ==> #[trigger] orders@[k] == if is_pending_retreat(old(orders)@[k]) {
                        with_status(
                            old(orders)@[k],
                            if count_pending_to(old(orders)@, retreat_dest(old(orders)@[k])) == 1 {
                                OrderStatus::Success
                            } else {
                                OrderStatus::Failure
                            },
                        )
                    } else {
                        old(orders)@[k]
                    },
                forall|k: int| i <= k < orders@.len() ==> orders@[k] == old(orders)@[k],
            decreases orders@.len() - i,
        {
            let o = orders[i];
            if !o.is_assumed() && o.is_unresolved() {
                if let OrderKind::Retreat(r) = o.kind {
                    let n = count_pending_retreats(&snapshot, r.dest);
                    let status = if n == 1 {
                        OrderStatus::Success
                    } else {
                        OrderStatus::Failure
                    };
                    orders.set(i, Order { status, ..o });
                }
            }
            i = i + 1;
        }
    }
}

} // verus!
