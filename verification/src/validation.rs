use vstd::prelude::*;
use crate::map::can_unit_move_to;
use crate::map::can_unit_reach_area;
use crate::map::is_reachable_by_sea;
use crate::map::spec_can_move;
use crate::map::spec_can_reach_area;
use crate::map::spec_reachable_by_sea;
use crate::order::Order;
use crate::order::OrderKind;
use crate::order::OrderStatus;
use crate::order::SupportOrder;
use crate::order::spec_is_assumed;
use crate::order::spec_matching_target;
use crate::province::Province;
use crate::province::PROVINCE_COUNT;
use crate::province::Terrain;
use crate::province::spec_terrain;

verus! {

/// Whether the order `c` is a convoy, still unresolved, given by the owner of
/// its fleet, that carries the move `mv`.
pub open spec fn is_convoy_candidate(c: Order, mv: Order) -> bool {
    &&& !spec_is_assumed(c)
    &&& c.status == OrderStatus::Unresolved
    &&& c.kind is Convoy
    &&& spec_matching_target(c, mv)
}

/// Whether some order of `orders` at position `w` of the map is a convoy candidate for `mv`.
pub open spec fn has_convoy_at(orders: Seq<Order>, mv: Order, w: int) -> bool {
    exists|j: int|
        0 <= j < orders.len() && #[trigger] is_convoy_candidate(orders[j], mv)
            && orders[j].unit.province.index() == w
}

/// The waters (by position on the map) where a convoy candidate for `mv` stands.
pub open spec fn convoy_marks(orders: Seq<Order>, mv: Order) -> Seq<bool> {
    Seq::new(PROVINCE_COUNT as nat, |w: int| has_convoy_at(orders, mv, w))
}

/// Whether the move `o` can reach its destination: directly, or for an army
/// through the waters of the convoys ordered for it.
pub open spec fn move_is_legal(orders: Seq<Order>, o: Order) -> bool {
    match o.kind {
        OrderKind::Move(m) => spec_can_move(o.unit, m.dest) || (o.unit.kind is Army
            && spec_reachable_by_sea(o.unit.province, m.dest, convoy_marks(orders, o))),
        _ => false,
    }
}

/// Whether `o` is an unresolved order of kind `k` given by the owner of its unit.
pub open spec fn is_pending(o: Order) -> bool {
    !spec_is_assumed(o) && o.status == OrderStatus::Unresolved
}

/// The province that a support must be able to reach: the destination of the
/// supported move, or the place of the supported unit.
pub open spec fn support_reach(s: SupportOrder) -> Province {
    match s.target_dest {
        Some(d) => d,
        None => s.target.province,
    }
}

/// Whether some order of `orders` that is not known to be invalid is the target of `o`.
pub open spec fn has_support_target(orders: Seq<Order>, o: Order) -> bool {
    exists|j: int|
        0 <= j < orders.len() && !spec_is_assumed(orders[j]) && orders[j].status
            != OrderStatus::Invalid && #[trigger] spec_matching_target(o, orders[j])
}

/// Whether the support `o` has a target and its unit can reach where the support goes.
pub open spec fn support_is_legal(orders: Seq<Order>, o: Order) -> bool {
    match o.kind {
        OrderKind::Support(s) => has_support_target(orders, o) && spec_can_reach_area(
            o.unit,
            support_reach(s),
        ),
        _ => false,
    }
}

/// Whether some valid move of `orders` is the move that the convoy `o` carries.
pub open spec fn has_convoy_target(orders: Seq<Order>, o: Order) -> bool {
    exists|j: int|
        0 <= j < orders.len() && !spec_is_assumed(orders[j]) && orders[j].status
            == OrderStatus::Valid && orders[j].kind is Move && #[trigger] spec_matching_target(
            o,
            orders[j],
        )
}

/// Whether the convoy `o` stands on water and carries a valid move.
pub open spec fn convoy_is_legal(orders: Seq<Order>, o: Order) -> bool {
    spec_terrain(o.unit.province.index()) == Terrain::Water && has_convoy_target(orders, o)
}

/// `o` with its status replaced.
pub open spec fn with_status(o: Order, s: OrderStatus) -> Order {
    Order { status: s, ..o }
}

/// The orders once the pending moves are checked (see `validate_move_orders`).
pub open spec fn moves_checked(os: Seq<Order>) -> Seq<Order> {
    Seq::new(
        os.len(),
        |i: int|
            if is_pending(os[i]) && os[i].kind is Move {
                with_status(
                    os[i],
                    if move_is_legal(os, os[i]) {
                        OrderStatus::Valid
                    } else {
                        OrderStatus::Invalid
                    },
                )
            } else {
                os[i]
            },
    )
}

/// The orders once the pending supports are checked (see `validate_support_orders`).
pub open spec fn supports_checked(os: Seq<Order>) -> Seq<Order> {
    Seq::new(
        os.len(),
        |i: int|
            if is_pending(os[i]) && os[i].kind is Support {
                with_status(
                    os[i],
                    if support_is_legal(os, os[i]) {
                        OrderStatus::Valid
                    } else {
                        OrderStatus::Invalid
                    },
                )
            } else {
                os[i]
            },
    )
}

/// The orders once the pending convoys are checked (see `validate_convoy_orders`).
pub open spec fn convoys_checked(os: Seq<Order>) -> Seq<Order> {
    Seq::new(
        os.len(),
        |i: int|
            if is_pending(os[i]) && os[i].kind is Convoy {
                with_status(
                    os[i],
                    if convoy_is_legal(os, os[i]) {
                        OrderStatus::Valid
                    } else {
                        OrderStatus::Invalid
                    },
                )
            } else {
                os[i]
            },
    )
}

/// A copy of the orders.
pub fn copy_orders(orders: &Vec<Order>) -> (r: Vec<Order>)
    ensures
        r@ == orders@,
{
    let mut r: Vec<Order> = Vec::new();
    let mut i: usize = 0;
    while i < orders.len()
        invariant
            i <= orders@.len(),
            r@ == orders@.take(i as int),
        decreases orders@.len() - i,
    {
        r.push(orders[i]);
        i = i + 1;
        assert(r@ =~= orders@.take(i as int));
    }
    assert(orders@.take(orders@.len() as int) =~= orders@);
    r
}

/// The waters where a convoy candidate for `mv` stands, marked by position.
pub fn convoy_marks_for(orders: &Vec<Order>, mv: &Order) -> (r: Vec<bool>)
    ensures
        r@ == convoy_marks(orders@, *mv),
{
    let mut r: Vec<bool> = Vec::new();
    let mut w: u8 = 0;
    while w < PROVINCE_COUNT
        invariant
            w <= PROVINCE_COUNT,
            r@.len() == w,
            forall|k: int| 0 <= k < w ==> !r@[k],
        decreases PROVINCE_COUNT - w,
    {
        r.push(false);
        w = w + 1;
    }
    let mut j: usize = 0;
    while j < orders.len()
        invariant
            j <= orders@.len(),
            r@.len() == PROVINCE_COUNT,
            forall|w: int|
                0 <= w < PROVINCE_COUNT ==> r@[w] == exists|k: int|
                    0 <= k < j && #[trigger] is_convoy_candidate(orders@[k], *mv)
                        && orders@[k].unit.province.index() == w,
        decreases orders@.len() - j,
    {
        let c = &orders[j];
        let candidate = !c.is_assumed() && c.is_unresolved() && matches!(c.kind, OrderKind::Convoy(_))
            && c.is_matching_target(mv);
        if candidate {
            let w = c.unit.province.id();
            r.set(w as usize, true);
            assert(is_convoy_candidate(orders@[j as int], *mv));
        }
        j = j + 1;
    }
    assert(r@ =~= convoy_marks(orders@, *mv));
    r
}

/// Whether the move `o` can reach its destination (see `move_is_legal`).
pub fn check_move(orders: &Vec<Order>, o: &Order) -> (r: bool)
    ensures
        r == move_is_legal(orders@, *o),
{
    match o.kind {
        OrderKind::Move(m) => {
            if can_unit_move_to(&o.unit, m.dest) {
                return true;
            }
            if !o.unit.is_army() {
                return false;
            }
            let marks = convoy_marks_for(orders, o);
            is_reachable_by_sea(o.unit.province, m.dest, &marks)
        },
        _ => false,
    }
}

/// Validates every pending move: valid when it can reach its destination
/// (for an army, possibly through the ordered convoys), invalid otherwise.
pub fn validate_move_orders(orders: &mut Vec<Order>)
    ensures
        final(orders)@.len() == old(orders)@.len(),
        forall|i: int|
            0 <= i < old(orders)@.len() ==> #[trigger] final(orders)@[i] == if is_pending(
                old(orders)@[i],
            ) && old(orders)@[i].kind is Move {
                with_status(
                    old(orders)@[i],
                    if move_is_legal(old(orders)@, old(orders)@[i]) {
                        OrderStatus::Valid
                    } else {
                        OrderStatus::Invalid
                    },
                )
            } else {
                old(orders)@[i]
            },
{
    let snapshot = copy_orders(orders);
    let mut i: usize = 0;
    while i < orders.len()
        invariant
            snapshot@ == old(orders)@,
            orders@.len() == old(orders)@.len(),
            i <= orders@.len(),
            forall|k: int|
                0 <= k < i ==> #[trigger] orders@[k] == if is_pending(old(orders)@[k])
                    && old(orders)@[k].kind is Move {
                    with_status(
                        old(orders)@[k],
                        if move_is_legal(old(orders)@, old(orders)@[k]) {
                            OrderStatus::Valid
                        } else {
                            OrderStatus::Invalid
                        },
                    )
                } else {
                    old(orders)@[k]
                },
            forall|k: int| i <= k < orders@.len() ==> orders@[k] == old(orders)@[k],
        decreases orders@.len() - i,
    {
        let o = orders[i];
        if !o.is_assumed() && o.is_unresolved() && matches!(o.kind, OrderKind::Move(_)) {
            let legal = check_move(&snapshot, &o);
            let status = if legal {
                OrderStatus::Valid
            } else {
                OrderStatus::Invalid
            };
            orders.set(i, Order { status, ..o });
        }
        i = i + 1;
    }
}

/// Validates every pending support: valid when it has a target that is not
/// known to be invalid and its unit can reach where the support goes.
pub fn validate_support_orders(orders: &mut Vec<Order>)
    ensures
        final(orders)@.len() == old(orders)@.len(),
        forall|i: int|
            0 <= i < old(orders)@.len() ==> #[trigger] final(orders)@[i] == if is_pending(
                old(orders)@[i],
            ) && old(orders)@[i].kind is Support {
                with_status(
                    old(orders)@[i],
                    if support_is_legal(old(orders)@, old(orders)@[i]) {
                        OrderStatus::Valid
                    } else {
                        OrderStatus::Invalid
                    },
                )
            } else {
                old(orders)@[i]
            },
{
    let snapshot = copy_orders(orders);
    let mut i: usize = 0;
    while i < orders.len()
        invariant
            snapshot@ == old(orders)@,
            orders@.len() == old(orders)@.len(),
            i <= orders@.len(),
            forall|k: int|
                0 <= k < i ==> #[trigger] orders@[k] == if is_pending(old(orders)@[k])
                    && old(orders)@[k].kind is Support {
                    with_status(
                        old(orders)@[k],
                        if support_is_legal(old(orders)@, old(orders)@[k]) {
                            OrderStatus::Valid
                        } else {
                            OrderStatus::Invalid
                        },
                    )
                } else {
                    old(orders)@[k]
                },
            forall|k: int| i <= k < orders@.len() ==> orders@[k] == old(orders)@[k],
        decreases orders@.len() - i,
    {
        let o = orders[i];
        if !o.is_assumed() && o.is_unresolved() {
            if let OrderKind::Support(s) = o.kind {
                let mut found = false;
                let mut j: usize = 0;
                while j < snapshot.len()
                    invariant
                        snapshot@ == old(orders)@,
                        j <= snapshot@.len(),
                        o == old(orders)@[i as int],
                        found == exists|k: int|
                            0 <= k < j && !spec_is_assumed(snapshot@[k]) && snapshot@[k].status
                                != OrderStatus::Invalid && #[trigger] spec_matching_target(
                                o,
                                snapshot@[k],
                            ),
                    decreases snapshot@.len() - j,
                {
                    let t = &snapshot[j];
                    if !found && !t.is_assumed() && !t.is_invalid() && o.is_matching_target(t) {
                        found = true;
                    }
                    j = j + 1;
                }
                let reach = match s.target_dest {
                    Some(d) => d,
                    None => s.target.province,
                };
                let legal = found && can_unit_reach_area(&o.unit, reach);
                let status = if legal {
                    OrderStatus::Valid
                } else {
                    OrderStatus::Invalid
                };
                orders.set(i, Order { status, ..o });
            }
        }
        i = i + 1;
    }
}

/// Validates every pending convoy: valid when its fleet is on water and it
/// carries a valid move.
pub fn validate_convoy_orders(orders: &mut Vec<Order>)
    ensures
        final(orders)@.len() == old(orders)@.len(),
        forall|i: int|
            0 <= i < old(orders)@.len() ==> #[trigger] final(orders)@[i] == if is_pending(
                old(orders)@[i],
            ) && old(orders)@[i].kind is Convoy {
                with_status(
                    old(orders)@[i],
                    if convoy_is_legal(old(orders)@, old(orders)@[i]) {
                        OrderStatus::Valid
                    } else {
                        OrderStatus::Invalid
                    },
                )
            } else {
                old(orders)@[i]
            },
{
    let snapshot = copy_orders(orders);
    let mut i: usize = 0;
    while i < orders.len()
        invariant
            snapshot@ == old(orders)@,
            orders@.len() == old(orders)@.len(),
            i <= orders@.len(),
            forall|k: int|
                0 <= k < i ==> #[trigger] orders@[k] == if is_pending(old(orders)@[k])
                    && old(orders)@[k].kind is Convoy {
                    with_status(
                        old(orders)@[k],
                        if convoy_is_legal(old(orders)@, old(orders)@[k]) {
                            OrderStatus::Valid
                        } else {
                            OrderStatus::Invalid
                        },
                    )
                } else {
                    old(orders)@[k]
                },
            forall|k: int| i <= k < orders@.len() ==> orders@[k] == old(orders)@[k],
        decreases orders@.len() - i,
    {
        let o = orders[i];
        if !o.is_assumed() && o.is_unresolved() && matches!(o.kind, OrderKind::Convoy(_)) {
            let mut found = false;
            let mut j: usize = 0;
            while j < snapshot.len()
                invariant
                    snapshot@ == old(orders)@,
                    j <= snapshot@.len(),
                    o == old(orders)@[i as int],
                    found == exists|k: int|
                        0 <= k < j && !spec_is_assumed(snapshot@[k]) && snapshot@[k].status
                            == OrderStatus::Valid && snapshot@[k].kind is Move
                            && #[trigger] spec_matching_target(o, snapshot@[k]),
                decreases snapshot@.len() - j,
            {
                let t = &snapshot[j];
                if !found && !t.is_assumed() && t.is_valid() && matches!(t.kind, OrderKind::Move(_))
                    && o.is_matching_target(t) {
                    found = true;
                }
                j = j + 1;
            }
            let legal = o.unit.province.is_water() && found;
            let status = if legal {
                OrderStatus::Valid
            } else {
                OrderStatus::Invalid
            };
            orders.set(i, Order { status, ..o });
        }
        i = i + 1;
    }
}

/// The checks of an order phase let pass only orders that can be carried
/// out: a move its unit makes in one step, or (an army) along waters where
/// fleets were ordered to convoy it; a support by a unit that can reach the
/// province it supports into, of an order that was not refused; a convoy by
/// a fleet on water, of a move that passed. A move its unit makes in one
/// step is never refused.
pub proof fn law_checked_orders(os: Seq<Order>, i: int)
    requires
        0 <= i < os.len(),
        is_pending(os[i]),
    ensures
        os[i].kind is Move && moves_checked(os)[i].status == OrderStatus::Valid ==> spec_can_move(
            os[i].unit,
            os[i].kind->Move_0.dest,
        ) || (os[i].unit.kind is Army && exists|marks: Seq<bool>|
            marks.len() == PROVINCE_COUNT && (forall|w: int|
                0 <= w < PROVINCE_COUNT && #[trigger] marks[w] ==> exists|j: int|
                    0 <= j < os.len() && !spec_is_assumed(os[j]) && os[j].status == OrderStatus::Unresolved
                        && os[j].kind is Convoy && #[trigger] spec_matching_target(os[j], os[i])
                        && os[j].unit.province.index() == w) && spec_reachable_by_sea(
                os[i].unit.province,
                os[i].kind->Move_0.dest,
                marks,
            )),
        os[i].kind is Move && spec_can_move(os[i].unit, os[i].kind->Move_0.dest) ==> moves_checked(os)[i].status
            == OrderStatus::Valid,
        os[i].kind is Support && supports_checked(moves_checked(os))[i].status == OrderStatus::Valid
            ==> spec_can_reach_area(
            os[i].unit,
            match os[i].kind->Support_0.target_dest {
                Some(d) => d,
                None => os[i].kind->Support_0.target.province,
            },
        ) && exists|j: int|
            0 <= j < os.len() && !spec_is_assumed(moves_checked(os)[j]) && moves_checked(os)[j].status
                != OrderStatus::Invalid && #[trigger] spec_matching_target(os[i], moves_checked(os)[j]),
        os[i].kind is Convoy && convoys_checked(supports_checked(moves_checked(os)))[i].status
            == OrderStatus::Valid ==> spec_terrain(os[i].unit.province.index()) == Terrain::Water && exists|j: int|
            0 <= j < os.len() && !spec_is_assumed(supports_checked(moves_checked(os))[j])
                && supports_checked(moves_checked(os))[j].status == OrderStatus::Valid && supports_checked(
                moves_checked(os),
            )[j].kind is Move && #[trigger] spec_matching_target(os[i], supports_checked(moves_checked(os))[j]),
{
    let o = os[i];
    if o.kind is Move && moves_checked(os)[i].status == OrderStatus::Valid && !spec_can_move(
        o.unit,
        o.kind->Move_0.dest,
    ) {
        let marks = convoy_marks(os, o);
        assert forall|w: int| 0 <= w < PROVINCE_COUNT && #[trigger] marks[w] implies exists|j: int|
            0 <= j < os.len() && !spec_is_assumed(os[j]) && os[j].status == OrderStatus::Unresolved
                && os[j].kind is Convoy && #[trigger] spec_matching_target(os[j], os[i])
                && os[j].unit.province.index() == w by {
            let j = choose|j: int|
                0 <= j < os.len() && #[trigger] is_convoy_candidate(os[j], o) && os[j].unit.province.index() == w;
        }
        assert(move_is_legal(os, o));
        assert(o.unit.kind is Army);
        assert(marks.len() == PROVINCE_COUNT);
        assert(spec_reachable_by_sea(o.unit.province, o.kind->Move_0.dest, marks));
    }
    if o.kind is Support && supports_checked(moves_checked(os))[i].status == OrderStatus::Valid {
        assert(moves_checked(os)[i] == o);
    }
    if o.kind is Convoy && convoys_checked(supports_checked(moves_checked(os)))[i].status == OrderStatus::Valid {
        assert(moves_checked(os)[i] == o);
        assert(supports_checked(moves_checked(os))[i] == o);
    }
}

} // verus!
