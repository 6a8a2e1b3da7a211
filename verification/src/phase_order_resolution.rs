use vstd::prelude::*;
use crate::map::can_unit_move_to;
use crate::map::is_adjacent;
use crate::map::is_reachable_by_sea;
use crate::map::spec_can_move;
use crate::map::spec_reachable_by_sea;
use crate::order::Order;
use crate::order::OrderKind;
use crate::order::OrderStatus;
use crate::order::spec_is_assumed;
use crate::order::spec_matching_target;
use crate::phase::Phase;
use crate::phase::PhaseContext;
use crate::province::Province;
use crate::province::PROVINCE_COUNT;
use crate::province::lemma_index_injective;
use crate::unit::Unit;
use crate::unit::same_piece;
use crate::province::spec_area;
use crate::adjacency::spec_area_adj;
use crate::validation::check_move;
use crate::validation::convoy_is_legal;
use crate::validation::copy_orders;
use crate::validation::has_support_target;
use crate::validation::is_pending;
use crate::validation::move_is_legal;
use crate::validation::support_reach;
use crate::validation::validate_convoy_orders;
use crate::validation::with_status;

verus! {

/// What the check of moves makes of `o`: a pending move that its unit can
/// make in one step is valid; a pending army move otherwise is valid exactly
/// when the ordered convoys carry it; a fleet move that is not one step stays unresolved.
pub open spec fn move_outcome(os: Seq<Order>, o: Order) -> Order {
    if is_pending(o) && o.kind is Move && (spec_can_move(o.unit, o.kind->Move_0.dest)
        || o.unit.kind is Army) {
        with_status(
            o,
            if move_is_legal(os, o) {
                OrderStatus::Valid
            } else {
                OrderStatus::Invalid
            },
        )
    } else {
        o
    }
}

/// Whether the support `o` has a target that is not known to be invalid and
/// its unit can move in one step to where the support goes.
pub open spec fn support_is_sound(os: Seq<Order>, o: Order) -> bool {
    match o.kind {
        OrderKind::Support(s) => has_support_target(os, o) && spec_can_move(o.unit, support_reach(s)),
        _ => false,
    }
}

/// What the check of supports makes of `o`.
pub open spec fn support_outcome(os: Seq<Order>, o: Order) -> Order {
    if is_pending(o) && o.kind is Support {
        with_status(
            o,
            if support_is_sound(os, o) {
                OrderStatus::Valid
            } else {
                OrderStatus::Invalid
            },
        )
    } else {
        o
    }
}

/// What the check of convoys makes of `o`.
pub open spec fn convoy_outcome(os: Seq<Order>, o: Order) -> Order {
    if is_pending(o) && o.kind is Convoy {
        with_status(
            o,
            if convoy_is_legal(os, o) {
                OrderStatus::Valid
            } else {
                OrderStatus::Invalid
            },
        )
    } else {
        o
    }
}

/// Whether `m` is a valid move, of another power, onto the province of `s`.
pub open spec fn is_attack_on(m: Order, s: Order) -> bool {
    &&& !spec_is_assumed(m)
    &&& m.status == OrderStatus::Valid
    &&& m.kind is Move
    &&& m.power != s.power
    &&& m.kind->Move_0.dest == s.unit.province
}

/// Number of the attacks on `s` among the orders.
pub open spec fn attack_count(os: Seq<Order>, s: Order) -> nat
    decreases os.len(),
{
    if os.len() == 0 {
        0
    } else {
        attack_count(os.drop_last(), s) + if is_attack_on(os.last(), s) {
            1nat
        } else {
            0nat
        }
    }
}

/// The first attack on `s` among the orders.
pub open spec fn first_attack(os: Seq<Order>, s: Order) -> Order {
    os[choose|j: int|
        0 <= j < os.len() && is_attack_on(os[j], s) && forall|k: int|
            0 <= k < j ==> !is_attack_on(#[trigger] os[k], s)]
}

/// Whether `c` is a valid convoy, given by the owner of its fleet, that carries the move `a`.
pub open spec fn is_valid_convoy_for(c: Order, a: Order) -> bool {
    &&& !spec_is_assumed(c)
    &&& c.status == OrderStatus::Valid
    &&& c.kind is Convoy
    &&& spec_matching_target(c, a)
}

/// The waters of the valid convoys that carry `a`, leaving out the province at `skip` when given.
pub open spec fn convoy_waters(os: Seq<Order>, a: Order, skip: Option<int>) -> Seq<bool> {
    Seq::new(
        PROVINCE_COUNT as nat,
        |w: int|
            (skip is None || w != skip->0) && exists|j: int|
                0 <= j < os.len() && #[trigger] is_valid_convoy_for(os[j], a)
                    && os[j].unit.province.index() == w,
    )
}

/// Whether the valid support `s` is cut.  Attacks from two places cut it.
/// A single attack cuts a support to hold; a support to move is not cut by an
/// attack from the province it supports a move into, is cut by an attack
/// from a neighbouring province, is not cut by a convoyed attack whose convoy
/// cannot reach it, and otherwise is cut unless the supported move goes
/// against a fleet of that convoy without which the convoy no longer reaches it.
pub open spec fn support_is_cut(os: Seq<Order>, s: Order) -> bool {
    let n = attack_count(os, s);
    if n == 0 {
        false
    } else if n > 1 {
        true
    } else {
        let a = first_attack(os, s);
        match s.kind->Support_0.target_dest {
            None => true,
            Some(d) => if d == a.unit.province {
                false
            } else if spec_area_adj(
                spec_area(a.unit.province.index()),
                spec_area(s.unit.province.index()),
            ) {
                true
            } else if !spec_reachable_by_sea(
                a.unit.province,
                s.unit.province,
                convoy_waters(os, a, None),
            ) {
                false
            } else if !exists|j: int|
                0 <= j < os.len() && #[trigger] is_valid_convoy_for(os[j], a)
                    && os[j].unit.province == d {
                true
            } else {
                spec_reachable_by_sea(
                    a.unit.province,
                    s.unit.province,
                    convoy_waters(os, a, Some(d.index())),
                )
            },
        }
    }
}

/// What the cutting of supports makes of `o`.
pub open spec fn cut_outcome(os: Seq<Order>, o: Order) -> Order {
    if !spec_is_assumed(o) && o.status == OrderStatus::Valid && o.kind is Support
        && support_is_cut(os, o) {
        with_status(o, OrderStatus::Cut)
    } else {
        o
    }
}

/// `os` with `f` applied to each order, `f` reading the whole of `os`.
pub open spec fn each_order(os: Seq<Order>, f: spec_fn(Seq<Order>, Order) -> Order) -> Seq<Order> {
    Seq::new(os.len(), |i: int| f(os, os[i]))
}

/// The orders after the checks of moves, supports and convoys and the cutting of supports.
pub open spec fn order_phase_outcome(os: Seq<Order>) -> Seq<Order> {
    let moved = each_order(os, |s: Seq<Order>, o: Order| move_outcome(s, o));
    let supported = each_order(moved, |s: Seq<Order>, o: Order| support_outcome(s, o));
    let convoyed = each_order(supported, |s: Seq<Order>, o: Order| convoy_outcome(s, o));
    each_order(convoyed, |s: Seq<Order>, o: Order| cut_outcome(s, o))
}

/// Whether `o` is a successful move, given by the owner of its unit, of the unit `u`.
pub open spec fn moves_unit(o: Order, u: Unit) -> bool {
    !spec_is_assumed(o) && o.status == OrderStatus::Success && o.kind is Move && same_piece(o.unit, u)
}

/// The position of the first order, from `k` on, that moves the unit `u`
/// successfully (the number of orders when there is none).
pub open spec fn first_move_of_from(os: Seq<Order>, u: Unit, k: int) -> int
    decreases os.len() - k,
{
    if k >= os.len() {
        os.len() as int
    } else if moves_unit(os[k], u) {
        k
    } else {
        first_move_of_from(os, u, k + 1)
    }
}

/// The unit `u` once the results of the orders are written back: at the
/// destination of its first successful move, else where it stood.
pub open spec fn written_back(u: Unit, os: Seq<Order>) -> Unit {
    let k = first_move_of_from(os, u, 0);
    if k < os.len() {
        Unit { province: os[k].kind->Move_0.dest, ..u }
    } else {
        u
    }
}

/// Skipping orders that move `u` nowhere does not change its first move.
proof fn lemma_first_move_skip(os: Seq<Order>, u: Unit, k: int)
    requires
        0 <= k <= os.len(),
        forall|m: int| 0 <= m < k ==> !#[trigger] moves_unit(os[m], u),
    ensures
        first_move_of_from(os, u, 0) == first_move_of_from(os, u, k),
    decreases k,
{
    if k > 0 {
        lemma_first_move_skip(os, u, k - 1);
    }
}

/// Writing the results back keeps each unit's power, kind and mark, moves
/// it to the destination of one of its successful moves when it has one,
/// and leaves it where it stood otherwise.
pub proof fn law_written_back(u: Unit, os: Seq<Order>)
    ensures
        written_back(u, os).power == u.power,
        written_back(u, os).kind == u.kind,
        written_back(u, os).dislodged_from == u.dislodged_from,
        (forall|k: int| 0 <= k < os.len() ==> !#[trigger] moves_unit(os[k], u)) ==> written_back(u, os) == u,
        (exists|k: int| 0 <= k < os.len() && #[trigger] moves_unit(os[k], u)) ==> exists|k: int|
            0 <= k < os.len() && #[trigger] moves_unit(os[k], u) && written_back(u, os).province
                == os[k].kind->Move_0.dest,
{
    lemma_first_move_found(os, u, 0);
}

/// The first successful move of `u` from position `k` on is one, when there is one.
proof fn lemma_first_move_found(os: Seq<Order>, u: Unit, k: int)
    requires
        0 <= k,
    ensures
        k <= os.len() ==> k <= first_move_of_from(os, u, k) <= os.len(),
        first_move_of_from(os, u, k) < os.len() ==> moves_unit(os[first_move_of_from(os, u, k)], u),
        (exists|j: int| k <= j < os.len() && #[trigger] moves_unit(os[j], u)) ==> first_move_of_from(os, u, k)
            < os.len(),
    decreases os.len() - k,
{
    if k < os.len() && !moves_unit(os[k], u) {
        lemma_first_move_found(os, u, k + 1);
        if exists|j: int| k <= j < os.len() && #[trigger] moves_unit(os[j], u) {
            let j = choose|j: int| k <= j < os.len() && #[trigger] moves_unit(os[j], u);
            assert(j != k);
        }
    }
}

/// Resolves the orders of an order phase as far as the checks of moves,
/// supports and convoys and the cutting of supports go, and writes the
/// results back to the units of the phase; the context is only read.
/// The moves themselves are not decided at this stage: no order becomes
/// successful here, so only a move that was already successful moves its unit.
pub fn resolve_orders_for_order_phase(current_phase: &mut Phase, _context: &mut PhaseContext)
    ensures
        final(current_phase).data.orders@ == order_phase_outcome(old(current_phase).data.orders@),
        final(current_phase).data.units@.len() == old(current_phase).data.units@.len(),
        forall|j: int|
            0 <= j < old(current_phase).data.units@.len() ==> #[trigger] final(current_phase).data.units@[j]
                == written_back(old(current_phase).data.units@[j], final(current_phase).data.orders@),
        final(current_phase).data.territories@ == old(current_phase).data.territories@,
        final(current_phase).data.resolved_units@ == old(current_phase).data.resolved_units@,
        final(current_phase).data.standoff_province_codes@ == old(current_phase).data.standoff_province_codes@,
        final(current_phase).year == old(current_phase).year,
        final(current_phase).id == old(current_phase).id,
        final(current_phase).kind == old(current_phase).kind,
        *final(_context) == *old(_context),
        forall|i: int|
            0 <= i < old(current_phase).data.orders@.len() && #[trigger] final(current_phase).data.orders@[i].status
                == OrderStatus::Success ==> old(current_phase).data.orders@[i].status == OrderStatus::Success,
{
    let ghost os = current_phase.data.orders@;
    validate_move_orders(&mut current_phase.data.orders);
    let ghost moved = current_phase.data.orders@;
    assert(moved =~= each_order(os, |s: Seq<Order>, o: Order| move_outcome(s, o)));
    validate_support_orders(&mut current_phase.data.orders);
    let ghost supported = current_phase.data.orders@;
    assert(supported =~= each_order(moved, |s: Seq<Order>, o: Order| support_outcome(s, o)));
    validate_convoy_orders(&mut current_phase.data.orders);
    let ghost convoyed = current_phase.data.orders@;
    assert(convoyed =~= each_order(supported, |s: Seq<Order>, o: Order| convoy_outcome(s, o)));
    handle_cutting_support_orders(&mut current_phase.data.orders);
    assert(current_phase.data.orders@ =~= each_order(
        convoyed,
        |s: Seq<Order>, o: Order| cut_outcome(s, o),
    ));
    handle_disruption_convoy_order(&mut current_phase.data.orders);
    handle_switch_orders(&mut current_phase.data.orders);
    handle_remaining_move_orders(&mut current_phase.data.orders);
    succeed_remaining_orders(&mut current_phase.data.orders);
    write_back_units(current_phase);
}

/// Writes the results of the orders back to the units of the phase: a unit
/// that moved successfully now stands at its destination.
fn write_back_units(current_phase: &mut Phase)
    ensures
        final(current_phase).data.orders@ == old(current_phase).data.orders@,
        final(current_phase).data.units@.len() == old(current_phase).data.units@.len(),
        forall|j: int|
            0 <= j < old(current_phase).data.units@.len() ==> #[trigger] final(current_phase).data.units@[j]
                == written_back(old(current_phase).data.units@[j], old(current_phase).data.orders@),
        final(current_phase).data.territories@ == old(current_phase).data.territories@,
        final(current_phase).data.resolved_units@ == old(current_phase).data.resolved_units@,
        final(current_phase).data.standoff_province_codes@ == old(current_phase).data.standoff_province_codes@,
        final(current_phase).year == old(current_phase).year,
        final(current_phase).id == old(current_phase).id,
        final(current_phase).kind == old(current_phase).kind,
{
    let ghost os = current_phase.data.orders@;
    let n = current_phase.data.orders.len();
    let mut j: usize = 0;
    while j < current_phase.data.units.len()
        invariant
            current_phase.data.orders@ == os,
            os == old(current_phase).data.orders@,
            n == os.len(),
            current_phase.data.units@.len() == old(current_phase).data.units@.len(),
            j <= current_phase.data.units@.len(),
            forall|m: int|
                0 <= m < j ==> #[trigger] current_phase.data.units@[m] == written_back(
                    old(current_phase).data.units@[m],
                    os,
                ),
            forall|m: int|
                j <= m < current_phase.data.units@.len() ==> current_phase.data.units@[m]
                    == old(current_phase).data.units@[m],
            current_phase.data.territories@ == old(current_phase).data.territories@,
            current_phase.data.resolved_units@ == old(current_phase).data.resolved_units@,
            current_phase.data.standoff_province_codes@ == old(current_phase).data.standoff_province_codes@,
            current_phase.year == old(current_phase).year,
            current_phase.id == old(current_phase).id,
            current_phase.kind == old(current_phase).kind,
        decreases current_phase.data.units@.len() - j,
    {
        let u = current_phase.data.units[j];
        let mut placed = u;
        let mut found = false;
        let mut k: usize = 0;
        while k < n && !found
            invariant
                current_phase.data.orders@ == os,
                n == os.len(),
                k <= n,
                !found ==> placed == u,
                found ==> k < n && first_move_of_from(os, u, 0) == k && placed == (Unit {
                    province: os[k as int].kind->Move_0.dest,
                    ..u
                }),
                forall|m: int| 0 <= m < k ==> !#[trigger] moves_unit(os[m], u),
            decreases n - k + if found { 0int } else { 1int },
        {
            let o = current_phase.data.orders[k];
            let mut hit = false;
            if !o.is_assumed() && o.is_success() && o.unit.power == u.power && o.unit.province
                == u.province && o.unit.kind == u.kind {
                if let OrderKind::Move(m) = o.kind {
                    proof {
                        lemma_first_move_skip(os, u, k as int);
                    }
                    placed = Unit { province: m.dest, ..u };
                    hit = true;
                }
            }
            if hit {
                found = true;
            } else {
                k = k + 1;
            }
        }
        proof {
            if !found {
                lemma_first_move_skip(os, u, n as int);
            }
        }
        current_phase.data.units.set(j, placed);
        j = j + 1;
    }
}

/// Checks the pending moves (see `move_outcome`).
fn validate_move_orders(orders: &mut Vec<Order>)
    ensures
        final(orders)@.len() == old(orders)@.len(),
        forall|i: int|
            0 <= i < old(orders)@.len() ==> #[trigger] final(orders)@[i] == move_outcome(
                old(orders)@,
                old(orders)@[i],
            ),
{
    let snapshot = copy_orders(orders);
    let mut i: usize = 0;
    while i < orders.len()
        invariant
            snapshot@ == old(orders)@,
            orders@.len() == old(orders)@.len(),
            i <= orders@.len(),
            forall|k: int|
                0 <= k < i ==> #[trigger] orders@[k] == move_outcome(old(orders)@, old(orders)@[k]),
            forall|k: int| i <= k < orders@.len() ==> orders@[k] == old(orders)@[k],
        decreases orders@.len() - i,
    {
        let o = orders[i];
        if !o.is_assumed() && o.is_unresolved() {
            if let OrderKind::Move(m) = o.kind {
                if can_unit_move_to(&o.unit, m.dest) {
                    orders.set(i, Order { status: OrderStatus::Valid, ..o });
                } else if o.unit.is_army() {
                    let legal = check_move(&snapshot, &o);
                    let status = if legal {
                        OrderStatus::Valid
                    } else {
                        OrderStatus::Invalid
                    };
                    orders.set(i, Order { status, ..o });
                }
            }
        }
        i = i + 1;
    }
}

/// Checks the pending supports (see `support_outcome`).
fn validate_support_orders(orders: &mut Vec<Order>)
    ensures
        final(orders)@.len() == old(orders)@.len(),
        forall|i: int|
            0 <= i < old(orders)@.len() ==> #[trigger] final(orders)@[i] == support_outcome(
                old(orders)@,
                old(orders)@[i],
            ),
{
    let snapshot = copy_orders(orders);
    let mut i: usize = 0;
    while i < orders.len()
        invariant
            snapshot@ == old(orders)@,
            orders@.len() == old(orders)@.len(),
            i <= orders@.len(),
            forall|k: int|
                0 <= k < i ==> #[trigger] orders@[k] == support_outcome(
                    old(orders)@,
                    old(orders)@[k],
                ),
            forall|k: int| i <= k < orders@.len() ==> orders@[k] == old(orders)@[k],
        decreases orders@.len() - i,
    {
        let o = orders[i];
        if !o.is_assumed() && o.is_unresolved() {
            if let OrderKind::Support(s) = o.kind {
                let mut found = false;
                let mut j: usize = 0;
                while j < snapshot.len()
                    invariant
                        snapshot@ == old(orders)@,
                        j <= snapshot@.len(),
                        o == old(orders)@[i as int],
                        found == exists|k: int|
                            0 <= k < j && !spec_is_assumed(snapshot@[k]) && snapshot@[k].status
                                != OrderStatus::Invalid && #[trigger] spec_matching_target(
                                o,
                                snapshot@[k],
                            ),
                    decreases snapshot@.len() - j,
                {
                    let t = &snapshot[j];
                    if !found && !t.is_assumed() && !t.is_invalid() && o.is_matching_target(t) {
                        found = true;
                    }
                    j = j + 1;
                }
                let reach = match s.target_dest {
                    Some(d) => d,
                    None => s.target.province,
                };
                let legal = found && can_unit_move_to(&o.unit, reach);
                let status = if legal {
                    OrderStatus::Valid
                } else {
                    OrderStatus::Invalid
                };
                orders.set(i, Order { status, ..o });
            }
        }
        i = i + 1;
    }
}

/// The waters of the valid convoys of `os` that carry `a`, marked by
/// position, leaving out the province at `skip` when given.
fn valid_convoy_marks(os: &Vec<Order>, a: &Order, skip: Option<Province>) -> (r: Vec<bool>)
    ensures
        r@ == convoy_waters(
            os@,
            *a,
            match skip {
                Some(p) => Some(p.index()),
                None => None,
            },
        ),
{
    let ghost sk: Option<int> = match skip {
        Some(p) => Some(p.index()),
        None => None,
    };
    let mut r: Vec<bool> = Vec::new();
    let mut w: u8 = 0;
    while w < PROVINCE_COUNT
        invariant
            w <= PROVINCE_COUNT,
            r@.len() == w,
            forall|k: int| 0 <= k < w ==> !r@[k],
        decreases PROVINCE_COUNT - w,
    {
        r.push(false);
        w = w + 1;
    }
    let mut j: usize = 0;
    while j < os.len()
        invariant
            j <= os@.len(),
            r@.len() == PROVINCE_COUNT,
            sk == match skip {
                Some(p) => Some(p.index()),
                None => None::<int>,
            },
            forall|w: int|
                0 <= w < PROVINCE_COUNT ==> r@[w] == ((sk is None || w != sk->0) && exists|k: int|
                    0 <= k < j && #[trigger] is_valid_convoy_for(os@[k], *a)
                        && os@[k].unit.province.index() == w),
        decreases os@.len() - j,
    {
        let c = &os[j];
        let candidate = !c.is_assumed() && c.is_valid() && matches!(c.kind, OrderKind::Convoy(_))
            && c.is_matching_target(a);
        let skipped = match skip {
            Some(p) => c.unit.province == p,
            None => false,
        };
        if candidate && !skipped {
            let w = c.unit.province.id();
            r.set(w as usize, true);
        }
        proof {
            if candidate {
                assert(is_valid_convoy_for(os@[j as int], *a));
            }
            if skip is Some {
                lemma_index_injective(c.unit.province, skip->0);
            }
        }
        j = j + 1;
    }
    assert(r@ =~= convoy_waters(os@, *a, sk));
    r
}

/// Whether the valid support `s` is cut by the orders `os` (see `support_is_cut`).
fn check_support_cut(os: &Vec<Order>, s: &Order) -> (r: bool)
    requires
        s.kind is Support,
    ensures
        r == support_is_cut(os@, *s),
{
    let mut count: usize = 0;
    let mut first: usize = 0;
    let mut j: usize = 0;
    while j < os.len()
        invariant
            j <= os@.len(),
            count <= 2,
            count == if attack_count(os@.take(j as int), *s) < 2 {
                attack_count(os@.take(j as int), *s)
            } else {
                2
            },
            count > 0 ==> first < j && is_attack_on(os@[first as int], *s) && forall|k: int|
                0 <= k < first ==> !is_attack_on(#[trigger] os@[k], *s),
            count == 0 ==> forall|k: int| 0 <= k < j ==> !is_attack_on(#[trigger] os@[k], *s),
        decreases os@.len() - j,
    {
        assert(os@.take(j + 1).drop_last() =~= os@.take(j as int));
        let m = &os[j];
        let attack = !m.is_assumed() && m.is_valid() && m.power != s.power && match m.kind {
            OrderKind::Move(mv) => mv.dest == s.unit.province,
            _ => false,
        };
        if attack {
            if count == 0 {
                first = j;
            }
            if count < 2 {
                count = count + 1;
            }
        }
        j = j + 1;
    }
    assert(os@.take(os@.len() as int) =~= os@);
    if count == 0 {
        return false;
    }
    if count > 1 {
        return true;
    }
    let a = os[first];
    proof {
        let c = choose|j: int|
            0 <= j < os@.len() && is_attack_on(os@[j], *s) && forall|k: int|
                0 <= k < j ==> !is_attack_on(#[trigger] os@[k], *s);
        assert(c == first as int) by {
            if c < first {
            } else if c > first {
            }
        }
    }
    let target_dest = match s.kind {
        OrderKind::Support(sp) => sp.target_dest,
        _ => None,
    };
    let d = match target_dest {
        None => {
            return true;
        },
        Some(d) => d,
    };
    if d == a.unit.province {
        return false;
    }
    if is_adjacent(a.unit.province, s.unit.province) {
        return true;
    }
    let marks = valid_convoy_marks(os, &a, None);
    if !is_reachable_by_sea(a.unit.province, s.unit.province, &marks) {
        return false;
    }
    let mut found: Option<usize> = None;
    let mut k: usize = 0;
    while k < os.len()
        invariant
            k <= os@.len(),
            match found {
                Some(x) => x < os@.len() && is_valid_convoy_for(os@[x as int], a)
                    && os@[x as int].unit.province == d,
                None => forall|l: int|
                    0 <= l < k ==> !(#[trigger] is_valid_convoy_for(os@[l], a)
                        && os@[l].unit.province == d),
            },
        decreases os@.len() - k,
    {
        if found.is_none() {
            let c = &os[k];
            if !c.is_assumed() && c.is_valid() && matches!(c.kind, OrderKind::Convoy(_))
                && c.is_matching_target(&a) && c.unit.province == d {
                found = Some(k);
            }
        }
        k = k + 1;
    }
    let x = match found {
        None => {
            return true;
        },
        Some(x) => x,
    };
    let c = os[x];
    if let OrderKind::Convoy(cv) = c.kind {
        if cv.target_dest != s.unit.province {
            return true;
        }
    }
    let without = valid_convoy_marks(os, &a, Some(d));
    is_reachable_by_sea(a.unit.province, s.unit.province, &without)
}

/// Cuts the valid supports (see `support_is_cut`).
fn handle_cutting_support_orders(orders: &mut Vec<Order>)
    ensures
        final(orders)@.len() == old(orders)@.len(),
        forall|i: int|
            0 <= i < old(orders)@.len() ==> #[trigger] final(orders)@[i] == cut_outcome(
                old(orders)@,
                old(orders)@[i],
            ),
{
    let snapshot = copy_orders(orders);
    let mut any_move = false;
    let mut j: usize = 0;
    while j < snapshot.len()
        invariant
            j <= snapshot@.len(),
            !any_move ==> forall|k: int|
                0 <= k < j ==> !(!spec_is_assumed(#[trigger] snapshot@[k]) && snapshot@[k].status
                    == OrderStatus::Valid && snapshot@[k].kind is Move),
        decreases snapshot@.len() - j,
    {
        let m = &snapshot[j];
        if !m.is_assumed() && m.is_valid() && matches!(m.kind, OrderKind::Move(_)) {
            any_move = true;
        }
        j = j + 1;
    }
    if !any_move {
        proof {
            assert forall|i: int| 0 <= i < old(orders)@.len() implies #[trigger] orders@[i]
                == cut_outcome(old(orders)@, old(orders)@[i]) by {
                lemma_no_attack(old(orders)@, old(orders)@[i]);
            }
        }
        return;
    }
    let mut i: usize = 0;
    while i < orders.len()
        invariant
            snapshot@ == old(orders)@,
            orders@.len() == old(orders)@.len(),
            i <= orders@.len(),
            forall|k: int|
                0 <= k < i ==> #[trigger] orders@[k] == cut_outcome(old(orders)@, old(orders)@[k]),
            forall|k: int| i <= k < orders@.len() ==> orders@[k] == old(orders)@[k],
        decreases orders@.len() - i,
    {
        let o = orders[i];
        if !o.is_assumed() && o.is_valid() && matches!(o.kind, OrderKind::Support(_)) {
            if check_support_cut(&snapshot, &o) {
                orders.set(i, Order { status: OrderStatus::Cut, ..o });
            }
        }
        i = i + 1;
    }
}

/// Without a valid move among the orders, nothing attacks a support.
proof fn lemma_no_attack(os: Seq<Order>, s: Order)
    requires
        forall|k: int|
            0 <= k < os.len() ==> !(!spec_is_assumed(#[trigger] os[k]) && os[k].status
                == OrderStatus::Valid && os[k].kind is Move),
    ensures
        attack_count(os, s) == 0,
    decreases os.len(),
{
    if os.len() > 0 {
        assert forall|k: int| 0 <= k < os.drop_last().len() implies !(!spec_is_assumed(
            #[trigger] os.drop_last()[k],
        ) && os.drop_last()[k].status == OrderStatus::Valid && os.drop_last()[k].kind is Move) by {
            assert(os.drop_last()[k] == os[k]);
        }
        lemma_no_attack(os.drop_last(), s);
        assert(!is_attack_on(os[os.len() - 1], s));
    }
}

/// Settles the convoys that an attack on them disrupts (not decided at this stage).
fn handle_disruption_convoy_order(orders: &mut Vec<Order>)
    ensures
        final(orders)@ == old(orders)@,
{
}

/// Settles the moves of two units into each other's place (not decided at this stage).
fn handle_switch_orders(orders: &mut Vec<Order>)
    ensures
        final(orders)@ == old(orders)@,
{
}

/// Settles the remaining moves (not decided at this stage).
fn handle_remaining_move_orders(orders: &mut Vec<Order>)
    ensures
        final(orders)@ == old(orders)@,
{
}

/// Marks the orders still open as successful (not decided at this stage).
fn succeed_remaining_orders(orders: &mut Vec<Order>)
    ensures
        final(orders)@ == old(orders)@,
{
}

} // verus!
