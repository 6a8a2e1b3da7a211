use vstd::prelude::*;
use crate::map::is_reachable_by_sea;
use crate::map::spec_reachable_by_sea;
use crate::order::Order;
use crate::order::OrderKind;
use crate::order::OrderStatus;
use crate::order::spec_is_assumed;
use crate::province::Province;
use crate::province::PROVINCE_COUNT;
use crate::province::spec_area;
use crate::province::spec_code;
use crate::resolution::Action;
use crate::resolution::Board;
use crate::resolution::Decisions;
use crate::resolution::build_board;
use crate::resolution::head_to_head;
use crate::resolution::new_decisions;
use crate::resolution::occupant;
use crate::resolution::resolve;
use crate::resolution::spec_action;
use crate::resolution::given_count;
use crate::resolution::spec_head_to_head;
use crate::resolution::spec_occupant;
use crate::resolution::spec_convoyed;
use crate::resolution::unopposed;
use crate::resolution::sound;
use crate::resolution::calm;
use crate::resolution::plain_bounce;
use crate::resolution::plain_swap;
use crate::resolution::plain_repulse;
use crate::resolution::plain_failure;
use crate::resolution::no_supports;
use crate::resolution::outside;
use crate::settlement::settle;
use crate::settlement::settled;
use crate::settlement::lemma_settled_agrees;
use crate::settlement::lemma_settled_convoy;
use crate::resolution::spec_target;
use crate::resolution::DecisionState;
use crate::validation::convoy_is_legal;
use crate::validation::convoys_checked;
use crate::validation::is_pending;
use crate::validation::move_is_legal;
use crate::validation::moves_checked;
use crate::validation::support_is_legal;
use crate::validation::supports_checked;
use crate::validation::validate_convoy_orders;
use crate::validation::validate_move_orders;
use crate::validation::validate_support_orders;

verus! {

/// The statuses that an order can end with, given its action.
pub open spec fn final_status_allowed(before: Order, after: Order) -> bool {
    match spec_action(before) {
        Action::Assumed => after.status == before.status,
        Action::Hold => after.status == OrderStatus::Dislodged || (before.status
            == OrderStatus::Invalid && after.status == OrderStatus::Invalid) || (before.status
            != OrderStatus::Invalid && after.status == OrderStatus::Success),
        Action::Move => after.status == OrderStatus::Success || after.status == OrderStatus::Failure
            || after.status == OrderStatus::Unreachable || after.status == OrderStatus::Dislodged,
        Action::Support => after.status == OrderStatus::Valid || after.status == OrderStatus::Cut
            || after.status == OrderStatus::Dislodged,
        Action::Convoy => after.status == OrderStatus::Valid || after.status
            == OrderStatus::Dislodged,
    }
}

/// The statuses that the resolution of an order phase can leave on an order
/// given by the owner of its unit: a move succeeds, fails, finds no route,
/// is dislodged or was invalid; a support is given, cut, dislodged or
/// invalid; a convoy is given, dislodged or invalid; any other order
/// succeeds, is dislodged or was invalid.
pub open spec fn ends_settled(before: Order, after: Order) -> bool {
    let s = after.status;
    match before.kind {
        OrderKind::Move(_) => s == OrderStatus::Success || s == OrderStatus::Failure || s
            == OrderStatus::Unreachable || s == OrderStatus::Dislodged || s == OrderStatus::Invalid,
        OrderKind::Support(_) => s == OrderStatus::Valid || s == OrderStatus::Cut || s
            == OrderStatus::Dislodged || s == OrderStatus::Invalid,
        OrderKind::Convoy(_) => s == OrderStatus::Valid || s == OrderStatus::Dislodged || s
            == OrderStatus::Invalid,
        _ => s == OrderStatus::Success || s == OrderStatus::Dislodged || s == OrderStatus::Invalid,
    }
}

/// Whether `after` is `before` with at most its status and its attacker's province changed.
pub open spec fn same_order(before: Order, after: Order) -> bool {
    &&& after.power == before.power
    &&& after.unit == before.unit
    &&& after.kind == before.kind
}

/// Whether the move `i` would enter its destination, judged on the decisions
/// `res`: with its given supports it must beat the strength that holds the
/// destination, where a unit of its own power that stays cannot be attacked.
pub(crate) open spec fn spec_would_win(b: &Board, res: Seq<bool>, i: int) -> bool {
    let n = b.len() as int;
    match spec_occupant(b, b.dest_area@[i] as int) {
        None => true,
        Some(o) => {
            let away = b.act@[o] == Action::Move && spec_head_to_head(b, i) != Some(o) && res[o];
            let hold: int = if b.act@[o] == Action::Move {
                if res[o] {
                    0
                } else {
                    1
                }
            } else {
                1 + given_count(b, res, o, None, n) as int
            };
            if away {
                true
            } else if b.orders@[o].unit.power == b.orders@[i].unit.power {
                false
            } else {
                1 + given_count(b, res, i, Some(b.orders@[o].unit.power), n) > hold
            }
        },
    }
}

/// The waters of the convoys for the move `k` that stayed in place, by position.
pub(crate) open spec fn held_waters(b: &Board, res: Seq<bool>, k: int) -> Seq<bool> {
    Seq::new(
        PROVINCE_COUNT as nat,
        |w: int|
            exists|c: int|
                0 <= c < b.len() && b.act@[c] == Action::Convoy && b.target@[c] == k && #[trigger] res[c]
                    && b.orders@[c].unit.province.index() == w,
    )
}

/// Whether `k` is a move, other than `i`, that succeeded into the province of `i`.
pub(crate) open spec fn enters_place_of(b: &Board, res: Seq<bool>, i: int, k: int) -> bool {
    k != i && b.act@[k] == Action::Move && b.dest_area@[k] == b.area@[i] && res[k]
}

/// The first successful move into the province of the unit of order `i`,
/// unless that unit itself moved away successfully.
pub(crate) open spec fn spec_dislodger(b: &Board, res: Seq<bool>, i: int) -> Option<int> {
    if b.act@[i] == Action::Move && res[i] {
        None
    } else if exists|k: int| 0 <= k < b.len() && #[trigger] enters_place_of(b, res, i, k) {
        Some(
            choose|k: int|
                0 <= k < b.len() && enters_place_of(b, res, i, k) && forall|j: int|
                    0 <= j < k ==> !#[trigger] enters_place_of(b, res, i, j),
        )
    } else {
        None
    }
}

/// Number of the supports of the order `i` that were given, leaving out those of `exclude`.
fn given_supports(b: &Board, d: &Decisions, i: usize, exclude: Option<crate::power::Power>) -> (r: u64)
    requires
        b.wf(),
        d.wf(b.len()),
    ensures
        r <= b.len(),
        r == given_count(b, d.res@, i as int, exclude, b.len() as int),
{
    let n = b.orders.len();
    let mut count: u64 = 0;
    let mut s: usize = 0;
    while s < n
        invariant
            b.wf(),
            d.wf(b.len()),
            n == b.len(),
            s <= n,
            count <= s,
            count == given_count(b, d.res@, i as int, exclude, s as int),
        decreases n - s,
    {
        if b.act[s] == Action::Support && b.target[s] == i && d.res[s] {
            let counted = match exclude {
                Some(p) => b.orders[s].unit.power != p,
                None => true,
            };
            if counted {
                count = count + 1;
            }
        }
        s = s + 1;
    }
    count
}

/// Whether the move `i` would have entered its destination, had it reached it,
/// judged on the final decisions.
fn would_win(b: &Board, d: &Decisions, i: usize) -> (r: bool)
    requires
        b.wf(),
        d.wf(b.len()),
        i < b.len(),
    ensures
        r == spec_would_win(b, d.res@, i as int),
{
    let h2h = head_to_head(b, i);
    let (att, hold) = match occupant(b, b.dest_area[i]) {
        None => (1 + given_supports(b, d, i, None), 0u64),
        Some(o) => {
            let away = b.act[o] == Action::Move && h2h != Some(o) && d.res[o];
            let hold: u64 = if b.act[o] == Action::Move {
                if d.res[o] {
                    0
                } else {
                    1
                }
            } else {
                1 + given_supports(b, d, o, None)
            };
            if away {
                (1 + given_supports(b, d, i, None), 0u64)
            } else if b.orders[o].unit.power == b.orders[i].unit.power {
                (0u64, hold)
            } else {
                (1 + given_supports(b, d, i, Some(b.orders[o].unit.power)), hold)
            }
        },
    };
    att > hold
}

/// Whether the convoys that stayed in place carry the move `k` to its destination.
fn convoy_path_held(b: &Board, d: &Decisions, k: usize) -> (r: bool)
    requires
        b.wf(),
        d.wf(b.len()),
        k < b.len(),
    ensures
        r == match b.orders@[k as int].kind {
            OrderKind::Move(m) => spec_reachable_by_sea(
                b.orders@[k as int].unit.province,
                m.dest,
                held_waters(b, d.res@, k as int),
            ),
            _ => false,
        },
{
    let n = b.orders.len();
    let mut marks: Vec<bool> = Vec::new();
    let mut w: u8 = 0;
    while w < PROVINCE_COUNT
        invariant
            w <= PROVINCE_COUNT,
            marks@.len() == w,
            forall|x: int| 0 <= x < w ==> !marks@[x],
        decreases PROVINCE_COUNT - w,
    {
        marks.push(false);
        w = w + 1;
    }
    let mut c: usize = 0;
    while c < n
        invariant
            b.wf(),
            d.wf(b.len()),
            n == b.len(),
            c <= n,
            k < n,
            marks@.len() == PROVINCE_COUNT,
            forall|x: int|
                0 <= x < PROVINCE_COUNT ==> marks@[x] == exists|y: int|
                    0 <= y < c && b.act@[y] == Action::Convoy && b.target@[y] == k && #[trigger] d.res@[y]
                        && b.orders@[y].unit.province.index() == x,
        decreases n - c,
    {
        if b.act[c] == Action::Convoy && b.target[c] == k && d.res[c] {
            let at = b.orders[c].unit.province.id();
            marks.set(at as usize, true);
        }
        c = c + 1;
    }
    assert(marks@ =~= held_waters(b, d.res@, k as int));
    match b.orders[k].kind {
        OrderKind::Move(m) => is_reachable_by_sea(b.orders[k].unit.province, m.dest, &marks),
        _ => false,
    }
}

/// The first successful move into the province of the unit of order `i`, unless that unit itself moved away.
fn dislodger(b: &Board, d: &Decisions, i: usize) -> (r: Option<usize>)
    requires
        b.wf(),
        d.wf(b.len()),
        i < b.len(),
    ensures
        r is Some ==> r->0 < b.len() && r->0 != i && b.act@[r->0 as int] == Action::Move
            && d.res@[r->0 as int] && b.dest_area@[r->0 as int] == b.area@[i as int],
        b.act@[i as int] == Action::Move && d.res@[i as int] ==> r is None,
        match r {
            Some(k) => spec_dislodger(b, d.res@, i as int) == Some(k as int),
            None => spec_dislodger(b, d.res@, i as int) is None,
        },
{
    if b.act[i] == Action::Move && d.res[i] {
        return None;
    }
    let n = b.orders.len();
    let mut k: usize = 0;
    while k < n
        invariant
            b.wf(),
            d.wf(b.len()),
            n == b.len(),
            k <= n,
            i < n,
            !(b.act@[i as int] == Action::Move && d.res@[i as int]),
            forall|j: int| 0 <= j < k ==> !#[trigger] enters_place_of(b, d.res@, i as int, j),
        decreases n - k,
    {
        if k != i && b.act[k] == Action::Move && b.dest_area[k] == b.area[i] && d.res[k] {
            proof {
                assert(enters_place_of(b, d.res@, i as int, k as int));
                let c = choose|x: int|
                    0 <= x < b.len() && enters_place_of(b, d.res@, i as int, x) && forall|j: int|
                        0 <= j < x ==> !#[trigger] enters_place_of(b, d.res@, i as int, j);
                assert(c == k) by {
                    if c < k {
                    } else if c > k {
                    }
                }
            }
            return Some(k);
        }
        k = k + 1;
    }
    None
}

/// Whether `status` is what the decision `decided` of an order with action
/// `a` gives: a move succeeds exactly when decided for; a support decided
/// for is given unless its unit is dislodged, and one decided against is cut
/// unless its unit is dislodged; a convoy stays given exactly when its unit
/// is not dislodged (`free`).
pub open spec fn follows_decision(a: Action, status: OrderStatus, decided: bool, free: bool) -> bool {
    &&& a == Action::Move ==> (status == OrderStatus::Success) == decided
    &&& a == Action::Support && decided ==> status == OrderStatus::Valid || status
        == OrderStatus::Dislodged
    &&& a == Action::Support && !decided ==> status == OrderStatus::Cut || status
        == OrderStatus::Dislodged
    &&& a == Action::Convoy ==> (status == OrderStatus::Valid) == free
}

/// Takes as settled every decision that `known` gives.
fn seed(d: &mut Decisions, known: &Vec<Option<bool>>)
    requires
        old(d).wf(known@.len()),
        old(d).deps@.len() == 0,
        forall|k: int| 0 <= k < known@.len() ==> #[trigger] old(d).state@[k] == DecisionState::Unresolved,
        forall|k: int| 0 <= k < known@.len() ==> !#[trigger] old(d).res@[k],
    ensures
        final(d).wf(known@.len()),
        final(d).deps@.len() == 0,
        final(d).blocked@ == old(d).blocked@,
        forall|k: int|
            0 <= k < known@.len() && #[trigger] known@[k] is Some ==> final(d).state@[k]
                == DecisionState::Resolved && final(d).res@[k] == known@[k]->0,
        forall|k: int|
            0 <= k < known@.len() && #[trigger] known@[k] is None ==> final(d).state@[k]
                == DecisionState::Unresolved && !final(d).res@[k],
{
    let n = known.len();
    let mut x: usize = 0;
    while x < n
        invariant
            n == known@.len(),
            x <= n,
            d.wf(n as nat),
            d.deps@.len() == 0,
            d.blocked@ == old(d).blocked@,
            forall|k: int|
                0 <= k < x && #[trigger] known@[k] is Some ==> d.state@[k] == DecisionState::Resolved
                    && d.res@[k] == known@[k]->0,
            forall|k: int|
                0 <= k < n && (k >= x || known@[k] is None) ==> #[trigger] d.state@[k]
                    == DecisionState::Unresolved && !d.res@[k],
        decreases n - x,
    {
        match known[x] {
            Some(v) => {
                d.res.set(x, v);
                d.state.set(x, DecisionState::Resolved);
            },
            None => {},
        }
        x = x + 1;
    }
}

/// Whether some move of the board that was decided to succeed goes into the province of the unit of order `i`.
#[verifier::opaque]
pub(crate) open spec fn has_dislodger(b: &Board, d: &Decisions, i: int) -> bool {
    exists|j: int|
        0 <= j < b.len() && j != i && b.act@[j] == Action::Move && d.res@[j] && b.dest_area@[j]
            == b.area@[i]
}

/// Whether some move by convoy of the board that was decided to succeed goes
/// into the province of the unit of order `i`.
#[verifier::opaque]
pub(crate) open spec fn has_convoyed_dislodger(b: &Board, d: &Decisions, i: int) -> bool {
    exists|j: int|
        0 <= j < b.len() && j != i && b.act@[j] == Action::Move && d.res@[j] && b.dest_area@[j]
            == b.area@[i] && b.convoyed@[j]
}

/// Whether a move of `after` that went by convoy (judged on the validated
/// orders `v`) succeeded into the province of the unit of `i`.
pub open spec fn convoyed_dislodgement(v: Seq<Order>, after: Seq<Order>, i: int) -> bool {
    exists|k: int|
        0 <= k < after.len() && k != i && after[k].status == OrderStatus::Success && after[k].kind is Move
            && spec_area(after[k].kind->Move_0.dest.index()) == spec_area(after[i].unit.province.index())
            && spec_convoyed(v, k)
}

/// Whether a move of `os` other than `i` succeeded into the province of the unit of `i`.
pub open spec fn dislodgement_explained(os: Seq<Order>, i: int) -> bool {
    exists|k: int|
        0 <= k < os.len() && k != i && os[k].status == OrderStatus::Success && os[k].kind is Move
            && spec_area(os[k].kind->Move_0.dest.index()) == spec_area(os[i].unit.province.index())
}

/// The order `i` with the status that the decisions give it.
fn settled_order(b: &Board, d: &Decisions, i: usize, report_unreachable: bool) -> (r: Order)
    requires
        b.wf(),
        d.wf(b.len()),
        i < b.len(),
    ensures
        same_order(b.orders@[i as int], r),
        final_status_allowed(b.orders@[i as int], r),
        b.act@[i as int] == Action::Assumed ==> r == b.orders@[i as int],
        b.act@[i as int] == Action::Move && d.res@[i as int] ==> r.status == OrderStatus::Success,
        b.act@[i as int] != Action::Assumed && r.status == OrderStatus::Dislodged ==> has_dislodger(
            b,
            d,
            i as int,
        ),
        b.act@[i as int] != Action::Assumed && r.status == OrderStatus::Dislodged && r.dislodged_from
            is None ==> has_convoyed_dislodger(b, d, i as int),
        !report_unreachable && b.act@[i as int] != Action::Assumed ==> r.status
            != OrderStatus::Unreachable,
        unopposed(b, i as int) && d.res@[i as int] && b.act@[i as int] != Action::Move ==> r.status
            == OrderStatus::Valid,
        b.act@[i as int] == Action::Move && !b.convoyed@[i as int] && !d.res@[i as int] ==> r.status
            == OrderStatus::Failure || r.status == OrderStatus::Dislodged,
        b.act@[i as int] == Action::Move ==> (r.status == OrderStatus::Success) == d.res@[i as int],
        b.act@[i as int] == Action::Support && d.res@[i as int] ==> r.status == OrderStatus::Valid
            || r.status == OrderStatus::Dislodged,
        b.act@[i as int] == Action::Support && !d.res@[i as int] ==> r.status == OrderStatus::Cut
            || r.status == OrderStatus::Dislodged,
        b.act@[i as int] == Action::Convoy ==> (r.status == OrderStatus::Valid) == (spec_dislodger(
            b,
            d.res@,
            i as int,
        ) is None),
{
    reveal(has_dislodger);
    reveal(has_convoyed_dislodger);
    let o = b.orders[i];
    let a = b.act[i];
    if a == Action::Assumed {
        return o;
    }
    match dislodger(b, d, i) {
        Some(k) => {
            let from = if b.convoyed[k] {
                None
            } else {
                Some(b.orders[k].unit.province)
            };
            Order { status: OrderStatus::Dislodged, dislodged_from: from, ..o }
        },
        None => {
            let status = match a {
                Action::Move => {
                    if d.res[i] {
                        OrderStatus::Success
                    } else if report_unreachable && b.convoyed[i] && !convoy_path_held(b, d, i) {
                        OrderStatus::Unreachable
                    } else if report_unreachable && b.convoyed[i] && d.blocked[i] && would_win(b, d, i) {
                        OrderStatus::Unreachable
                    } else {
                        OrderStatus::Failure
                    }
                },
                Action::Support => {
                    if d.res[i] {
                        OrderStatus::Valid
                    } else {
                        OrderStatus::Cut
                    }
                },
                Action::Convoy => OrderStatus::Valid,
                _ => {
                    if o.is_invalid() {
                        OrderStatus::Invalid
                    } else {
                        OrderStatus::Success
                    }
                },
            };
            Order { status, ..o }
        },
    }
}

/// Writes the outcome of the decisions into the statuses of the orders.
fn write_statuses(b: &Board, d: &Decisions, orders: &mut Vec<Order>, report_unreachable: bool)
    requires
        b.wf(),
        d.wf(b.len()),
        old(orders)@ == b.orders@,
    ensures
        final(orders)@.len() == old(orders)@.len(),
        forall|i: int|
            0 <= i < old(orders)@.len() ==> same_order(old(orders)@[i], #[trigger] final(orders)@[i])
                && final_status_allowed(old(orders)@[i], final(orders)@[i]),
        forall|i: int|
            0 <= i < old(orders)@.len() && spec_action(old(orders)@[i]) == Action::Assumed
                ==> #[trigger] final(orders)@[i] == old(orders)@[i],
        forall|i: int|
            0 <= i < old(orders)@.len() && b.act@[i] != Action::Assumed && #[trigger] final(orders)@[i].status == OrderStatus::Dislodged ==> dislodgement_explained(final(orders)@, i),
        forall|i: int|
            0 <= i < old(orders)@.len() && b.act@[i] != Action::Assumed && #[trigger] final(orders)@[i].status
                == OrderStatus::Dislodged && final(orders)@[i].dislodged_from is None
                ==> convoyed_dislodgement(b.orders@, final(orders)@, i),
        forall|i: int|
            0 <= i < old(orders)@.len() && !report_unreachable && b.act@[i] != Action::Assumed
                ==> #[trigger] final(orders)@[i].status != OrderStatus::Unreachable,
        forall|i: int|
            0 <= i < old(orders)@.len() && unopposed(b, i) && d.res@[i] ==> #[trigger] final(orders)@[i].status
                == if b.act@[i] == Action::Move {
                OrderStatus::Success
            } else {
                OrderStatus::Valid
            },
        forall|i: int|
            0 <= i < old(orders)@.len() && b.act@[i] == Action::Move && !b.convoyed@[i] && !d.res@[i]
                ==> #[trigger] final(orders)@[i].status == OrderStatus::Failure || final(orders)@[i].status
                == OrderStatus::Dislodged,
        forall|i: int|
            0 <= i < old(orders)@.len() ==> follows_decision(
                b.act@[i],
                #[trigger] final(orders)@[i].status,
                d.res@[i],
                spec_dislodger(b, d.res@, i) is None,
            ),
{
    let n = orders.len();
    let mut i: usize = 0;
    while i < n
        invariant
            b.wf(),
            d.wf(b.len()),
            n == b.len(),
            orders@.len() == n,
            i <= n,
            forall|k: int|
                0 <= k < i ==> same_order(b.orders@[k], #[trigger] orders@[k])
                    && final_status_allowed(b.orders@[k], orders@[k]),
            forall|k: int|
                0 <= k < i && spec_action(b.orders@[k]) == Action::Assumed
                    ==> #[trigger] orders@[k] == b.orders@[k],
            forall|k: int| i <= k < n ==> orders@[k] == b.orders@[k],
            forall|k: int|
                0 <= k < i && b.act@[k] == Action::Move && d.res@[k] ==> #[trigger] orders@[k].status
                    == OrderStatus::Success,
            forall|k: int|
                0 <= k < i && b.act@[k] != Action::Assumed && #[trigger] orders@[k].status
                    == OrderStatus::Dislodged ==> has_dislodger(b, d, k),
            forall|k: int|
                0 <= k < i && b.act@[k] != Action::Assumed && #[trigger] orders@[k].status
                    == OrderStatus::Dislodged && orders@[k].dislodged_from is None
                    ==> has_convoyed_dislodger(b, d, k),
            forall|k: int|
                0 <= k < i && !report_unreachable && b.act@[k] != Action::Assumed
                    ==> #[trigger] orders@[k].status != OrderStatus::Unreachable,
            forall|k: int|
                0 <= k < i && unopposed(b, k) && d.res@[k] ==> #[trigger] orders@[k].status
                    == if b.act@[k] == Action::Move {
                    OrderStatus::Success
                } else {
                    OrderStatus::Valid
                },
            forall|k: int|
                0 <= k < i && b.act@[k] == Action::Move && !b.convoyed@[k] && !d.res@[k]
                    ==> #[trigger] orders@[k].status == OrderStatus::Failure || orders@[k].status
                    == OrderStatus::Dislodged,
            forall|k: int|
                0 <= k < i ==> follows_decision(
                    b.act@[k],
                    #[trigger] orders@[k].status,
                    d.res@[k],
                    spec_dislodger(b, d.res@, k) is None,
                ),
        decreases n - i,
    {
        let o = settled_order(b, d, i, report_unreachable);
        orders.set(i, o);
        i = i + 1;
    }
    assert forall|i: int|
        0 <= i < n && b.act@[i] != Action::Assumed && #[trigger] orders@[i].status
            == OrderStatus::Dislodged implies dislodgement_explained(orders@, i) by {
        reveal(has_dislodger);
        let j = choose|j: int|
            0 <= j < b.len() && j != i && b.act@[j] == Action::Move && d.res@[j] && b.dest_area@[j]
                == b.area@[i];
        assert(orders@[j].status == OrderStatus::Success);
        assert(same_order(b.orders@[j], orders@[j]));
        assert(same_order(b.orders@[i], orders@[i]));
    }
    assert forall|i: int|
        0 <= i < n && b.act@[i] != Action::Assumed && #[trigger] orders@[i].status
            == OrderStatus::Dislodged && orders@[i].dislodged_from is None implies convoyed_dislodgement(
        b.orders@,
        orders@,
        i,
    ) by {
        reveal(has_convoyed_dislodger);
        let j = choose|j: int|
            0 <= j < b.len() && j != i && b.act@[j] == Action::Move && d.res@[j] && b.dest_area@[j]
                == b.area@[i] && b.convoyed@[j];
        assert(orders@[j].status == OrderStatus::Success);
        assert(same_order(b.orders@[j], orders@[j]));
        assert(same_order(b.orders@[i], orders@[i]));
    }
}

/// Whether the validated order `k` is a move into the province at `a`.
pub open spec fn moves_into(v: Seq<Order>, k: int, a: int) -> bool {
    spec_action(v[k]) == Action::Move && spec_area(v[k].kind->Move_0.dest.index()) == a
}

/// Whether a move into the province at `a` succeeded.
pub open spec fn entered(v: Seq<Order>, f: Seq<Order>, a: int) -> bool {
    exists|k: int| 0 <= k < v.len() && #[trigger] moves_into(v, k, a) && f[k].status == OrderStatus::Success
}

/// Whether the move `k` bounced: it failed, or its unit was dislodged while
/// it did not go by convoy.
pub open spec fn bounced(v: Seq<Order>, f: Seq<Order>, k: int) -> bool {
    f[k].status == OrderStatus::Failure || (f[k].status == OrderStatus::Dislodged
        && !spec_convoyed(v, k))
}

/// Number of the moves among the first `n` into the province at `a` that bounced.
pub open spec fn bounce_count(v: Seq<Order>, f: Seq<Order>, a: int, n: int) -> nat
    decreases n,
{
    if n <= 0 {
        0
    } else {
        bounce_count(v, f, a, n - 1) + if moves_into(v, n - 1, a) && bounced(v, f, n - 1) {
            1nat
        } else {
            0nat
        }
    }
}

/// Whether the province at `a` is left empty by a standoff: no move entered
/// it and two or more bounced there.
pub open spec fn is_standoff(v: Seq<Order>, f: Seq<Order>, a: int) -> bool {
    !entered(v, f, a) && bounce_count(v, f, a, v.len() as int) >= 2
}

/// The positions below `upto` of the provinces left empty by a standoff, in increasing order.
pub open spec fn standoff_areas(v: Seq<Order>, f: Seq<Order>, upto: int) -> Seq<int>
    decreases upto,
{
    if upto <= 0 {
        Seq::empty()
    } else {
        let prev = standoff_areas(v, f, upto - 1);
        if is_standoff(v, f, upto - 1) {
            prev.push(upto - 1)
        } else {
            prev
        }
    }
}

/// A province recorded as a standoff lies below `upto` and was left empty:
/// no move of the validated orders `v` into it ended successful in `f`.
/// The recorded provinces come in increasing order.
pub proof fn law_standoffs_left_empty(v: Seq<Order>, f: Seq<Order>, upto: int)
    ensures
        forall|k: int|
            0 <= k < standoff_areas(v, f, upto).len() ==> 0 <= #[trigger] standoff_areas(v, f, upto)[k] < upto,
        forall|k: int, j: int|
            0 <= k < standoff_areas(v, f, upto).len() && 0 <= j < v.len() && spec_action(v[j])
                == Action::Move && spec_area(v[j].kind->Move_0.dest.index()) == #[trigger] standoff_areas(
                v,
                f,
                upto,
            )[k] ==> #[trigger] f[j].status != OrderStatus::Success,
        forall|k1: int, k2: int|
            0 <= k1 < k2 < standoff_areas(v, f, upto).len() ==> #[trigger] standoff_areas(v, f, upto)[k1]
                < #[trigger] standoff_areas(v, f, upto)[k2],
    decreases upto,
{
    if upto > 0 {
        law_standoffs_left_empty(v, f, upto - 1);
        let prev = standoff_areas(v, f, upto - 1);
        if is_standoff(v, f, upto - 1) {
            assert forall|k: int, j: int|
                0 <= k < standoff_areas(v, f, upto).len() && 0 <= j < v.len() && spec_action(v[j])
                    == Action::Move && spec_area(v[j].kind->Move_0.dest.index()) == standoff_areas(
                    v,
                    f,
                    upto,
                )[k] implies f[j].status != OrderStatus::Success by {
                if k == prev.len() {
                    if f[j].status == OrderStatus::Success {
                        assert(moves_into(v, j, upto - 1));
                    }
                } else {
                    assert(standoff_areas(v, f, upto)[k] == prev[k]);
                }
            }
        }
    }
}

/// Whether the validated order `j` is a move into the province at `a` that
/// failed in `f`, or whose unit was dislodged while it did not go by convoy.
pub open spec fn bounced_into(v: Seq<Order>, f: Seq<Order>, j: int, a: int) -> bool {
    &&& spec_action(v[j]) == Action::Move
    &&& spec_area(v[j].kind->Move_0.dest.index()) == a
    &&& (f[j].status == OrderStatus::Failure || (f[j].status == OrderStatus::Dislodged
        && !spec_convoyed(v, j)))
}

/// A count of bounces into `a` among the first `n` orders gives as many witnesses.
proof fn lemma_bounce_witnesses(v: Seq<Order>, f: Seq<Order>, a: int, n: int)
    requires
        0 <= n <= v.len(),
    ensures
        bounce_count(v, f, a, n) >= 1 ==> exists|j: int| 0 <= j < n && #[trigger] bounced_into(v, f, j, a),
        bounce_count(v, f, a, n) >= 2 ==> exists|j1: int, j2: int|
            0 <= j1 < j2 < n && #[trigger] bounced_into(v, f, j1, a) && #[trigger] bounced_into(v, f, j2, a),
    decreases n,
{
    if n > 0 {
        lemma_bounce_witnesses(v, f, a, n - 1);
        if moves_into(v, n - 1, a) && bounced(v, f, n - 1) {
            assert(bounced_into(v, f, n - 1, a));
            if bounce_count(v, f, a, n) >= 2 {
                let j = choose|j: int| 0 <= j < n - 1 && #[trigger] bounced_into(v, f, j, a);
                assert(bounced_into(v, f, j, a) && bounced_into(v, f, n - 1, a));
            }
        }
    }
}

/// Whether two different moves of the validated orders `v` into the
/// province at `a` bounced in `f`.
pub open spec fn two_bounced(v: Seq<Order>, f: Seq<Order>, a: int) -> bool {
    exists|j1: int, j2: int|
        0 <= j1 < j2 < v.len() && #[trigger] bounced_into(v, f, j1, a) && #[trigger] bounced_into(v, f, j2, a)
}

/// A province recorded as a standoff saw two or more moves into it bounce.
pub proof fn law_standoffs_bounced(v: Seq<Order>, f: Seq<Order>, upto: int)
    ensures
        forall|k: int|
            0 <= k < standoff_areas(v, f, upto).len() ==> two_bounced(v, f, #[trigger] standoff_areas(v, f, upto)[k]),
    decreases upto,
{
    if upto > 0 {
        law_standoffs_bounced(v, f, upto - 1);
        let prev = standoff_areas(v, f, upto - 1);
        assert forall|k: int| 0 <= k < standoff_areas(v, f, upto).len() implies two_bounced(
            v,
            f,
            #[trigger] standoff_areas(v, f, upto)[k],
        ) by {
            if k < prev.len() {
                assert(standoff_areas(v, f, upto)[k] == prev[k]);
            } else {
                lemma_bounce_witnesses(v, f, upto - 1, v.len() as int);
            }
        }
    }
}

/// Records, by code, the provinces where two or more moves bounced and none entered.
fn record_standoffs(b: &Board, orders: &Vec<Order>, standoffs: &mut Vec<String>)
    requires
        b.wf(),
        orders@.len() == b.len(),
    ensures
        final(standoffs)@.len() == old(standoffs)@.len() + standoff_areas(
            b.orders@,
            orders@,
            PROVINCE_COUNT as int,
        ).len(),
        forall|k: int| 0 <= k < old(standoffs)@.len() ==> final(standoffs)@[k] == old(standoffs)@[k],
        forall|k: int|
            0 <= k < standoff_areas(b.orders@, orders@, PROVINCE_COUNT as int).len() ==> #[trigger] final(standoffs)@[old(standoffs)@.len() + k]@ == spec_code(
                standoff_areas(b.orders@, orders@, PROVINCE_COUNT as int)[k],
            ),
{
    let ghost v = b.orders@;
    let ghost f = orders@;
    let ghost base = old(standoffs)@.len();
    let n = orders.len();
    let mut a: u8 = 0;
    while a < PROVINCE_COUNT
        invariant
            b.wf(),
            v == b.orders@,
            f == orders@,
            base == old(standoffs)@.len(),
            n == b.len(),
            orders@.len() == n,
            a <= PROVINCE_COUNT,
            standoffs@.len() == base + standoff_areas(v, f, a as int).len(),
            forall|k: int| 0 <= k < base ==> standoffs@[k] == old(standoffs)@[k],
            forall|k: int|
                0 <= k < standoff_areas(v, f, a as int).len() ==> #[trigger] standoffs@[base + k]@
                    == spec_code(standoff_areas(v, f, a as int)[k]),
        decreases PROVINCE_COUNT - a,
    {
        let mut count: usize = 0;
        let mut any_entered = false;
        let mut k: usize = 0;
        while k < n
            invariant
                b.wf(),
                v == b.orders@,
                f == orders@,
                n == b.len(),
                orders@.len() == n,
                k <= n,
                a < PROVINCE_COUNT,
                count <= k,
                count == bounce_count(v, f, a as int, k as int),
                any_entered == exists|j: int|
                    0 <= j < k && #[trigger] moves_into(v, j, a as int) && f[j].status
                        == OrderStatus::Success,
            decreases n - k,
        {
            if b.act[k] == Action::Move && b.dest_area[k] == a {
                let s = orders[k].status;
                if s == OrderStatus::Success {
                    any_entered = true;
                } else if s == OrderStatus::Failure || (s == OrderStatus::Dislodged
                    && !b.convoyed[k]) {
                    count = count + 1;
                }
            }
            proof {
                assert(moves_into(v, k as int, a as int) == (b.act@[k as int] == Action::Move
                    && b.dest_area@[k as int] == a));
            }
            k = k + 1;
        }
        let ghost before = standoffs@;
        if !any_entered && count >= 2 {
            standoffs.push(String::from_str(Province::from_id(a).code()));
        }
        proof {
            assert(is_standoff(v, f, a as int) == (!any_entered && count >= 2));
            assert forall|k: int|
                0 <= k < standoff_areas(v, f, a + 1).len() implies #[trigger] standoffs@[base + k]@
                == spec_code(standoff_areas(v, f, a + 1)[k]) by {
                if k < standoff_areas(v, f, a as int).len() {
                    assert(standoffs@[base + k] == before[base + k]);
                }
            }
        }
        a = a + 1;
    }
}

/// Whether nothing can stand in the way of the validated order `i`: a move
/// that needs no convoy into a province where no unit stands and into which no
/// other move goes, or a support or convoy into whose province no move goes.
pub open spec fn uncontested(v: Seq<Order>, i: int) -> bool {
    let a = spec_action(v[i]);
    if a == Action::Move {
        let to = spec_area(v[i].kind->Move_0.dest.index());
        &&& !spec_convoyed(v, i)
        &&& forall|k: int| 0 <= k < v.len() ==> spec_area(#[trigger] v[k].unit.province.index()) != to
        &&& forall|k: int| 0 <= k < v.len() && k != i ==> !#[trigger] moves_into(v, k, to)
    } else if a == Action::Support || a == Action::Convoy {
        forall|k: int|
            0 <= k < v.len() ==> !#[trigger] moves_into(v, k, spec_area(v[i].unit.province.index()))
    } else {
        false
    }
}

/// Whether no valid support among the validated orders refers to the order `i`.
pub open spec fn unsupported(v: Seq<Order>, i: int) -> bool {
    forall|s: int|
        0 <= s < v.len() ==> !(#[trigger] spec_action(v[s]) == Action::Support && spec_target(v, s) == i)
}

/// Whether the validated move `i` bounces whatever else is decided: it
/// needs no convoy and has no support, no unit stands where it goes, and
/// another move goes there, each such move without convoy and without support.
pub open spec fn plainly_bounced(v: Seq<Order>, i: int) -> bool {
    let to = spec_area(v[i].kind->Move_0.dest.index());
    &&& spec_action(v[i]) == Action::Move
    &&& !spec_convoyed(v, i)
    &&& unsupported(v, i)
    &&& forall|k: int| 0 <= k < v.len() ==> spec_area(#[trigger] v[k].unit.province.index()) != to
    &&& exists|k: int| 0 <= k < v.len() && k != i && #[trigger] moves_into(v, k, to)
    &&& forall|k: int|
        0 <= k < v.len() && k != i && #[trigger] moves_into(v, k, to) ==> !spec_convoyed(v, k)
            && unsupported(v, k)
}

/// Whether the validated move `i` and the only unit standing where it goes
/// try to swap places, both without convoy and without support.
pub open spec fn plainly_swapped(v: Seq<Order>, i: int) -> bool {
    let to = spec_area(v[i].kind->Move_0.dest.index());
    let from = spec_area(v[i].unit.province.index());
    &&& spec_action(v[i]) == Action::Move
    &&& !spec_convoyed(v, i)
    &&& unsupported(v, i)
    &&& exists|y: int|
        0 <= y < v.len() && y != i && #[trigger] moves_into(v, y, from) && spec_area(
            v[y].unit.province.index(),
        ) == to && !spec_convoyed(v, y) && unsupported(v, y) && forall|k: int|
            0 <= k < v.len() && spec_area(#[trigger] v[k].unit.province.index()) == to ==> k == y
}

/// Whether the validated move `i` goes against the only unit where it goes,
/// which stands still, with no support on either side and without convoy.
pub open spec fn plainly_repulsed(v: Seq<Order>, i: int) -> bool {
    let to = spec_area(v[i].kind->Move_0.dest.index());
    &&& spec_action(v[i]) == Action::Move
    &&& !spec_convoyed(v, i)
    &&& unsupported(v, i)
    &&& exists|o: int|
        0 <= o < v.len() && spec_area(#[trigger] v[o].unit.province.index()) == to && spec_action(v[o])
            != Action::Move && unsupported(v, o) && forall|k: int|
            0 <= k < v.len() && spec_area(#[trigger] v[k].unit.province.index()) == to ==> k == o
}

/// The orders `before`, once validated (moves, then supports, then convoys).
pub open spec fn validated(before: Seq<Order>) -> Seq<Order> {
    convoys_checked(supports_checked(moves_checked(before)))
}

/// What the resolution of an order phase makes of the orders `before`, as
/// far as it is stated order by order:
/// - every order keeps its power, unit and kind; an order given to another
///   power's unit is left as it was;
/// - every pending order ends settled, a pending hold succeeds unless its
///   unit is dislodged, and a move never ends with no route found unless
///   `report_unreachable`;
/// - an order is dislodged only by a move that succeeded into its province,
///   and loses the province of its attacker only when that move came by convoy;
/// - a move, support or convoy that the checks refuse ends invalid or
///   dislodged, and one that ends successful or given passed the checks;
/// - a move, support or convoy that nothing opposes succeeds or is given;
/// - every move, support or convoy whose decision the rules settle from
///   the decisions they settle before it, the moves of a circle that nothing
///   else enters all succeeding (see `settled`), ends as that decision
///   gives: a move succeeds exactly when decided for, a support is given or
///   cut as decided unless its unit is dislodged, a convoy stays given
///   exactly when decided for;
/// - a move that bounces whatever else is decided, or that goes without
///   convoy against a unit that swaps places with it or stands still, with
///   no support on either side, fails (or is dislodged).
pub open spec fn adjudicated(before: Seq<Order>, after: Seq<Order>, report_unreachable: bool) -> bool {
    let v = validated(before);
    &&& after.len() == before.len()
    &&& exists|bd: Board|
        bd.wf() && bd.orders@ == v && forall|i: int|
            0 <= i < before.len() && #[trigger] settled(&bd)[i] is Some ==> follows_decision(
                bd.act@[i],
                after[i].status,
                settled(&bd)[i]->0,
                settled(&bd)[i]->0,
            )
    &&& forall|i: int| 0 <= i < before.len() ==> same_order(before[i], #[trigger] after[i])
    &&& forall|i: int|
        0 <= i < before.len() && spec_is_assumed(before[i]) ==> #[trigger] after[i] == before[i]
    &&& forall|i: int|
        0 <= i < before.len() && !spec_is_assumed(before[i]) && before[i].status
            == OrderStatus::Unresolved ==> ends_settled(before[i], #[trigger] after[i])
    &&& forall|i: int|
        0 <= i < before.len() && is_pending(before[i]) && before[i].kind is Hold
            ==> #[trigger] after[i].status == OrderStatus::Success || after[i].status
            == OrderStatus::Dislodged
    &&& forall|i: int|
        0 <= i < before.len() && !report_unreachable && !spec_is_assumed(before[i])
            ==> #[trigger] after[i].status != OrderStatus::Unreachable
    &&& forall|i: int|
        0 <= i < before.len() && !spec_is_assumed(before[i]) && #[trigger] after[i].status
            == OrderStatus::Dislodged ==> dislodgement_explained(after, i)
    &&& forall|i: int|
        0 <= i < before.len() && !spec_is_assumed(before[i]) && #[trigger] after[i].status
            == OrderStatus::Dislodged && after[i].dislodged_from is None ==> convoyed_dislodgement(
            v,
            after,
            i,
        )
    &&& forall|i: int|
        0 <= i < before.len() && is_pending(before[i]) && before[i].kind is Move
            && !move_is_legal(before, before[i]) ==> #[trigger] after[i].status
            == OrderStatus::Invalid || after[i].status == OrderStatus::Dislodged
    &&& forall|i: int|
        0 <= i < before.len() && is_pending(before[i]) && before[i].kind is Support
            && !support_is_legal(moves_checked(before), before[i]) ==> #[trigger] after[i].status
            == OrderStatus::Invalid || after[i].status == OrderStatus::Dislodged
    &&& forall|i: int|
        0 <= i < before.len() && is_pending(before[i]) && before[i].kind is Convoy
            && !convoy_is_legal(supports_checked(moves_checked(before)), before[i])
            ==> #[trigger] after[i].status == OrderStatus::Invalid || after[i].status
            == OrderStatus::Dislodged
    &&& forall|i: int|
        0 <= i < before.len() && is_pending(before[i]) && before[i].kind is Move
            && #[trigger] after[i].status == OrderStatus::Success ==> move_is_legal(before, before[i])
    &&& forall|i: int|
        0 <= i < before.len() && is_pending(before[i]) && before[i].kind is Support
            && #[trigger] after[i].status == OrderStatus::Valid ==> support_is_legal(
            moves_checked(before),
            before[i],
        )
    &&& forall|i: int|
        0 <= i < before.len() && is_pending(before[i]) && before[i].kind is Convoy
            && #[trigger] after[i].status == OrderStatus::Valid ==> convoy_is_legal(
            supports_checked(moves_checked(before)),
            before[i],
        )
    &&& forall|i: int|
        0 <= i < before.len() && (plainly_bounced(v, i) || plainly_swapped(v, i) || plainly_repulsed(v, i))
            ==> #[trigger] after[i].status
            == OrderStatus::Failure || after[i].status == OrderStatus::Dislodged
    &&& forall|i: int|
        0 <= i < before.len() && uncontested(v, i) ==> #[trigger] after[i].status
            == if spec_action(v[i]) == Action::Move {
            OrderStatus::Success
        } else {
            OrderStatus::Valid
        }
}

/// A validated move that bounces whatever else is decided bounces on its board.
proof fn lemma_plainly_bounced(b: &Board, i: int)
    requires
        b.wf(),
        0 <= i < b.len(),
        plainly_bounced(b.orders@, i),
    ensures
        plain_bounce(b, i),
{
    let to = spec_area(b.orders@[i].kind->Move_0.dest.index());
    assert(b.dest_area@[i] == to);
    assert forall|k: int| 0 <= k < b.len() implies #[trigger] b.area@[k] != b.dest_area@[i] by {
        assert(spec_area(b.orders@[k].unit.province.index()) != to);
    }
    assert forall|s: int| 0 <= s < b.len() implies !(#[trigger] b.act@[s] == Action::Support
        && b.target@[s] == i) by {
        assert(!(spec_action(b.orders@[s]) == Action::Support && spec_target(b.orders@, s) == i));
    }
    let w = choose|k: int| 0 <= k < b.orders@.len() && k != i && #[trigger] moves_into(b.orders@, k, to);
    assert(b.act@[w] == Action::Move && b.dest_area@[w] == b.dest_area@[i]);
    assert forall|k: int|
        0 <= k < b.len() && k != i && #[trigger] b.act@[k] == Action::Move && b.dest_area@[k]
            == b.dest_area@[i] implies !b.convoyed@[k] && no_supports(b, k) by {
        assert(moves_into(b.orders@, k, to));
        assert forall|s: int| 0 <= s < b.len() implies !(#[trigger] b.act@[s] == Action::Support
            && b.target@[s] == k) by {
            assert(!(spec_action(b.orders@[s]) == Action::Support && spec_target(b.orders@, s) == k));
        }
    }
}

/// A validated move that tries to swap places plainly does so on its board.
proof fn lemma_plainly_swapped(b: &Board, i: int)
    requires
        b.wf(),
        0 <= i < b.len(),
        plainly_swapped(b.orders@, i),
    ensures
        plain_swap(b, i),
{
    let v = b.orders@;
    let to = spec_area(v[i].kind->Move_0.dest.index());
    let from = spec_area(v[i].unit.province.index());
    let y = choose|y: int|
        0 <= y < v.len() && y != i && #[trigger] moves_into(v, y, from) && spec_area(
            v[y].unit.province.index(),
        ) == to && !spec_convoyed(v, y) && unsupported(v, y) && forall|k: int|
            0 <= k < v.len() && spec_area(#[trigger] v[k].unit.province.index()) == to ==> k == y;
    assert(b.dest_area@[i] == to);
    assert(b.act@[y] == Action::Move && b.dest_area@[y] == b.area@[i]);
    assert forall|s: int| 0 <= s < b.len() implies !(#[trigger] b.act@[s] == Action::Support
        && b.target@[s] == i) by {
        assert(!(spec_action(v[s]) == Action::Support && spec_target(v, s) == i));
    }
    assert forall|s: int| 0 <= s < b.len() implies !(#[trigger] b.act@[s] == Action::Support
        && b.target@[s] == y) by {
        assert(!(spec_action(v[s]) == Action::Support && spec_target(v, s) == y));
    }
    assert forall|k: int| 0 <= k < b.len() && #[trigger] b.area@[k] == b.dest_area@[i] implies k == y by {
        assert(spec_area(v[k].unit.province.index()) == to);
    }
}

/// A validated move plainly held off by a standing unit is so on its board.
proof fn lemma_plainly_repulsed(b: &Board, i: int)
    requires
        b.wf(),
        0 <= i < b.len(),
        plainly_repulsed(b.orders@, i),
    ensures
        plain_repulse(b, i),
{
    let v = b.orders@;
    let to = spec_area(v[i].kind->Move_0.dest.index());
    let o = choose|o: int|
        0 <= o < v.len() && spec_area(#[trigger] v[o].unit.province.index()) == to && spec_action(v[o])
            != Action::Move && unsupported(v, o) && forall|k: int|
            0 <= k < v.len() && spec_area(#[trigger] v[k].unit.province.index()) == to ==> k == o;
    assert(b.dest_area@[i] == to);
    assert(b.area@[o] == b.dest_area@[i]);
    assert forall|s: int| 0 <= s < b.len() implies !(#[trigger] b.act@[s] == Action::Support
        && b.target@[s] == i) by {
        assert(!(spec_action(v[s]) == Action::Support && spec_target(v, s) == i));
    }
    assert forall|s: int| 0 <= s < b.len() implies !(#[trigger] b.act@[s] == Action::Support
        && b.target@[s] == o) by {
        assert(!(spec_action(v[s]) == Action::Support && spec_target(v, s) == o));
    }
    assert forall|k: int| 0 <= k < b.len() && #[trigger] b.area@[k] == b.dest_area@[i] implies k == o by {
        assert(spec_area(v[k].unit.province.index()) == to);
    }
}

/// A validated order that nothing opposes is unopposed on its board.
proof fn lemma_uncontested(b: &Board, i: int)
    requires
        b.wf(),
        0 <= i < b.len(),
        uncontested(b.orders@, i),
    ensures
        unopposed(b, i),
{
    if b.act@[i] == Action::Move {
        let to = spec_area(b.orders@[i].kind->Move_0.dest.index());
        assert(b.dest_area@[i] == to);
        assert forall|k: int| 0 <= k < b.len() implies #[trigger] b.area@[k] != b.dest_area@[i] by {
            assert(spec_area(b.orders@[k].unit.province.index()) != to);
        }
        assert forall|k: int|
            0 <= k < b.len() && k != i && #[trigger] b.act@[k] == Action::Move implies b.dest_area@[k]
                != b.dest_area@[i] by {
            assert(!moves_into(b.orders@, k, to));
        }
    } else {
        assert forall|k: int|
            0 <= k < b.len() && #[trigger] b.act@[k] == Action::Move implies b.dest_area@[k]
                != b.area@[i] by {
            assert(!moves_into(b.orders@, k, spec_area(b.orders@[i].unit.province.index())));
        }
    }
}

/// Resolves the orders of an order phase: validates the moves, supports and
/// convoys, decides every move, support and convoy, writes the statuses and
/// records the provinces left empty by a standoff.
#[verifier::rlimit(40)]
pub fn adjudicate_orders(orders: &mut Vec<Order>, standoffs: &mut Vec<String>, report_unreachable: bool)
    requires
        old(orders)@.len() < 0x1_0000_0000,
    ensures
        adjudicated(old(orders)@, final(orders)@, report_unreachable),
        forall|k: int| 0 <= k < old(standoffs)@.len() ==> final(standoffs)@[k] == old(standoffs)@[k],
        final(standoffs)@.len() == old(standoffs)@.len() + standoff_areas(
            validated(old(orders)@),
            final(orders)@,
            PROVINCE_COUNT as int,
        ).len(),
        forall|k: int|
            0 <= k < standoff_areas(validated(old(orders)@), final(orders)@, PROVINCE_COUNT as int).len()
                ==> #[trigger] final(standoffs)@[old(standoffs)@.len() + k]@ == spec_code(
                standoff_areas(validated(old(orders)@), final(orders)@, PROVINCE_COUNT as int)[k],
            ),
{
    let ghost before = orders@;
    validate_move_orders(orders);
    assert(orders@ =~= moves_checked(before));
    validate_support_orders(orders);
    assert(orders@ =~= supports_checked(moves_checked(before)));
    validate_convoy_orders(orders);
    assert(orders@ =~= convoys_checked(supports_checked(moves_checked(before))));
    let ghost checked = orders@;
    assert forall|i: int| 0 <= i < before.len() implies same_order(before[i], checked[i])
        && (crate::order::spec_is_assumed(before[i]) ==> checked[i] == before[i]) by {}
    let b = build_board(orders);
    let n = orders.len();
    let mut d = new_decisions(n);
    let known = settle(&b);
    seed(&mut d, &known);
    proof {
        lemma_settled_agrees(&b, b.len() as nat);
    }
    let fuel: u64 = 8 * (n as u64) + 64;
    let mut i: usize = 0;
    while i < n
        invariant
            b.wf(),
            d.wf(b.len()),
            sound(&b, d),
            calm(&b, d),
            known@ == settled(&b),
            forall|x: int|
                0 <= x < n && #[trigger] known@[x] is Some ==> outside(d, x) && d.res@[x] == known@[x]->0,
            n == b.len(),
            i <= n,
            fuel > 0,
            forall|x: int|
                0 <= x < n && #[trigger] unopposed(&b, x) ==> !(d.state@[x] == DecisionState::Guessing
                    && !d.res@[x]),
            forall|x: int| 0 <= x < i && #[trigger] unopposed(&b, x) ==> d.res@[x],
        decreases n - i,
    {
        if b.act[i] == Action::Move || b.act[i] == Action::Support || b.act[i] == Action::Convoy {
            resolve(&b, &mut d, i, fuel);
        }
        i = i + 1;
    }
    write_statuses(&b, &d, orders, report_unreachable);
    proof {
        lemma_settled_convoy(&b, b.len() as nat, d.res@);
        assert forall|i: int|
            0 <= i < before.len() && #[trigger] settled(&b)[i] is Some implies follows_decision(
            b.act@[i],
            orders@[i].status,
            settled(&b)[i]->0,
            settled(&b)[i]->0,
        ) by {
            assert(known@[i] is Some);
            assert(follows_decision(
                b.act@[i],
                orders@[i].status,
                d.res@[i],
                spec_dislodger(&b, d.res@, i) is None,
            ));
            if b.act@[i] == Action::Convoy {
                if spec_dislodger(&b, d.res@, i) is None {
                    assert forall|j: int|
                        0 <= j < b.len() && #[trigger] b.act@[j] == Action::Move && b.dest_area@[j] == b.area@[i]
                            implies !d.res@[j] by {
                        if d.res@[j] {
                            assert(enters_place_of(&b, d.res@, i, j));
                        }
                    }
                } else {
                    let j = choose|k: int| 0 <= k < b.len() && #[trigger] enters_place_of(&b, d.res@, i, k);
                    assert(b.act@[j] == Action::Move && b.dest_area@[j] == b.area@[i] && d.res@[j]);
                }
            }
        }
    }
    assert forall|i: int|
        0 <= i < n && (plainly_bounced(checked, i) || plainly_swapped(checked, i) || plainly_repulsed(
            checked,
            i,
        )) implies plain_failure(
        &b,
        i,
    ) by {
        if plainly_bounced(checked, i) {
            lemma_plainly_bounced(&b, i);
        } else if plainly_swapped(checked, i) {
            lemma_plainly_swapped(&b, i);
        } else {
            lemma_plainly_repulsed(&b, i);
        }
    }
    assert forall|i: int| 0 <= i < n && uncontested(checked, i) implies unopposed(&b, i) by {
        lemma_uncontested(&b, i);
    }
    assert forall|i: int| 0 <= i < before.len() && crate::order::spec_is_assumed(before[i])
        implies orders@[i] == before[i] by {
        assert(spec_action(checked[i]) == Action::Assumed);
    }
    assert forall|i: int|
        0 <= i < before.len() && !crate::order::spec_is_assumed(before[i]) && before[i].status
            == OrderStatus::Unresolved implies ends_settled(before[i], #[trigger] orders@[i]) by {
        assert(final_status_allowed(checked[i], orders@[i]));
    }
    record_standoffs(&b, orders, standoffs);
}

} // verus!
