use vstd::prelude::*;
use crate::map::can_unit_move_to;
use crate::map::spec_can_move;
use crate::map::is_reachable_by_sea;
use crate::map::spec_reachable_by_sea;
use crate::order::Order;
use crate::order::OrderKind;
use crate::order::OrderStatus;
use crate::order::spec_is_assumed;
use crate::order::spec_matching_target;
use crate::power::Power;
use crate::province::PROVINCE_COUNT;
use crate::province::spec_area;

verus! {

/// What a unit does in the resolution of the moves.
#[derive(Debug, Clone, Copy, PartialEq, Eq, Structural)]
pub enum Action {
    /// The order is only assumed: the unit stands still and the order is left alone.
    Assumed,
    /// The unit stands still (a hold, or an order found invalid).
    Hold,
    Move,
    Support,
    Convoy,
}

/// Resolution state of a decision.
#[derive(Debug, Clone, Copy, PartialEq, Eq, Structural)]
pub enum DecisionState {
    Unresolved,
    Guessing,
    Resolved,
}

/// The validated orders of an order phase, with what the resolution reads of them.
pub struct Board {
    pub orders: Vec<Order>,
    pub act: Vec<Action>,
    /// Position of the province (not the coast) of each unit.
    pub area: Vec<u8>,
    /// Position of the province (not the coast) that each move goes to; the unit's own for other orders.
    pub dest_area: Vec<u8>,
    /// Whether each move is an army move that needs a convoy.
    pub convoyed: Vec<bool>,
    /// For a valid support or convoy, the position of the order it refers to (else the number of orders).
    pub target: Vec<usize>,
}

/// The decisions taken so far: whether each move succeeds, each support is
/// given and each convoy stays in place.
pub(crate) struct Decisions {
    pub state: Vec<DecisionState>,
    pub res: Vec<bool>,
    /// Moves by convoy that a convoy paradox left standing (Szykman's rule).
    pub blocked: Vec<bool>,
    pub deps: Vec<usize>,
}

/// The action that an order takes in the resolution.
pub open spec fn spec_action(o: Order) -> Action {
    if spec_is_assumed(o) {
        Action::Assumed
    } else if o.status == OrderStatus::Valid {
        match o.kind {
            OrderKind::Move(_) => Action::Move,
            OrderKind::Support(_) => Action::Support,
            OrderKind::Convoy(_) => Action::Convoy,
            _ => Action::Hold,
        }
    } else {
        Action::Hold
    }
}

/// The first order from position `j` on, other than `i`, given by the owner of
/// its unit, not invalid, that the support or convoy `i` refers to (the number
/// of orders when there is none).
pub open spec fn first_target_from(os: Seq<Order>, i: int, j: int) -> int
    decreases os.len() - j,
{
    if j >= os.len() {
        os.len() as int
    } else if is_target_candidate(os, i, j) {
        j
    } else {
        first_target_from(os, i, j + 1)
    }
}

/// Whether the order `j` (not `i` itself, given by the owner of its unit, not
/// invalid) is one that the support or convoy `i` refers to.
pub open spec fn is_target_candidate(os: Seq<Order>, i: int, j: int) -> bool {
    j != i && !spec_is_assumed(os[j]) && os[j].status != OrderStatus::Invalid && spec_matching_target(
        os[i],
        os[j],
    )
}

/// Skipping orders that are no candidates does not change the first target.
proof fn lemma_first_target_skip(os: Seq<Order>, i: int, j: int)
    requires
        0 <= j <= os.len(),
        forall|m: int| 0 <= m < j ==> !#[trigger] is_target_candidate(os, i, m),
    ensures
        first_target_from(os, i, 0) == first_target_from(os, i, j),
    decreases j,
{
    if j > 0 {
        lemma_first_target_skip(os, i, j - 1);
    }
}

/// The order that the valid support or convoy `i` refers to (the number of orders otherwise).
pub open spec fn spec_target(os: Seq<Order>, i: int) -> int {
    if spec_action(os[i]) == Action::Support || spec_action(os[i]) == Action::Convoy {
        first_target_from(os, i, 0)
    } else {
        os.len() as int
    }
}

/// Whether the move `i` is an army move that goes by convoy: it cannot reach
/// its destination in one step, or (a valid move) a convoy of its own power carries it.
pub open spec fn spec_convoyed(os: Seq<Order>, i: int) -> bool {
    &&& os[i].kind is Move
    &&& os[i].unit.kind is Army
    &&& (!spec_can_move(os[i].unit, os[i].kind->Move_0.dest) || (spec_action(os[i]) == Action::Move
        && exists|c: int|
        0 <= c < os.len() && spec_action(os[c]) == Action::Convoy && #[trigger] spec_target(os, c)
            == i && os[c].unit.power == os[i].unit.power))
}

impl Board {
    /// The board's tables all describe its orders.
    pub open spec fn wf(&self) -> bool {
        let n = self.orders@.len();
        &&& self.act@.len() == n
        &&& self.area@.len() == n
        &&& self.dest_area@.len() == n
        &&& self.convoyed@.len() == n
        &&& self.target@.len() == n
        &&& forall|i: int| 0 <= i < n ==> #[trigger] self.area@[i] < PROVINCE_COUNT
        &&& forall|i: int| 0 <= i < n ==> #[trigger] self.dest_area@[i] < PROVINCE_COUNT
        &&& forall|i: int| 0 <= i < n ==> #[trigger] self.target@[i] <= n
        &&& forall|i: int| 0 <= i < n ==> #[trigger] self.act@[i] == spec_action(self.orders@[i])
        &&& forall|i: int|
            0 <= i < n ==> #[trigger] self.area@[i] == spec_area(
                self.orders@[i].unit.province.index(),
            )
        &&& forall|i: int|
            0 <= i < n ==> (#[trigger] self.act@[i] == Action::Move) ==> self.orders@[i].kind is Move
        &&& forall|i: int|
            0 <= i < n && self.orders@[i].kind is Move ==> #[trigger] self.dest_area@[i] == spec_area(
                self.orders@[i].kind->Move_0.dest.index(),
            )
        &&& forall|i: int| 0 <= i < n ==> #[trigger] self.target@[i] == spec_target(self.orders@, i)
        &&& forall|i: int| 0 <= i < n ==> #[trigger] self.convoyed@[i] == spec_convoyed(self.orders@, i)
        &&& n < 0x1_0000_0000
    }

    /// Number of orders.
    pub open spec fn len(&self) -> nat {
        self.orders@.len()
    }
}

impl Decisions {
    /// The decision tables have one entry per order and the dependency list holds positions of orders.
    pub(crate) open spec fn wf(&self, n: nat) -> bool {
        &&& self.state@.len() == n
        &&& self.res@.len() == n
        &&& self.blocked@.len() == n
        &&& forall|k: int| 0 <= k < self.deps@.len() ==> #[trigger] self.deps@[k] < n
    }
}

/// The action of an order.
pub(crate) fn action_of(o: &Order) -> (r: Action)
    ensures
        r == spec_action(*o),
{
    if o.is_assumed() {
        Action::Assumed
    } else if o.is_valid() {
        match o.kind {
            OrderKind::Move(_) => Action::Move,
            OrderKind::Support(_) => Action::Support,
            OrderKind::Convoy(_) => Action::Convoy,
            _ => Action::Hold,
        }
    } else {
        Action::Hold
    }
}

/// The first order whose unit stands on the province at `a`, if any.
pub open spec fn spec_occupant(b: &Board, a: int) -> Option<int> {
    if exists|k: int| 0 <= k < b.len() && #[trigger] b.area@[k] == a {
        Some(
            choose|k: int|
                0 <= k < b.len() && b.area@[k] == a && forall|j: int|
                    0 <= j < k ==> #[trigger] b.area@[j] != a,
        )
    } else {
        None
    }
}

/// Whether `j` is a move without convoy that goes the opposite way of the move `i`.
pub open spec fn is_head_to_head(b: &Board, i: int, j: int) -> bool {
    j != i && b.act@[j] == Action::Move && !b.convoyed@[j] && b.dest_area@[j] == b.area@[i]
        && b.area@[j] == b.dest_area@[i]
}

/// The first move without convoy that goes the opposite way of the move
/// `i` (itself without convoy), if any.
pub open spec fn spec_head_to_head(b: &Board, i: int) -> Option<int> {
    if b.act@[i] == Action::Move && !b.convoyed@[i] && exists|j: int|
        0 <= j < b.len() && #[trigger] is_head_to_head(b, i, j) {
        Some(
            choose|j: int|
                0 <= j < b.len() && is_head_to_head(b, i, j) && forall|k: int|
                    0 <= k < j ==> !#[trigger] is_head_to_head(b, i, k),
        )
    } else {
        None
    }
}

/// Builds the board of the validated `orders`.
pub(crate) fn build_board(orders: &Vec<Order>) -> (b: Board)
    requires
        orders@.len() < 0x1_0000_0000,
    ensures
        b.wf(),
        b.orders@ == orders@,
{
    let n = orders.len();
    let mut act: Vec<Action> = Vec::new();
    let mut area: Vec<u8> = Vec::new();
    let mut dest_area: Vec<u8> = Vec::new();
    let mut convoyed: Vec<bool> = Vec::new();
    let mut target: Vec<usize> = Vec::new();
    let mut i: usize = 0;
    while i < n
        invariant
            n == orders@.len(),
            i <= n,
            act@.len() == i,
            area@.len() == i,
            dest_area@.len() == i,
            convoyed@.len() == i,
            target@.len() == i,
            forall|k: int| 0 <= k < i ==> #[trigger] area@[k] < PROVINCE_COUNT,
            forall|k: int| 0 <= k < i ==> #[trigger] dest_area@[k] < PROVINCE_COUNT,
            forall|k: int| 0 <= k < i ==> #[trigger] target@[k] <= n,
            forall|k: int| 0 <= k < i ==> #[trigger] act@[k] == spec_action(orders@[k]),
            forall|k: int|
                0 <= k < i ==> #[trigger] area@[k] == spec_area(orders@[k].unit.province.index()),
            forall|k: int|
                0 <= k < i && orders@[k].kind is Move ==> #[trigger] dest_area@[k] == spec_area(
                    orders@[k].kind->Move_0.dest.index(),
                ),
            forall|k: int| 0 <= k < i ==> #[trigger] target@[k] == spec_target(orders@, k),
            forall|k: int|
                0 <= k < i ==> #[trigger] convoyed@[k] == (orders@[k].kind is Move
                    && orders@[k].unit.kind is Army && !spec_can_move(
                    orders@[k].unit,
                    orders@[k].kind->Move_0.dest,
                )),
        decreases n - i,
    {
        let o = &orders[i];
        let a = action_of(o);
        let here = o.unit.province.area().id();
        let (d, c) = match o.kind {
            OrderKind::Move(m) => {
                let needs = o.unit.is_army() && !can_unit_move_to(&o.unit, m.dest);
                (m.dest.area().id(), needs)
            },
            _ => (here, false),
        };
        let mut t: usize = n;
        if a == Action::Support || a == Action::Convoy {
            let mut j: usize = 0;
            while j < n
                invariant
                    n == orders@.len(),
                    i < n,
                    *o == orders@[i as int],
                    j <= n,
                    t <= n,
                    t == n ==> forall|m: int| 0 <= m < j ==> !#[trigger] is_target_candidate(
                        orders@,
                        i as int,
                        m,
                    ),
                    t < n ==> t < j && is_target_candidate(orders@, i as int, t as int) && forall|
                        m: int,
                    | 0 <= m < t ==> !#[trigger] is_target_candidate(orders@, i as int, m),
                decreases n - j,
            {
                if t == n && j != i && !orders[j].is_assumed() && !orders[j].is_invalid()
                    && o.is_matching_target(&orders[j]) {
                    t = j;
                }
                j = j + 1;
            }
            proof {
                lemma_first_target_skip(orders@, i as int, t as int);
            }
        }
        act.push(a);
        area.push(here);
        dest_area.push(d);
        convoyed.push(c);
        target.push(t);
        i = i + 1;
    }
    let mut i: usize = 0;
    while i < n
        invariant
            n == orders@.len(),
            i <= n,
            act@.len() == n,
            target@.len() == n,
            convoyed@.len() == n,
            forall|k: int| 0 <= k < n ==> #[trigger] act@[k] == spec_action(orders@[k]),
            forall|k: int| 0 <= k < n ==> #[trigger] target@[k] == spec_target(orders@, k),
            forall|k: int| 0 <= k < i ==> #[trigger] convoyed@[k] == spec_convoyed(orders@, k),
            forall|k: int|
                i <= k < n ==> #[trigger] convoyed@[k] == (orders@[k].kind is Move
                    && orders@[k].unit.kind is Army && !spec_can_move(
                    orders@[k].unit,
                    orders@[k].kind->Move_0.dest,
                )),
        decreases n - i,
    {
        if act[i] == Action::Move && orders[i].unit.is_army() && !convoyed[i] {
            let mut own_convoy = false;
            let mut c: usize = 0;
            while c < n
                invariant
                    n == orders@.len(),
                    c <= n,
                    i < n,
                    act@.len() == n,
                    target@.len() == n,
                    forall|k: int| 0 <= k < n ==> #[trigger] act@[k] == spec_action(orders@[k]),
                    forall|k: int| 0 <= k < n ==> #[trigger] target@[k] == spec_target(orders@, k),
                    own_convoy == exists|x: int|
                        0 <= x < c && spec_action(orders@[x]) == Action::Convoy && #[trigger] spec_target(
                            orders@,
                            x,
                        ) == i && orders@[x].unit.power == orders@[i as int].unit.power,
                decreases n - c,
            {
                if act[c] == Action::Convoy && target[c] == i && orders[c].unit.power
                    == orders[i].unit.power {
                    own_convoy = true;
                }
                c = c + 1;
            }
            if own_convoy {
                convoyed.set(i, true);
            }
        }
        i = i + 1;
    }
    Board { orders: crate::validation::copy_orders(orders), act, area, dest_area, convoyed, target }
}

/// Fresh decisions for `n` orders: none taken, none blocked.
pub(crate) fn new_decisions(n: usize) -> (d: Decisions)
    ensures
        d.wf(n as nat),
        d.deps@.len() == 0,
        forall|k: int| 0 <= k < n ==> #[trigger] d.state@[k] == DecisionState::Unresolved,
        forall|k: int| 0 <= k < n ==> !#[trigger] d.blocked@[k],
        forall|k: int| 0 <= k < n ==> !#[trigger] d.res@[k],
{
    let mut state: Vec<DecisionState> = Vec::new();
    let mut res: Vec<bool> = Vec::new();
    let mut blocked: Vec<bool> = Vec::new();
    let mut i: usize = 0;
    while i < n
        invariant
            i <= n,
            state@.len() == i,
            res@.len() == i,
            blocked@.len() == i,
            forall|k: int| 0 <= k < i ==> #[trigger] state@[k] == DecisionState::Unresolved,
            forall|k: int| 0 <= k < i ==> !#[trigger] blocked@[k],
            forall|k: int| 0 <= k < i ==> !#[trigger] res@[k],
        decreases n - i,
    {
        state.push(DecisionState::Unresolved);
        res.push(false);
        blocked.push(false);
        i = i + 1;
    }
    Decisions { state, res, blocked, deps: Vec::new() }
}

/// The first order whose unit stands on the province at `area`, if any.
pub(crate) fn occupant(b: &Board, area: u8) -> (r: Option<usize>)
    requires
        b.wf(),
    ensures
        match r {
            Some(o) => o < b.len() && b.area@[o as int] == area && forall|k: int|
                0 <= k < o ==> b.area@[k] != area,
            None => forall|k: int| 0 <= k < b.len() ==> b.area@[k] != area,
        },
        match r {
            Some(o) => spec_occupant(b, area as int) == Some(o as int),
            None => spec_occupant(b, area as int) is None,
        },
{
    let n = b.orders.len();
    let mut i: usize = 0;
    while i < n
        invariant
            b.wf(),
            n == b.len(),
            i <= n,
            forall|k: int| 0 <= k < i ==> b.area@[k] != area,
        decreases n - i,
    {
        if b.area[i] == area {
            proof {
                let c = choose|k: int|
                    0 <= k < b.len() && b.area@[k] == area && forall|j: int|
                        0 <= j < k ==> #[trigger] b.area@[j] != area;
                assert(c == i) by {
                    if c < i {
                    } else if c > i {
                        assert(b.area@[i as int] != area);
                    }
                }
            }
            return Some(i);
        }
        i = i + 1;
    }
    None
}

/// The move that goes the opposite way of the move `i` (both without convoy), if any.
pub(crate) fn head_to_head(b: &Board, i: usize) -> (r: Option<usize>)
    requires
        b.wf(),
        i < b.len(),
    ensures
        match r {
            Some(j) => j < b.len() && j != i && b.act@[j as int] == Action::Move
                && b.act@[i as int] == Action::Move && !b.convoyed@[i as int]
                && !b.convoyed@[j as int] && b.dest_area@[j as int] == b.area@[i as int]
                && b.area@[j as int] == b.dest_area@[i as int],
            None => true,
        },
        match r {
            Some(j) => spec_head_to_head(b, i as int) == Some(j as int),
            None => spec_head_to_head(b, i as int) is None,
        },
{
    if b.act[i] != Action::Move || b.convoyed[i] {
        return None;
    }
    let n = b.orders.len();
    let mut j: usize = 0;
    while j < n
        invariant
            b.wf(),
            n == b.len(),
            j <= n,
            i < n,
            b.act@[i as int] == Action::Move,
            !b.convoyed@[i as int],
            forall|k: int| 0 <= k < j ==> !#[trigger] is_head_to_head(b, i as int, k),
        decreases n - j,
    {
        if j != i && b.act[j] == Action::Move && !b.convoyed[j] && b.dest_area[j] == b.area[i]
            && b.area[j] == b.dest_area[i] {
            proof {
                assert(is_head_to_head(b, i as int, j as int));
                let c = choose|x: int|
                    0 <= x < b.len() && is_head_to_head(b, i as int, x) && forall|k: int|
                        0 <= k < x ==> !#[trigger] is_head_to_head(b, i as int, k);
                assert(c == j) by {
                    if c < j {
                    } else if c > j {
                    }
                }
            }
            return Some(j);
        }
        j = j + 1;
    }
    None
}

fn deps_contains(d: &Decisions, nr: usize) -> (r: bool)
    ensures
        r == d.deps@.contains(nr),
{
    let mut k: usize = 0;
    while k < d.deps.len()
        invariant
            k <= d.deps@.len(),
            forall|j: int| 0 <= j < k ==> d.deps@[j] != nr,
        decreases d.deps@.len() - k,
    {
        if d.deps[k] == nr {
            return true;
        }
        k = k + 1;
    }
    false
}

/// Forgets the guesses in the dependency list from `from` on.
fn unwind(d: &mut Decisions, from: usize, n: usize)
    requires
        old(d).wf(n as nat),
    ensures
        final(d).wf(n as nat),
        final(d).deps@.len() <= from,
        final(d).deps@ == old(d).deps@.take(
            if from < old(d).deps@.len() {
                from as int
            } else {
                old(d).deps@.len() as int
            },
        ),
        final(d).res@ == old(d).res@,
        final(d).blocked@ == old(d).blocked@,
        forall|x: int|
            0 <= x < n ==> #[trigger] final(d).state@[x] == old(d).state@[x] || final(d).state@[x]
                == DecisionState::Unresolved,
        kept_settled(*old(d), *final(d)),
{
    while d.deps.len() > from
        invariant
            d.wf(n as nat),
            d.res@ == old(d).res@,
            d.blocked@ == old(d).blocked@,
            forall|x: int|
                0 <= x < n ==> #[trigger] d.state@[x] == old(d).state@[x] || d.state@[x]
                    == DecisionState::Unresolved,
            kept_settled(*old(d), *d),
            d.deps@.len() >= from ==> d.deps@ == old(d).deps@.take(d.deps@.len() as int),
            d.deps@.len() < from ==> d.deps@ == old(d).deps@,
            d.deps@.len() <= old(d).deps@.len(),
        decreases d.deps@.len(),
    {
        let k = d.deps.pop().unwrap();
        d.state.set(k, DecisionState::Unresolved);
        assert(d.deps@ =~= old(d).deps@.take(d.deps@.len() as int));
    }
    proof {
        if d.deps@.len() < from {
            assert(old(d).deps@.take(old(d).deps@.len() as int) =~= old(d).deps@);
        }
    }
}

/// Whether the order `s` is a support given to the order `i`, counted when
/// `exclude` leaves its power in.
pub open spec fn gives_support(
    b: &Board,
    res: Seq<bool>,
    s: int,
    i: int,
    exclude: Option<Power>,
) -> bool {
    &&& b.act@[s] == Action::Support
    &&& b.target@[s] == i
    &&& res[s]
    &&& match exclude {
        Some(p) => b.orders@[s].unit.power != p,
        None => true,
    }
}

/// Number of the orders among the first `n` that give support to the order `i`.
pub open spec fn given_count(
    b: &Board,
    res: Seq<bool>,
    i: int,
    exclude: Option<Power>,
    n: int,
) -> nat
    decreases n,
{
    if n <= 0 {
        0
    } else {
        given_count(b, res, i, exclude, n - 1) + if gives_support(b, res, n - 1, i, exclude) {
            1nat
        } else {
            0nat
        }
    }
}

/// Whether every support of the order `i` is decided or being guessed.
pub(crate) open spec fn supports_decided(b: &Board, state: Seq<DecisionState>, i: int) -> bool {
    forall|x: int|
        0 <= x < b.len() && b.act@[x] == Action::Support && b.target@[x] == i ==> #[trigger] state[x]
            != DecisionState::Unresolved
}

/// Whether `a` and `b` hold the same decisions.
pub(crate) open spec fn unchanged(a: Decisions, b: Decisions) -> bool {
    &&& a.state@ == b.state@
    &&& a.res@ == b.res@
    &&& a.blocked@ == b.blocked@
    &&& a.deps@ == b.deps@
}

/// Every move left standing in `a` is still left standing in `b`.
pub(crate) open spec fn blocked_kept(a: Decisions, b: Decisions) -> bool {
    &&& a.blocked@.len() == b.blocked@.len()
    &&& forall|m: int| 0 <= m < a.blocked@.len() && #[trigger] a.blocked@[m] ==> b.blocked@[m]
}

/// Number of the orders among the first `n` that are valid supports of the order `i`.
pub(crate) open spec fn support_slots(b: &Board, i: int, n: int) -> nat
    decreases n,
{
    if n <= 0 {
        0
    } else {
        support_slots(b, i, n - 1) + if b.act@[n - 1] == Action::Support && b.target@[n - 1] == i {
            1nat
        } else {
            0nat
        }
    }
}

/// There are no more supports of an order than orders.
proof fn lemma_support_slots_bound(b: &Board, i: int, n: int)
    requires
        0 <= n,
    ensures
        support_slots(b, i, n) <= n,
    decreases n,
{
    if n > 0 {
        lemma_support_slots_bound(b, i, n - 1);
    }
}

/// Whether `marks` are waters of convoys that carry the move `k`, along which it reaches its destination.
pub(crate) open spec fn route_through(b: &Board, k: int, marks: Seq<bool>) -> bool {
    &&& marks.len() == PROVINCE_COUNT
    &&& forall|w: int|
        0 <= w < PROVINCE_COUNT && #[trigger] marks[w] ==> exists|c: int|
            0 <= c < b.len() && carries(b, c, k) && b.orders@[c].unit.province.index() == w
    &&& match b.orders@[k].kind {
        OrderKind::Move(m) => spec_reachable_by_sea(b.orders@[k].unit.province, m.dest, marks),
        _ => false,
    }
}

/// Whether the move `k` goes into the province at `area` and is not exempted for the support `s`.
pub(crate) open spec fn may_dislodge(b: &Board, area: int, s: int, k: int) -> bool {
    b.act@[k] == Action::Move && b.dest_area@[k] == area && !(s < b.len()
        && spec_convoy_attack_exempt(b, s, k))
}

/// The province that the move supported by `s` goes to (none of the map when it supports no move).
pub open spec fn supported_destination(b: &Board, s: int) -> int {
    let t = b.target@[s] as int;
    if t < b.len() && b.act@[t] == Action::Move {
        b.dest_area@[t] as int
    } else {
        PROVINCE_COUNT as int
    }
}

/// Whether the move `k`, which does not go by convoy, attacks the support `s`
/// in a way that cuts it, unless the move is left standing.
pub(crate) open spec fn cuts_unless_standing(b: &Board, s: int, k: int) -> bool {
    &&& b.act@[k] == Action::Move
    &&& b.dest_area@[k] == b.area@[s]
    &&& b.orders@[k].unit.power != b.orders@[s].unit.power
    &&& b.area@[k] != supported_destination(b, s)
    &&& !spec_convoy_attack_exempt(b, s, k)
    &&& !b.convoyed@[k]
}

/// Whether the destination of the move `i` holds a unit of its own power that does not move.
pub(crate) open spec fn own_unit_stays_at_destination(b: &Board, i: int) -> bool {
    match spec_occupant(b, b.dest_area@[i] as int) {
        Some(o) => b.act@[o] != Action::Move && b.orders@[o].unit.power == b.orders@[i].unit.power,
        None => false,
    }
}

/// Whether a convoy takes part in the dependency list from position `from` on.
pub(crate) open spec fn cycle_has_convoy(b: &Board, deps: Seq<usize>, from: int) -> bool {
    exists|j: int| from <= j < deps.len() && b.act@[#[trigger] deps[j] as int] == Action::Convoy
}

/// Whether the move `m` goes by convoy and a convoy of the dependency list from `from` on carries it.
pub(crate) open spec fn carried_in_cycle(b: &Board, deps: Seq<usize>, from: int, m: int) -> bool {
    b.convoyed@[m] && exists|j: int|
        from <= j < deps.len() && b.act@[#[trigger] deps[j] as int] == Action::Convoy && b.target@[deps[j] as int] == m
}

/// Whether `m` is in the dependency list from position `from` on.
pub(crate) open spec fn in_cycle(deps: Seq<usize>, from: int, m: int) -> bool {
    exists|j: int| from <= j < deps.len() && #[trigger] deps[j] == m
}

/// Whether the decision `x` is settled and takes no part in the dependency list.
pub(crate) open spec fn outside(d: Decisions, x: int) -> bool {
    d.state@[x] == DecisionState::Resolved && forall|j: int|
        0 <= j < d.deps@.len() ==> #[trigger] d.deps@[j] != x
}

/// From `a` to `c`, every decision settled outside the dependency list stays so, unchanged.
pub(crate) open spec fn kept_settled(a: Decisions, c: Decisions) -> bool {
    &&& a.res@.len() == c.res@.len()
    &&& a.state@.len() == c.state@.len()
    &&& forall|x: int|
        0 <= x < a.res@.len() && #[trigger] outside(a, x) ==> outside(c, x) && c.res@[x] == a.res@[x]
}

/// Whether nothing can stand in the way of the order `x`: a move that needs
/// no convoy into a province where no unit stands and no other move goes, or
/// a support or convoy into whose province no move goes.
pub(crate) open spec fn unopposed(b: &Board, x: int) -> bool {
    if b.act@[x] == Action::Move {
        &&& !b.convoyed@[x]
        &&& forall|k: int| 0 <= k < b.len() ==> #[trigger] b.area@[k] != b.dest_area@[x]
        &&& forall|k: int|
            0 <= k < b.len() && k != x && #[trigger] b.act@[k] == Action::Move ==> b.dest_area@[k]
                != b.dest_area@[x]
    } else if b.act@[x] == Action::Support || b.act@[x] == Action::Convoy {
        forall|k: int|
            0 <= k < b.len() && #[trigger] b.act@[k] == Action::Move ==> b.dest_area@[k] != b.area@[x]
    } else {
        false
    }
}

/// The decisions fit the board: only moves by convoy are left standing, and
/// an order that nothing opposes is never settled against.
pub(crate) open spec fn sound(b: &Board, d: Decisions) -> bool {
    &&& d.wf(b.len())
    &&& forall|m: int| 0 <= m < b.len() && #[trigger] d.blocked@[m] ==> b.convoyed@[m]
    &&& forall|x: int|
        0 <= x < b.len() && #[trigger] unopposed(b, x) && d.state@[x] == DecisionState::Resolved
            ==> d.res@[x]
}

/// From `a` to `c`, an order that nothing opposes keeps a decision in its
/// favour, and is guessed against in `c` only where it already was in `a`.
pub(crate) open spec fn steady(b: &Board, a: Decisions, c: Decisions) -> bool {
    forall|x: int|
        0 <= x < b.len() && #[trigger] unopposed(b, x) ==> (a.res@[x] ==> c.res@[x]) && (
        c.state@[x] == DecisionState::Guessing && !c.res@[x] ==> a.state@[x]
            == DecisionState::Guessing && !a.res@[x])
}

/// Whether no valid support refers to the order `i`.
pub(crate) open spec fn no_supports(b: &Board, i: int) -> bool {
    forall|s: int| 0 <= s < b.len() ==> !(#[trigger] b.act@[s] == Action::Support && b.target@[s] == i)
}

/// Whether the move `x` must bounce without anything else being decided: it
/// needs no convoy and has no support, its destination is empty, and another
/// move goes there, each such move without convoy and without support.
pub(crate) open spec fn plain_bounce(b: &Board, x: int) -> bool {
    &&& b.act@[x] == Action::Move
    &&& !b.convoyed@[x]
    &&& no_supports(b, x)
    &&& forall|k: int| 0 <= k < b.len() ==> #[trigger] b.area@[k] != b.dest_area@[x]
    &&& exists|k: int|
        0 <= k < b.len() && k != x && #[trigger] b.act@[k] == Action::Move && b.dest_area@[k]
            == b.dest_area@[x]
    &&& forall|k: int|
        0 <= k < b.len() && k != x && #[trigger] b.act@[k] == Action::Move && b.dest_area@[k]
            == b.dest_area@[x] ==> !b.convoyed@[k] && no_supports(b, k)
}

/// Whether the move `x` and the only unit standing where it goes swap places
/// without convoy and without support: each holds the other off.
pub(crate) open spec fn plain_swap(b: &Board, x: int) -> bool {
    &&& b.act@[x] == Action::Move
    &&& !b.convoyed@[x]
    &&& no_supports(b, x)
    &&& exists|y: int|
        0 <= y < b.len() && y != x && #[trigger] b.act@[y] == Action::Move && !b.convoyed@[y]
            && b.dest_area@[y] == b.area@[x] && b.area@[y] == b.dest_area@[x] && no_supports(b, y)
            && forall|k: int| 0 <= k < b.len() && #[trigger] b.area@[k] == b.dest_area@[x] ==> k == y
}

/// Whether the move `x` goes without convoy and without support against the
/// only unit where it goes, which stands still and has no support either.
pub(crate) open spec fn plain_repulse(b: &Board, x: int) -> bool {
    &&& b.act@[x] == Action::Move
    &&& !b.convoyed@[x]
    &&& no_supports(b, x)
    &&& exists|o: int|
        0 <= o < b.len() && #[trigger] b.area@[o] == b.dest_area@[x] && b.act@[o] != Action::Move
            && no_supports(b, o) && forall|k: int|
            0 <= k < b.len() && #[trigger] b.area@[k] == b.dest_area@[x] ==> k == o
}

/// Whether the move `x` fails whatever else is decided.
pub(crate) open spec fn plain_failure(b: &Board, x: int) -> bool {
    plain_bounce(b, x) || plain_swap(b, x) || plain_repulse(b, x)
}

/// Every move that fails whatever else is decided is decided to fail, is
/// not being guessed and takes no part in the dependency list.
pub(crate) open spec fn calm(b: &Board, d: Decisions) -> bool {
    forall|x: int|
        0 <= x < b.len() && #[trigger] plain_failure(b, x) ==> !d.res@[x] && d.state@[x]
            != DecisionState::Guessing && forall|j: int|
            0 <= j < d.deps@.len() ==> #[trigger] d.deps@[j] != x
}

/// Number of the supports given to the order `i`, leaving out those of `exclude`.
fn count_supports(b: &Board, d: &mut Decisions, i: usize, exclude: Option<Power>, fuel: u64) -> (r: u64)
    requires
        b.wf(),
        old(d).wf(b.len()),
        sound(b, *old(d)),
        i < b.len(),
    ensures
        final(d).wf(b.len()),
        sound(b, *final(d)),
        steady(b, *old(d), *final(d)),
        kept_settled(*old(d), *final(d)),
        calm(b, *old(d)) ==> calm(b, *final(d)),
        r <= b.len(),
        r <= support_slots(b, i as int, b.len() as int),
        blocked_kept(*old(d), *final(d)),
        fuel == 0 ==> r == 0 && unchanged(*old(d), *final(d)),
        no_supports(b, i as int) ==> r == 0 && unchanged(*old(d), *final(d)),
        fuel > 0 && supports_decided(b, old(d).state@, i as int) ==> r == given_count(
            b,
            old(d).res@,
            i as int,
            exclude,
            b.len() as int,
        ) && final(d).res@ == old(d).res@ && final(d).state@ == old(d).state@,
    decreases fuel, 0u8,
{
    let n = b.orders.len();
    let mut count: u64 = 0;
    let mut s: usize = 0;
    while s < n
        invariant
            b.wf(),
            d.wf(b.len()),
            sound(b, *d),
            steady(b, *old(d), *d),
            kept_settled(*old(d), *d),
            calm(b, *old(d)) ==> calm(b, *d),
            n == b.len(),
            s <= n,
            count <= s,
            i < n,
            count <= support_slots(b, i as int, s as int),
            blocked_kept(*old(d), *d),
            fuel == 0 ==> count == 0 && unchanged(*old(d), *d),
            no_supports(b, i as int) ==> count == 0 && unchanged(*old(d), *d),
            fuel > 0 && supports_decided(b, old(d).state@, i as int) ==> count == given_count(
                b,
                old(d).res@,
                i as int,
                exclude,
                s as int,
            ) && d.res@ == old(d).res@ && d.state@ == old(d).state@,
        decreases n - s,
    {
        if b.act[s] == Action::Support && b.target[s] == i {
            let counted = match exclude {
                Some(p) => b.orders[s].unit.power != p,
                None => true,
            };
            if counted && fuel > 0 {
                if resolve(b, d, s, fuel - 1) {
                    count = count + 1;
                }
            }
        }
        s = s + 1;
    }
    count
}

/// Whether the move `k` has a way to its destination: directly, or through
/// convoys that stay in place (and it was not left standing by a convoy paradox).
fn path_ok(b: &Board, d: &mut Decisions, k: usize, fuel: u64) -> (r: bool)
    requires
        b.wf(),
        old(d).wf(b.len()),
        sound(b, *old(d)),
        k < b.len(),
    ensures
        final(d).wf(b.len()),
        sound(b, *final(d)),
        steady(b, *old(d), *final(d)),
        kept_settled(*old(d), *final(d)),
        calm(b, *old(d)) ==> calm(b, *final(d)),
        blocked_kept(*old(d), *final(d)),
        old(d).blocked@[k as int] ==> !r && unchanged(*old(d), *final(d)),
        !old(d).blocked@[k as int] && !b.convoyed@[k as int] ==> r && unchanged(*old(d), *final(d)),
        b.convoyed@[k as int] && fuel == 0 ==> !r && unchanged(*old(d), *final(d)),
        r && b.convoyed@[k as int] ==> exists|marks: Seq<bool>| #[trigger] route_through(b, k as int, marks),
    decreases fuel, 0u8,
{
    if d.blocked[k] {
        return false;
    }
    if !b.convoyed[k] {
        return true;
    }
    if fuel == 0 {
        return false;
    }
    let n = b.orders.len();
    let mut marks: Vec<bool> = Vec::new();
    let mut w: u8 = 0;
    while w < PROVINCE_COUNT
        invariant
            w <= PROVINCE_COUNT,
            marks@.len() == w,
            forall|x: int| 0 <= x < w ==> !marks@[x],
        decreases PROVINCE_COUNT - w,
    {
        marks.push(false);
        w = w + 1;
    }
    let mut c: usize = 0;
    while c < n
        invariant
            b.wf(),
            d.wf(b.len()),
            sound(b, *d),
            steady(b, *old(d), *d),
            kept_settled(*old(d), *d),
            calm(b, *old(d)) ==> calm(b, *d),
            n == b.len(),
            c <= n,
            k < n,
            fuel > 0,
            marks@.len() == PROVINCE_COUNT,
            blocked_kept(*old(d), *d),
            forall|x: int|
                0 <= x < PROVINCE_COUNT && #[trigger] marks@[x] ==> exists|y: int|
                    0 <= y < b.len() && carries(b, y, k as int) && b.orders@[y].unit.province.index() == x,
        decreases n - c,
    {
        if b.act[c] == Action::Convoy && b.target[c] == k {
            if resolve(b, d, c, fuel - 1) {
                let at = b.orders[c].unit.province.id();
                let ghost before = marks@;
                marks.set(at as usize, true);
                proof {
                    assert(carries(b, c as int, k as int));
                    assert forall|x: int| 0 <= x < PROVINCE_COUNT && #[trigger] marks@[x] implies exists|y: int|
                        0 <= y < b.len() && carries(b, y, k as int) && b.orders@[y].unit.province.index() == x by {
                        if x != at as int {
                            assert(before[x]);
                        }
                    }
                }
            }
        }
        c = c + 1;
    }
    let reached = match b.orders[k].kind {
        OrderKind::Move(m) => is_reachable_by_sea(b.orders[k].unit.province, m.dest, &marks),
        _ => false,
    };
    proof {
        if reached {
            assert(route_through(b, k as int, marks@));
        }
    }
    reached
}

/// Strength with which the move `i` attacks its destination.
fn attack_strength(b: &Board, d: &mut Decisions, i: usize, fuel: u64) -> (r: u64)
    requires
        b.wf(),
        old(d).wf(b.len()),
        sound(b, *old(d)),
        i < b.len(),
    ensures
        final(d).wf(b.len()),
        sound(b, *final(d)),
        steady(b, *old(d), *final(d)),
        kept_settled(*old(d), *final(d)),
        calm(b, *old(d)) ==> calm(b, *final(d)),
        r <= b.len() + 1,
        r <= 1 + support_slots(b, i as int, b.len() as int),
        blocked_kept(*old(d), *final(d)),
        old(d).blocked@[i as int] ==> r == 0 && unchanged(*old(d), *final(d)),
        own_unit_stays_at_destination(b, i as int) ==> r == 0,
        !old(d).blocked@[i as int] && !b.convoyed@[i as int] && spec_occupant(
            b,
            b.dest_area@[i as int] as int,
        ) is None ==> r >= 1,
        !old(d).blocked@[i as int] && !b.convoyed@[i as int] && spec_occupant(
            b,
            b.dest_area@[i as int] as int,
        ) is None && no_supports(b, i as int) ==> r == 1 && unchanged(*old(d), *final(d)),
        !old(d).blocked@[i as int] && !b.convoyed@[i as int] && no_supports(b, i as int)
            && spec_head_to_head(b, i as int) is Some && spec_occupant(b, b.dest_area@[i as int] as int)
            == spec_head_to_head(b, i as int) ==> r <= 1 && unchanged(*old(d), *final(d)),
        !old(d).blocked@[i as int] && !b.convoyed@[i as int] && no_supports(b, i as int) && spec_occupant(
            b,
            b.dest_area@[i as int] as int,
        ) is Some && b.act@[spec_occupant(b, b.dest_area@[i as int] as int)->0] != Action::Move ==> r <= 1
            && unchanged(*old(d), *final(d)),
        !old(d).blocked@[i as int] && !b.convoyed@[i as int] && spec_occupant(
            b,
            b.dest_area@[i as int] as int,
        ) is None && fuel > 0 && supports_decided(b, old(d).state@, i as int) ==> r == 1 + given_count(
            b,
            old(d).res@,
            i as int,
            None,
            b.len() as int,
        ),
    decreases fuel, 1u8,
{
    if !path_ok(b, d, i, fuel) {
        return 0;
    }
    let h2h = head_to_head(b, i);
    match occupant(b, b.dest_area[i]) {
        None => 1 + count_supports(b, d, i, None, fuel),
        Some(o) => {
            let mut away = false;
            if b.act[o] == Action::Move && h2h != Some(o) && fuel > 0 {
                away = resolve(b, d, o, fuel - 1);
            }
            if away {
                1 + count_supports(b, d, i, None, fuel)
            } else if b.orders[o].unit.power == b.orders[i].unit.power {
                0
            } else {
                1 + count_supports(b, d, i, Some(b.orders[o].unit.power), fuel)
            }
        },
    }
}

/// Strength with which the province at `area` is held.
fn hold_strength(b: &Board, d: &mut Decisions, area: u8, fuel: u64) -> (r: u64)
    requires
        b.wf(),
        old(d).wf(b.len()),
        sound(b, *old(d)),
    ensures
        final(d).wf(b.len()),
        sound(b, *final(d)),
        steady(b, *old(d), *final(d)),
        kept_settled(*old(d), *final(d)),
        calm(b, *old(d)) ==> calm(b, *final(d)),
        r <= b.len() + 1,
        blocked_kept(*old(d), *final(d)),
        match spec_occupant(b, area as int) {
            None => r == 0 && unchanged(*old(d), *final(d)),
            Some(o) => if b.act@[o] == Action::Move {
                r <= 1
            } else {
                &&& 1 <= r <= 1 + support_slots(b, o, b.len() as int)
                &&& fuel == 0 ==> r == 1
                &&& no_supports(b, o) ==> r == 1 && unchanged(*old(d), *final(d))
                &&& fuel > 0 && supports_decided(b, old(d).state@, o) ==> r == 1 + given_count(
                    b,
                    old(d).res@,
                    o,
                    None,
                    b.len() as int,
                )
            },
        },
    decreases fuel, 1u8,
{
    match occupant(b, area) {
        None => 0,
        Some(o) => {
            if b.act[o] == Action::Move {
                if fuel > 0 && resolve(b, d, o, fuel - 1) {
                    0
                } else {
                    1
                }
            } else {
                1 + count_supports(b, d, o, None, fuel)
            }
        },
    }
}

/// Strength with which the move `k` keeps other moves out of its destination.
fn prevent_strength(b: &Board, d: &mut Decisions, k: usize, fuel: u64) -> (r: u64)
    requires
        b.wf(),
        old(d).wf(b.len()),
        sound(b, *old(d)),
        k < b.len(),
    ensures
        final(d).wf(b.len()),
        sound(b, *final(d)),
        steady(b, *old(d), *final(d)),
        kept_settled(*old(d), *final(d)),
        calm(b, *old(d)) ==> calm(b, *final(d)),
        r <= b.len() + 1,
        r <= 1 + support_slots(b, k as int, b.len() as int),
        blocked_kept(*old(d), *final(d)),
        old(d).blocked@[k as int] ==> r == 0 && unchanged(*old(d), *final(d)),
        !old(d).blocked@[k as int] && !b.convoyed@[k as int] && spec_head_to_head(b, k as int) is None
            ==> r >= 1,
        !old(d).blocked@[k as int] && !b.convoyed@[k as int] && spec_occupant(
            b,
            b.dest_area@[k as int] as int,
        ) is None && no_supports(b, k as int) ==> r == 1 && unchanged(*old(d), *final(d)),
        !old(d).blocked@[k as int] && !b.convoyed@[k as int] && spec_head_to_head(b, k as int) is None
            && fuel > 0 && supports_decided(b, old(d).state@, k as int) ==> r == 1 + given_count(
            b,
            old(d).res@,
            k as int,
            None,
            b.len() as int,
        ),
    decreases fuel, 1u8,
{
    if !path_ok(b, d, k, fuel) {
        return 0;
    }
    match head_to_head(b, k) {
        Some(m) => {
            if fuel > 0 && resolve(b, d, m, fuel - 1) {
                return 0;
            }
        },
        None => {},
    }
    1 + count_supports(b, d, k, None, fuel)
}

/// Whether the order `c` is a convoy that carries the move `k`.
pub open spec fn carries(b: &Board, c: int, k: int) -> bool {
    b.act@[c] == Action::Convoy && b.target@[c] == k
}

/// The waters of the convoys that carry the move `k`, leaving out those in the province at `a`.
pub open spec fn waters_besides(b: &Board, k: int, a: int) -> Seq<bool> {
    Seq::new(
        PROVINCE_COUNT as nat,
        |w: int|
            exists|c: int|
                0 <= c < b.len() && #[trigger] carries(b, c, k) && b.area@[c] != a
                    && b.orders@[c].unit.province.index() == w,
    )
}

/// Whether the move `k` goes by convoy through a fleet in the province where
/// the move supported by `s` goes, and no convoy route is left without that fleet.
pub open spec fn spec_convoy_attack_exempt(b: &Board, s: int, k: int) -> bool {
    let n = b.len() as int;
    let t = b.target@[s] as int;
    if !b.convoyed@[k] || t >= n || b.act@[t] != Action::Move {
        false
    } else if !exists|c: int| 0 <= c < n && #[trigger] carries(b, c, k) && b.area@[c] == b.dest_area@[t] {
        false
    } else {
        match b.orders@[k].kind {
            OrderKind::Move(m) => !spec_reachable_by_sea(
                b.orders@[k].unit.province,
                m.dest,
                waters_besides(b, k, b.dest_area@[t] as int),
            ),
            _ => false,
        }
    }
}

/// Whether the move `k` goes by convoy through a fleet that stands where the
/// move supported by `s` goes and without which no convoy route remains:
/// such an attack neither cuts the support nor takes it away by dislodging its unit.
pub(crate) fn convoy_attack_exempt(b: &Board, s: usize, k: usize) -> (r: bool)
    requires
        b.wf(),
        s < b.len(),
        k < b.len(),
    ensures
        r == spec_convoy_attack_exempt(b, s as int, k as int),
{
    let n = b.orders.len();
    let t = b.target[s];
    if !b.convoyed[k] || t >= n || b.act[t] != Action::Move {
        return false;
    }
    let mut through = false;
    let mut marks: Vec<bool> = Vec::new();
    let mut w: u8 = 0;
    while w < PROVINCE_COUNT
        invariant
            w <= PROVINCE_COUNT,
            marks@.len() == w,
            forall|x: int| 0 <= x < w ==> !marks@[x],
        decreases PROVINCE_COUNT - w,
    {
        marks.push(false);
        w = w + 1;
    }
    let mut c: usize = 0;
    while c < n
        invariant
            b.wf(),
            n == b.len(),
            c <= n,
            t < n,
            k < n,
            t == b.target@[s as int],
            marks@.len() == PROVINCE_COUNT,
            through == exists|y: int|
                0 <= y < c && #[trigger] carries(b, y, k as int) && b.area@[y] == b.dest_area@[t as int],
            forall|x: int|
                0 <= x < PROVINCE_COUNT ==> marks@[x] == exists|y: int|
                    0 <= y < c && #[trigger] carries(b, y, k as int) && b.area@[y] != b.dest_area@[t as int]
                        && b.orders@[y].unit.province.index() == x,
        decreases n - c,
    {
        let ghost before = marks@;
        if b.act[c] == Action::Convoy && b.target[c] == k {
            if b.area[c] == b.dest_area[t] {
                through = true;
            } else {
                let at = b.orders[c].unit.province.id();
                marks.set(at as usize, true);
            }
        }
        proof {
            let ct = carries(b, c as int, k as int);
            assert forall|x: int| 0 <= x < PROVINCE_COUNT implies marks@[x] == exists|y: int|
                0 <= y < c + 1 && #[trigger] carries(b, y, k as int) && b.area@[y] != b.dest_area@[t as int]
                    && b.orders@[y].unit.province.index() == x by {
                if ct && b.area@[c as int] != b.dest_area@[t as int] && b.orders@[c as int].unit.province.index() == x {
                    assert(carries(b, c as int, k as int));
                }
            }
        }
        c = c + 1;
    }
    if !through {
        return false;
    }
    assert(marks@ =~= waters_besides(b, k as int, b.dest_area@[t as int] as int));
    match b.orders[k].kind {
        OrderKind::Move(m) => !is_reachable_by_sea(b.orders[k].unit.province, m.dest, &marks),
        _ => false,
    }
}

/// Whether some move into the province at `area` succeeds, leaving out the
/// moves exempted for the support `s` (if any).
fn dislodged_at(b: &Board, d: &mut Decisions, area: u8, s: usize, fuel: u64) -> (r: bool)
    requires
        b.wf(),
        old(d).wf(b.len()),
        sound(b, *old(d)),
    ensures
        final(d).wf(b.len()),
        sound(b, *final(d)),
        steady(b, *old(d), *final(d)),
        kept_settled(*old(d), *final(d)),
        calm(b, *old(d)) ==> calm(b, *final(d)),
        blocked_kept(*old(d), *final(d)),
        fuel == 0 ==> !r && unchanged(*old(d), *final(d)),
        r ==> exists|k: int| 0 <= k < b.len() && #[trigger] may_dislodge(b, area as int, s as int, k),
    decreases fuel, 0u8,
{
    if fuel == 0 {
        return false;
    }
    let n = b.orders.len();
    let mut k: usize = 0;
    while k < n
        invariant
            b.wf(),
            d.wf(b.len()),
            sound(b, *d),
            steady(b, *old(d), *d),
            kept_settled(*old(d), *d),
            calm(b, *old(d)) ==> calm(b, *d),
            n == b.len(),
            k <= n,
            fuel > 0,
            blocked_kept(*old(d), *d),
        decreases n - k,
    {
        if b.act[k] == Action::Move && b.dest_area[k] == area && !(s < n && convoy_attack_exempt(
            b,
            s,
            k,
        )) {
            if resolve(b, d, k, fuel - 1) {
                assert(may_dislodge(b, area as int, s as int, k as int));
                return true;
            }
        }
        k = k + 1;
    }
    false
}

/// Decides the order `nr` from the current guesses of the others.
fn adjudicate(b: &Board, d: &mut Decisions, nr: usize, fuel: u64) -> (r: bool)
    requires
        b.wf(),
        old(d).wf(b.len()),
        sound(b, *old(d)),
        nr < b.len(),
    ensures
        final(d).wf(b.len()),
        sound(b, *final(d)),
        steady(b, *old(d), *final(d)),
        kept_settled(*old(d), *final(d)),
        calm(b, *old(d)) ==> calm(b, *final(d)),
        blocked_kept(*old(d), *final(d)),
        b.act@[nr as int] != Action::Move && b.act@[nr as int] != Action::Support && b.act@[nr as int]
            != Action::Convoy ==> r && unchanged(*old(d), *final(d)),
        b.act@[nr as int] == Action::Move && old(d).blocked@[nr as int] ==> !r,
        b.act@[nr as int] == Action::Move && r ==> !own_unit_stays_at_destination(b, nr as int),
        b.act@[nr as int] == Action::Support && r ==> forall|k: int|
            0 <= k < b.len() && #[trigger] cuts_unless_standing(b, nr as int, k) ==> final(d).blocked@[k],
        unopposed(b, nr as int) ==> r,
        plain_failure(b, nr as int) ==> !r && unchanged(*old(d), *final(d)),
    decreases fuel, 2u8,
{
    let n = b.orders.len();
    match b.act[nr] {
        Action::Move => {
            proof {
                if plain_repulse(b, nr as int) {
                    let o = choose|o: int|
                        0 <= o < b.len() && #[trigger] b.area@[o] == b.dest_area@[nr as int] && b.act@[o]
                            != Action::Move && no_supports(b, o) && forall|k: int|
                            0 <= k < b.len() && #[trigger] b.area@[k] == b.dest_area@[nr as int] ==> k == o;
                    assert(spec_occupant(b, b.dest_area@[nr as int] as int) == Some(o));
                    assert forall|j: int| 0 <= j < b.len() implies !#[trigger] is_head_to_head(b, nr as int, j) by {
                        if is_head_to_head(b, nr as int, j) {
                            assert(b.area@[j] == b.dest_area@[nr as int]);
                        }
                    }
                    assert(spec_head_to_head(b, nr as int) is None);
                }
                if plain_swap(b, nr as int) {
                    let y = choose|y: int|
                        0 <= y < b.len() && y != nr && #[trigger] b.act@[y] == Action::Move
                            && !b.convoyed@[y] && b.dest_area@[y] == b.area@[nr as int] && b.area@[y]
                            == b.dest_area@[nr as int] && no_supports(b, y) && forall|k: int|
                            0 <= k < b.len() && #[trigger] b.area@[k] == b.dest_area@[nr as int] ==> k == y;
                    assert(is_head_to_head(b, nr as int, y));
                    assert(spec_head_to_head(b, nr as int) == Some(y));
                    assert(spec_occupant(b, b.dest_area@[nr as int] as int) == Some(y));
                }
            }
            let att = attack_strength(b, d, nr, fuel);
            if att == 0 {
                return false;
            }
            match head_to_head(b, nr) {
                Some(j) => {
                    let def = 1 + count_supports(b, d, j, None, fuel);
                    if att <= def {
                        return false;
                    }
                },
                None => {
                    let hold = hold_strength(b, d, b.dest_area[nr], fuel);
                    if att <= hold {
                        return false;
                    }
                },
            }
            let mut k: usize = 0;
            while k < n
                invariant
                    b.wf(),
                    d.wf(b.len()),
                    sound(b, *d),
                    steady(b, *old(d), *d),
                    kept_settled(*old(d), *d),
                    calm(b, *old(d)) ==> calm(b, *d),
                    n == b.len(),
                    k <= n,
                    nr < n,
                    b.act@[nr as int] == Action::Move,
                    blocked_kept(*old(d), *d),
                    !plain_swap(b, nr as int),
                    !plain_repulse(b, nr as int),
                    plain_bounce(b, nr as int) ==> att == 1 && unchanged(*old(d), *d) && forall|j: int|
                        0 <= j < k && j != nr && #[trigger] b.act@[j] == Action::Move ==> b.dest_area@[j]
                            != b.dest_area@[nr as int],
                decreases n - k,
            {
                if k != nr && b.act[k] == Action::Move && b.dest_area[k] == b.dest_area[nr] {
                    let prevent = prevent_strength(b, d, k, fuel);
                    if att <= prevent {
                        return false;
                    }
                }
                k = k + 1;
            }
            true
        },
        Action::Support => {
            let here = b.area[nr];
            let t = b.target[nr];
            let from_target = if t < n && b.act[t] == Action::Move {
                b.dest_area[t]
            } else {
                PROVINCE_COUNT
            };
            let mut k: usize = 0;
            while k < n
                invariant
                    b.wf(),
                    d.wf(b.len()),
                    sound(b, *d),
                    steady(b, *old(d), *d),
                    kept_settled(*old(d), *d),
                    calm(b, *old(d)) ==> calm(b, *d),
                    n == b.len(),
                    k <= n,
                    nr < n,
                    here == b.area@[nr as int],
                    b.act@[nr as int] == Action::Support,
                    from_target == supported_destination(b, nr as int),
                    blocked_kept(*old(d), *d),
                    forall|j: int|
                        0 <= j < k && #[trigger] cuts_unless_standing(b, nr as int, j) ==> d.blocked@[j],
                decreases n - k,
            {
                if b.act[k] == Action::Move && b.dest_area[k] == here && b.orders[k].unit.power
                    != b.orders[nr].unit.power && b.area[k] != from_target
                    && !convoy_attack_exempt(b, nr, k) {
                    if path_ok(b, d, k, fuel) {
                        return false;
                    }
                }
                k = k + 1;
            }
            !dislodged_at(b, d, here, nr, fuel)
        },
        Action::Convoy => !dislodged_at(b, d, b.area[nr], n, fuel),
        _ => true,
    }
}

/// Applies the backup rule to the cycle of guesses from `from` on in the
/// dependency list: when a convoy takes part in it, the moves by convoy that
/// depend on those convoys stand still (Szykman's rule); otherwise the moves
/// of the cycle all succeed (circular movement).
fn backup_rule(b: &Board, d: &mut Decisions, from: usize)
    requires
        b.wf(),
        old(d).wf(b.len()),
        sound(b, *old(d)),
    ensures
        final(d).wf(b.len()),
        sound(b, *final(d)),
        steady(b, *old(d), *final(d)),
        kept_settled(*old(d), *final(d)),
        calm(b, *old(d)) ==> calm(b, *final(d)),
        blocked_kept(*old(d), *final(d)),
        final(d).deps@ == old(d).deps@.take(
            if from < old(d).deps@.len() {
                from as int
            } else {
                old(d).deps@.len() as int
            },
        ),
        cycle_has_convoy(b, old(d).deps@, from as int) ==> final(d).res@ == old(d).res@ && forall|
            m: int,
        | 0 <= m < b.len() ==> #[trigger] final(d).blocked@[m] == (old(d).blocked@[m]
            || carried_in_cycle(b, old(d).deps@, from as int, m)),
        !cycle_has_convoy(b, old(d).deps@, from as int) ==> final(d).blocked@ == old(d).blocked@
            && forall|m: int|
            0 <= m < b.len() ==> #[trigger] final(d).res@[m] == (old(d).res@[m] || (in_cycle(
                old(d).deps@,
                from as int,
                m,
            ) && b.act@[m] == Action::Move)) && (in_cycle(old(d).deps@, from as int, m) && b.act@[m]
                == Action::Move ==> final(d).state@[m] == DecisionState::Resolved),
{
    let ghost od = *d;
    let n = b.orders.len();
    let mut has_convoy = false;
    let mut k: usize = from;
    while k < d.deps.len()
        invariant
            b.wf(),
            d.wf(b.len()),
            n == b.len(),
            *d == od,
            from <= k,
            has_convoy == exists|j: int|
                from <= j < k && j < od.deps@.len() && b.act@[#[trigger] od.deps@[j] as int]
                    == Action::Convoy,
        decreases d.deps@.len() - k,
    {
        if b.act[d.deps[k]] == Action::Convoy {
            has_convoy = true;
        }
        k = k + 1;
    }
    assert(has_convoy == cycle_has_convoy(b, od.deps@, from as int));
    if has_convoy {
        let mut k: usize = from;
        while k < d.deps.len()
            invariant
                b.wf(),
                d.wf(b.len()),
                n == b.len(),
                from <= k,
                d.deps@ == od.deps@,
                d.res@ == od.res@,
                d.state@ == od.state@,
                d.blocked@.len() == n,
                forall|m: int|
                    0 <= m < n ==> #[trigger] d.blocked@[m] == (od.blocked@[m] || (b.convoyed@[m]
                        && exists|j: int|
                        from <= j < k && j < od.deps@.len() && b.act@[#[trigger] od.deps@[j] as int]
                            == Action::Convoy && b.target@[od.deps@[j] as int] == m)),
            decreases d.deps@.len() - k,
        {
            let c = d.deps[k];
            if b.act[c] == Action::Convoy {
                let m = b.target[c];
                if m < n && b.convoyed[m] {
                    d.blocked.set(m, true);
                }
            }
            k = k + 1;
        }
        proof {
            assert(kept_settled(od, *d)) by {
                assert forall|x: int| 0 <= x < od.res@.len() && #[trigger] outside(od, x) implies outside(*d, x)
                    && d.res@[x] == od.res@[x] by {
                }
            }
        }
        unwind(d, from, n);
        proof {
            assert forall|m: int| 0 <= m < b.len() implies #[trigger] d.blocked@[m] == (od.blocked@[m]
                || carried_in_cycle(b, od.deps@, from as int, m)) by {
            }
        }
    } else {
        let mut k: usize = from;
        while k < d.deps.len()
            invariant
                b.wf(),
                d.wf(b.len()),
                n == b.len(),
                from <= k,
                d.deps@ == od.deps@,
                d.blocked@ == od.blocked@,
                forall|m: int|
                    0 <= m < n ==> #[trigger] d.state@[m] == od.state@[m] || (d.state@[m]
                        == DecisionState::Resolved && d.res@[m]),
                forall|m: int|
                    0 <= m < n && #[trigger] outside(od, m) ==> d.state@[m] == od.state@[m] && d.res@[m]
                        == od.res@[m],
                forall|m: int|
                    0 <= m < n ==> #[trigger] d.res@[m] == (od.res@[m] || (b.act@[m] == Action::Move
                        && exists|j: int| from <= j < k && j < od.deps@.len() && #[trigger] od.deps@[j] == m)),
                forall|m: int|
                    0 <= m < n && b.act@[m] == Action::Move && (exists|j: int|
                        from <= j < k && j < od.deps@.len() && #[trigger] od.deps@[j] == m)
                        ==> #[trigger] d.state@[m] == DecisionState::Resolved,
            decreases d.deps@.len() - k,
        {
            let c = d.deps[k];
            if b.act[c] == Action::Move {
                d.res.set(c, true);
                d.state.set(c, DecisionState::Resolved);
            }
            k = k + 1;
        }
        let ghost mid = *d;
        let mut kept: Vec<usize> = Vec::new();
        let mut k: usize = 0;
        while k < from && k < d.deps.len()
            invariant
                b.wf(),
                d.wf(b.len()),
                n == b.len(),
                *d == mid,
                k <= d.deps@.len(),
                k <= from,
                kept@ == d.deps@.take(k as int),
                forall|j: int| 0 <= j < kept@.len() ==> #[trigger] kept@[j] < n,
            decreases d.deps@.len() - k,
        {
            kept.push(d.deps[k]);
            k = k + 1;
            assert(kept@ =~= d.deps@.take(k as int));
        }
        let mut k: usize = from;
        while k < d.deps.len()
            invariant
                b.wf(),
                d.wf(b.len()),
                n == b.len(),
                d.deps@ == mid.deps@,
                d.res@ == mid.res@,
                d.blocked@ == mid.blocked@,
                forall|m: int|
                    0 <= m < n ==> #[trigger] d.state@[m] == mid.state@[m] || d.state@[m]
                        == DecisionState::Unresolved,
                forall|m: int|
                    0 <= m < n && mid.state@[m] == DecisionState::Resolved ==> #[trigger] d.state@[m]
                        == DecisionState::Resolved,
                forall|m: int|
                    0 <= m < n && #[trigger] outside(od, m) ==> d.state@[m] == mid.state@[m],
                mid.deps@ == od.deps@,
            decreases d.deps@.len() - k,
        {
            let c = d.deps[k];
            assert(c == od.deps@[k as int]);
            if d.state[c] != DecisionState::Resolved {
                d.state.set(c, DecisionState::Unresolved);
            }
            k = k + 1;
        }
        d.deps = kept;
        proof {
            assert forall|m: int| 0 <= m < b.len() implies #[trigger] d.res@[m] == (od.res@[m] || (
            in_cycle(od.deps@, from as int, m) && b.act@[m] == Action::Move)) && (in_cycle(
                od.deps@,
                from as int,
                m,
            ) && b.act@[m] == Action::Move ==> d.state@[m] == DecisionState::Resolved) by {
                if in_cycle(od.deps@, from as int, m) {
                    let j = choose|j: int| from <= j < od.deps@.len() && #[trigger] od.deps@[j] == m;
                    assert(mid.res@[m] == (od.res@[m] || b.act@[m] == Action::Move));
                }
            }
            if from < od.deps@.len() {
                assert(kept@ =~= od.deps@.take(from as int));
            } else {
                assert(kept@ =~= od.deps@.take(od.deps@.len() as int));
            }
            assert forall|x: int| 0 <= x < od.res@.len() && #[trigger] outside(od, x) implies outside(*d, x)
                && d.res@[x] == od.res@[x] by {
                assert forall|j: int| 0 <= j < d.deps@.len() implies #[trigger] d.deps@[j] != x by {
                    assert(d.deps@[j] == od.deps@[j]);
                }
            }
        }
    }
}

/// Resolves the decision of the order `nr` (whether a move succeeds, a
/// support is given, a convoy stays in place), guessing through cycles.
pub(crate) fn resolve(b: &Board, d: &mut Decisions, nr: usize, fuel: u64) -> (r: bool)
    requires
        b.wf(),
        old(d).wf(b.len()),
        sound(b, *old(d)),
        nr < b.len(),
    ensures
        final(d).wf(b.len()),
        sound(b, *final(d)),
        steady(b, *old(d), *final(d)),
        kept_settled(*old(d), *final(d)),
        calm(b, *old(d)) ==> calm(b, *final(d)),
        blocked_kept(*old(d), *final(d)),
        fuel == 0 || old(d).state@[nr as int] != DecisionState::Unresolved ==> r == old(d).res@[nr as int]
            && final(d).res@ == old(d).res@ && final(d).state@ == old(d).state@ && final(d).blocked@
            == old(d).blocked@,
        unopposed(b, nr as int) && fuel > 0 && old(d).state@[nr as int] == DecisionState::Unresolved
            ==> r && final(d).res@[nr as int],
    decreases fuel, 3u8,
{
    if fuel == 0 {
        return d.res[nr];
    }
    if d.state[nr] == DecisionState::Resolved {
        return d.res[nr];
    }
    if d.state[nr] == DecisionState::Guessing {
        if !deps_contains(d, nr) {
            d.deps.push(nr);
        }
        return d.res[nr];
    }
    let n = b.orders.len();
    let old_count = d.deps.len();
    let ghost d0 = *d;
    d.res.set(nr, false);
    d.state.set(nr, DecisionState::Guessing);
    let ghost d1 = *d;
    proof {
        lemma_only_at(d0, d1, nr as int);
    }
    let first = adjudicate(b, d, nr, fuel - 1);
    proof {
        lemma_kept_chain(d0, d1, *d, nr as int);
    }
    let ghost d2 = *d;
    if d.deps.len() <= old_count {
        if d.state[nr] != DecisionState::Resolved {
            d.res.set(nr, first);
            d.state.set(nr, DecisionState::Resolved);
        }
        proof {
            lemma_steady_past_guess(b, d0, d1, *d, nr as int);
            lemma_only_at(d2, *d, nr as int);
            lemma_kept_chain(d0, d2, *d, nr as int);
            lemma_kept_from_but(d0, *d, nr as int);
        }
        return first;
    }
    if d.deps[old_count] != nr {
        d.deps.push(nr);
        d.res.set(nr, first);
        proof {
            lemma_steady_past_guess(b, d0, d1, *d, nr as int);
            lemma_only_at(d2, *d, nr as int);
            lemma_kept_chain(d0, d2, *d, nr as int);
            lemma_kept_from_but(d0, *d, nr as int);
        }
        return first;
    }
    unwind(d, old_count, n);
    let ghost d3 = *d;
    d.res.set(nr, true);
    d.state.set(nr, DecisionState::Guessing);
    let ghost d4 = *d;
    let second = adjudicate(b, d, nr, fuel - 1);
    proof {
        lemma_kept_chain(d0, d2, d3, nr as int);
        lemma_only_at(d3, d4, nr as int);
        lemma_kept_chain(d0, d3, d4, nr as int);
        lemma_kept_chain(d0, d4, *d, nr as int);
    }
    let ghost d5 = *d;
    if first == second {
        unwind(d, old_count, n);
        let ghost d6 = *d;
        d.res.set(nr, first);
        d.state.set(nr, DecisionState::Resolved);
        proof {
            lemma_steady_past_guess(b, d0, d1, *d, nr as int);
            lemma_kept_chain(d0, d5, d6, nr as int);
            lemma_only_at(d6, *d, nr as int);
            lemma_kept_chain(d0, d6, *d, nr as int);
            lemma_kept_from_but(d0, *d, nr as int);
        }
        return first;
    }
    backup_rule(b, d, old_count);
    let ghost d7 = *d;
    let r = resolve(b, d, nr, fuel - 1);
    proof {
        lemma_steady_past_guess(b, d0, d1, *d, nr as int);
        lemma_kept_chain(d0, d5, d7, nr as int);
        lemma_kept_chain(d0, d7, *d, nr as int);
        lemma_kept_from_but(d0, *d, nr as int);
    }
    r
}

/// Whether, from `a` to `c`, every decision other than `nr` that is settled
/// outside the dependency list stays so, unchanged.
pub(crate) open spec fn kept_but(a: Decisions, c: Decisions, nr: int) -> bool {
    &&& a.res@.len() == c.res@.len()
    &&& a.state@.len() == c.state@.len()
    &&& forall|x: int|
        0 <= x < a.res@.len() && x != nr && #[trigger] outside(a, x) ==> outside(c, x) && c.res@[x]
            == a.res@[x]
}

/// Keeping the settled decisions but `nr` is transitive, and follows from keeping them all.
proof fn lemma_kept_chain(a: Decisions, c: Decisions, e: Decisions, nr: int)
    requires
        kept_but(a, c, nr),
        kept_but(c, e, nr) || kept_settled(c, e),
    ensures
        kept_but(a, e, nr),
{
    assert forall|x: int| 0 <= x < a.res@.len() && x != nr && #[trigger] outside(a, x) implies outside(e, x)
        && e.res@[x] == a.res@[x] by {
        assert(outside(c, x));
    }
}

/// Changing the decision `nr` alone, or adding `nr` to the dependency list,
/// keeps every other settled decision.
proof fn lemma_only_at(a: Decisions, c: Decisions, nr: int)
    requires
        a.res@.len() == c.res@.len(),
        a.state@.len() == c.state@.len(),
        forall|x: int| 0 <= x < a.res@.len() && x != nr ==> c.res@[x] == a.res@[x] && c.state@[x] == a.state@[x],
        c.deps@ == a.deps@ || c.deps@ == a.deps@.push(nr as usize),
        0 <= nr < a.res@.len(),
        a.res@.len() < 0x1_0000_0000,
    ensures
        kept_but(a, c, nr),
{
    assert forall|x: int| 0 <= x < a.res@.len() && x != nr && #[trigger] outside(a, x) implies outside(c, x)
        && c.res@[x] == a.res@[x] by {
        assert forall|j: int| 0 <= j < c.deps@.len() implies #[trigger] c.deps@[j] != x by {
            if j < a.deps@.len() {
                assert(c.deps@[j] == a.deps@[j]);
            } else {
                assert(c.deps@[j] as int == nr);
            }
        }
    }
}

/// When `nr` was not settled, keeping every other settled decision keeps them all.
proof fn lemma_kept_from_but(a: Decisions, c: Decisions, nr: int)
    requires
        kept_but(a, c, nr),
        0 <= nr < a.state@.len(),
        a.state@.len() == a.res@.len(),
        a.state@[nr] != DecisionState::Resolved,
    ensures
        kept_settled(a, c),
{
    assert forall|x: int| 0 <= x < a.res@.len() && #[trigger] outside(a, x) implies outside(c, x)
        && c.res@[x] == a.res@[x] by {
        assert(x != nr);
    }
}

/// Guessing against the order `nr` for a while keeps the decisions steady,
/// once the decision of `nr` ends in its favour wherever nothing opposes it.
proof fn lemma_steady_past_guess(b: &Board, d0: Decisions, d1: Decisions, e: Decisions, nr: int)
    requires
        0 <= nr < b.len(),
        d0.wf(b.len()),
        d1.wf(b.len()),
        e.wf(b.len()),
        forall|x: int|
            0 <= x < b.len() && x != nr ==> d1.res@[x] == d0.res@[x] && d1.state@[x] == d0.state@[x],
        steady(b, d1, e),
        unopposed(b, nr) ==> e.res@[nr],
    ensures
        steady(b, d0, e),
{
    assert forall|x: int| 0 <= x < b.len() && #[trigger] unopposed(b, x) implies (d0.res@[x]
        ==> e.res@[x]) && (e.state@[x] == DecisionState::Guessing && !e.res@[x] ==> d0.state@[x]
        == DecisionState::Guessing && !d0.res@[x]) by {
        if x != nr {
            assert(d1.res@[x] == d0.res@[x] && d1.state@[x] == d0.state@[x]);
        }
    }
}

} // verus!
