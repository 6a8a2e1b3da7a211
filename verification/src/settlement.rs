use vstd::prelude::*;
use crate::map::is_reachable_by_sea;
use crate::map::spec_reachable_by_sea;
use crate::order::OrderKind;
use crate::power::Power;
use crate::province::PROVINCE_COUNT;
use crate::resolution::Action;
use crate::resolution::Board;
use crate::resolution::carries;
use crate::resolution::convoy_attack_exempt;
use crate::resolution::head_to_head;
use crate::resolution::occupant;
use crate::resolution::spec_convoy_attack_exempt;
use crate::resolution::spec_head_to_head;
use crate::resolution::spec_occupant;
use crate::resolution::supported_destination;
use crate::resolution::is_head_to_head;
use crate::resolution::no_supports;
use crate::resolution::plain_bounce;
use crate::resolution::plain_swap;
use crate::resolution::plain_repulse;
use crate::resolution::plain_failure;
use crate::resolution::unopposed;

verus! {

/// One more than a known count.
pub open spec fn plus_one(c: Option<nat>) -> Option<nat> {
    match c {
        Some(x) => Some(x + 1),
        None => None,
    }
}

/// Whether the order `s` is a support of the order `i` that counts when
/// the supports of `exclude` are left out.
pub open spec fn counted_support(b: &Board, s: int, i: int, exclude: Option<Power>) -> bool {
    &&& b.act@[s] == Action::Support
    &&& b.target@[s] == i
    &&& match exclude {
        Some(p) => b.orders@[s].unit.power != p,
        None => true,
    }
}

/// Number of the supports among the first `k` orders that are given to the
/// order `i` (leaving out those of `exclude`), when the decisions `m` of all
/// of them are known.
pub open spec fn known_given(b: &Board, m: Seq<Option<bool>>, i: int, exclude: Option<Power>, k: int) -> Option<nat>
    decreases k,
{
    if k <= 0 {
        Some(0)
    } else {
        match known_given(b, m, i, exclude, k - 1) {
            None => None,
            Some(c) => if !counted_support(b, k - 1, i, exclude) {
                Some(c)
            } else {
                match m[k - 1] {
                    None => None,
                    Some(v) => Some(
                        if v {
                            c + 1
                        } else {
                            c
                        },
                    ),
                }
            },
        }
    }
}

/// Whether the decisions of all the convoys that carry the move `k` are known.
pub open spec fn convoys_known(b: &Board, m: Seq<Option<bool>>, k: int) -> bool {
    forall|c: int| 0 <= c < b.len() && #[trigger] carries(b, c, k) ==> m[c] is Some
}

/// The waters of the convoys for the move `k` that are known to stay in place.
pub open spec fn known_waters(b: &Board, m: Seq<Option<bool>>, k: int) -> Seq<bool> {
    Seq::new(
        PROVINCE_COUNT as nat,
        |w: int|
            exists|c: int|
                0 <= c < b.len() && #[trigger] carries(b, c, k) && m[c] == Some(true)
                    && b.orders@[c].unit.province.index() == w,
    )
}

/// Whether the move `k` has a way to its destination: directly, or through
/// the convoys that stay in place.
pub open spec fn known_path(b: &Board, m: Seq<Option<bool>>, k: int) -> Option<bool> {
    if !b.convoyed@[k] {
        Some(true)
    } else if !convoys_known(b, m, k) {
        None
    } else {
        Some(
            match b.orders@[k].kind {
                OrderKind::Move(mv) => spec_reachable_by_sea(
                    b.orders@[k].unit.province,
                    mv.dest,
                    known_waters(b, m, k),
                ),
                _ => false,
            },
        )
    }
}

/// Strength with which the move `i` attacks its destination.
pub open spec fn known_attack(b: &Board, m: Seq<Option<bool>>, i: int) -> Option<nat> {
    let n = b.len() as int;
    match known_path(b, m, i) {
        None => None,
        Some(false) => Some(0),
        Some(true) => match spec_occupant(b, b.dest_area@[i] as int) {
            None => plus_one(known_given(b, m, i, None, n)),
            Some(o) => {
                let pw = b.orders@[o].unit.power;
                let own = pw == b.orders@[i].unit.power;
                if b.act@[o] == Action::Move && spec_head_to_head(b, i) != Some(o) {
                    match m[o] {
                        None => None,
                        Some(true) => plus_one(known_given(b, m, i, None, n)),
                        Some(false) => if own {
                            Some(0)
                        } else {
                            plus_one(known_given(b, m, i, Some(pw), n))
                        },
                    }
                } else if own {
                    Some(0)
                } else {
                    plus_one(known_given(b, m, i, Some(pw), n))
                }
            },
        },
    }
}

/// Strength with which the province at `a` is held.
pub open spec fn known_hold(b: &Board, m: Seq<Option<bool>>, a: int) -> Option<nat> {
    match spec_occupant(b, a) {
        None => Some(0),
        Some(o) => if b.act@[o] == Action::Move {
            match m[o] {
                None => None,
                Some(true) => Some(0),
                Some(false) => Some(1),
            }
        } else {
            plus_one(known_given(b, m, o, None, b.len() as int))
        },
    }
}

/// Strength with which the move `k` keeps other moves out of its destination.
pub open spec fn known_prevent(b: &Board, m: Seq<Option<bool>>, k: int) -> Option<nat> {
    match known_path(b, m, k) {
        None => None,
        Some(false) => Some(0),
        Some(true) => match spec_head_to_head(b, k) {
            Some(j) => match m[j] {
                None => None,
                Some(true) => Some(0),
                Some(false) => plus_one(known_given(b, m, k, None, b.len() as int)),
            },
            None => plus_one(known_given(b, m, k, None, b.len() as int)),
        },
    }
}

/// Whether the move `k` competes with the move `nr` for its destination.
pub open spec fn competes(b: &Board, nr: int, k: int) -> bool {
    k != nr && b.act@[k] == Action::Move && b.dest_area@[k] == b.dest_area@[nr]
}

/// Whether the attack `att` of the move `nr` beats the prevent strength of
/// every competing move from position `k` on.
pub open spec fn known_beats(b: &Board, m: Seq<Option<bool>>, nr: int, att: nat, k: int) -> Option<bool>
    decreases b.len() - k,
{
    if k >= b.len() {
        Some(true)
    } else if competes(b, nr, k) {
        match known_prevent(b, m, k) {
            None => None,
            Some(p) => if att <= p {
                Some(false)
            } else {
                known_beats(b, m, nr, att, k + 1)
            },
        }
    } else {
        known_beats(b, m, nr, att, k + 1)
    }
}

/// Whether the move `nr` succeeds: its attack beats what holds or defends
/// its destination and every competing move.
pub open spec fn known_move(b: &Board, m: Seq<Option<bool>>, nr: int) -> Option<bool> {
    match known_attack(b, m, nr) {
        None => None,
        Some(att) => if att == 0 {
            Some(false)
        } else {
            let against = match spec_head_to_head(b, nr) {
                Some(j) => plus_one(known_given(b, m, j, None, b.len() as int)),
                None => known_hold(b, m, b.dest_area@[nr] as int),
            };
            match against {
                None => None,
                Some(h) => if att <= h {
                    Some(false)
                } else {
                    known_beats(b, m, nr, att, 0)
                },
            }
        },
    }
}

/// Whether the move `k` attacks the support `nr` in a way that cuts it when
/// it has a way to its destination.
pub open spec fn threatens(b: &Board, nr: int, k: int) -> bool {
    &&& b.act@[k] == Action::Move
    &&& b.dest_area@[k] == b.area@[nr]
    &&& b.orders@[k].unit.power != b.orders@[nr].unit.power
    &&& b.area@[k] != supported_destination(b, nr)
    &&& !spec_convoy_attack_exempt(b, nr, k)
}

/// Whether some move from position `k` on cuts the support `nr`.
pub open spec fn known_cut(b: &Board, m: Seq<Option<bool>>, nr: int, k: int) -> Option<bool>
    decreases b.len() - k,
{
    if k >= b.len() {
        Some(false)
    } else if threatens(b, nr, k) {
        match known_path(b, m, k) {
            None => None,
            Some(true) => Some(true),
            Some(false) => known_cut(b, m, nr, k + 1),
        }
    } else {
        known_cut(b, m, nr, k + 1)
    }
}

/// Whether the move `k` goes into the province at `a` and is not exempted for the support `s`.
pub open spec fn enters(b: &Board, a: int, s: int, k: int) -> bool {
    b.act@[k] == Action::Move && b.dest_area@[k] == a && !(s < b.len() && spec_convoy_attack_exempt(
        b,
        s,
        k,
    ))
}

/// Whether some move from position `k` on succeeds into the province at `a`
/// (leaving out the moves exempted for the support `s`).
pub open spec fn known_dislodged(b: &Board, m: Seq<Option<bool>>, a: int, s: int, k: int) -> Option<bool>
    decreases b.len() - k,
{
    if k >= b.len() {
        Some(false)
    } else if enters(b, a, s, k) {
        match m[k] {
            None => None,
            Some(true) => Some(true),
            Some(false) => known_dislodged(b, m, a, s, k + 1),
        }
    } else {
        known_dislodged(b, m, a, s, k + 1)
    }
}

/// The decision of the order `x` (a move succeeds, a support is given, a
/// convoy stays in place) as the rules give it from the decisions `m` of the
/// others, when those it depends on are known.
pub open spec fn known_decision(b: &Board, m: Seq<Option<bool>>, x: int) -> Option<bool> {
    let n = b.len() as int;
    if b.act@[x] == Action::Move {
        known_move(b, m, x)
    } else if b.act@[x] == Action::Support {
        match known_cut(b, m, x, 0) {
            None => None,
            Some(true) => Some(false),
            Some(false) => match known_dislodged(b, m, b.area@[x] as int, x, 0) {
                None => None,
                Some(d) => Some(!d),
            },
        }
    } else if b.act@[x] == Action::Convoy {
        match known_dislodged(b, m, b.area@[x] as int, n, 0) {
            None => None,
            Some(d) => Some(!d),
        }
    } else {
        None
    }
}

/// Whether the move `x` goes, without convoy, into the province where the
/// only unit is that of the move `y`, which goes on without convoy but not
/// back, and no other move goes where `x` goes.
pub open spec fn rotates_into(b: &Board, x: int, y: int) -> bool {
    &&& 0 <= x < b.len()
    &&& 0 <= y < b.len()
    &&& b.act@[x] == Action::Move
    &&& !b.convoyed@[x]
    &&& b.act@[y] == Action::Move
    &&& !b.convoyed@[y]
    &&& b.area@[y] == b.dest_area@[x]
    &&& b.dest_area@[y] != b.area@[x]
    &&& forall|k: int| 0 <= k < b.len() && #[trigger] b.area@[k] == b.dest_area@[x] ==> k == y
    &&& forall|k: int|
        0 <= k < b.len() && k != x && #[trigger] b.act@[k] == Action::Move ==> b.dest_area@[k]
            != b.dest_area@[x]
}

/// The order of the unit that stands where the move `x` goes (itself when none does).
pub open spec fn next_in_line(b: &Board, x: int) -> int {
    match spec_occupant(b, b.dest_area@[x] as int) {
        Some(o) => o,
        None => x,
    }
}

/// The order reached from `x` by following `k` times the unit where the move goes.
pub open spec fn follow(b: &Board, x: int, k: nat) -> int
    decreases k,
{
    if k == 0 {
        x
    } else {
        next_in_line(b, follow(b, x, (k - 1) as nat))
    }
}

/// Whether the `i`-th step of the chain from `x` is a rotation.
pub open spec fn step_ok(b: &Board, x: int, i: nat) -> bool {
    rotates_into(b, follow(b, x, i), follow(b, x, i + 1))
}

/// Whether the move `x` is one of a circle of three or more moves, each
/// going into the place of the next, that nothing else enters.
#[verifier::opaque]
pub open spec fn in_circle(b: &Board, x: int) -> bool {
    exists|k: nat|
        3 <= k <= b.len() && #[trigger] follow(b, x, k) == x && follow(b, x, 1) != x && follow(b, x, 2)
            != x && forall|j: nat| j < k ==> #[trigger] step_ok(b, x, j)
}

/// One round of settling: every decision not yet known is taken where the
/// rules give it from the decisions known so far; the moves of a circle all succeed.
pub open spec fn settle_step(b: &Board, m: Seq<Option<bool>>) -> Seq<Option<bool>> {
    Seq::new(
        b.len(),
        |x: int|
            if m[x] is Some {
                m[x]
            } else if in_circle(b, x) {
                Some(true)
            } else {
                known_decision(b, m, x)
            },
    )
}

/// The decisions known after `r` rounds of settling.
pub open spec fn settle_rounds(b: &Board, r: nat) -> Seq<Option<bool>>
    decreases r,
{
    if r == 0 {
        Seq::new(b.len(), |x: int| None)
    } else {
        settle_step(b, settle_rounds(b, (r - 1) as nat))
    }
}

/// The decisions that follow from the rules alone: those settled after as
/// many rounds as there are orders, when no further round settles more.
/// What they leave open (decisions that depend on each other in a cycle
/// other than a plain circle of moves, such as convoy paradoxes) is decided
/// by the resolution that guesses and backtracks.
pub open spec fn settled(b: &Board) -> Seq<Option<bool>> {
    settle_rounds(b, b.len())
}

/// Whether the count `r` is the known count `c`.
pub open spec fn agrees(r: Option<u64>, c: Option<nat>) -> bool {
    match r {
        Some(x) => c == Some(x as nat),
        None => c is None,
    }
}

/// Number of the supports given to the order `i`, when their decisions are known.
fn known_given_of(b: &Board, m: &Vec<Option<bool>>, i: usize, exclude: Option<Power>) -> (r: Option<u64>)
    requires
        b.wf(),
        m@.len() == b.len(),
    ensures
        agrees(r, known_given(b, m@, i as int, exclude, b.len() as int)),
        r is Some ==> r->0 <= b.len(),
{
    let n = b.orders.len();
    let mut acc: Option<u64> = Some(0);
    let mut s: usize = 0;
    while s < n
        invariant
            b.wf(),
            m@.len() == n,
            n == b.len(),
            s <= n,
            agrees(acc, known_given(b, m@, i as int, exclude, s as int)),
            acc is Some ==> acc->0 <= s,
        decreases n - s,
    {
        let counted = b.act[s] == Action::Support && b.target[s] == i && match exclude {
            Some(p) => b.orders[s].unit.power != p,
            None => true,
        };
        acc = match acc {
            None => None,
            Some(c) => if !counted {
                Some(c)
            } else {
                match m[s] {
                    None => None,
                    Some(v) => Some(
                        if v {
                            c + 1
                        } else {
                            c
                        },
                    ),
                }
            },
        };
        s = s + 1;
    }
    acc
}

/// Whether the move `k` has a way to its destination, when the convoys it needs are known.
fn known_path_of(b: &Board, m: &Vec<Option<bool>>, k: usize) -> (r: Option<bool>)
    requires
        b.wf(),
        m@.len() == b.len(),
        k < b.len(),
    ensures
        r == known_path(b, m@, k as int),
{
    if !b.convoyed[k] {
        return Some(true);
    }
    let n = b.orders.len();
    let mut marks: Vec<bool> = Vec::new();
    let mut w: u8 = 0;
    while w < PROVINCE_COUNT
        invariant
            w <= PROVINCE_COUNT,
            marks@.len() == w,
            forall|x: int| 0 <= x < w ==> !marks@[x],
        decreases PROVINCE_COUNT - w,
    {
        marks.push(false);
        w = w + 1;
    }
    let mut c: usize = 0;
    while c < n
        invariant
            b.wf(),
            m@.len() == n,
            n == b.len(),
            c <= n,
            k < n,
            b.convoyed@[k as int],
            marks@.len() == PROVINCE_COUNT,
            forall|y: int| 0 <= y < c && #[trigger] carries(b, y, k as int) ==> m@[y] is Some,
            forall|x: int|
                0 <= x < PROVINCE_COUNT ==> marks@[x] == exists|y: int|
                    0 <= y < c && #[trigger] carries(b, y, k as int) && m@[y] == Some(true)
                        && b.orders@[y].unit.province.index() == x,
        decreases n - c,
    {
        let ghost before = marks@;
        if b.act[c] == Action::Convoy && b.target[c] == k {
            match m[c] {
                None => {
                    assert(carries(b, c as int, k as int));
                    assert(!convoys_known(b, m@, k as int));
                    return None;
                },
                Some(v) => {
                    if v {
                        let at = b.orders[c].unit.province.id();
                        marks.set(at as usize, true);
                    }
                },
            }
        }
        proof {
            let hit = carries(b, c as int, k as int) && m@[c as int] == Some(true);
            assert forall|x: int| 0 <= x < PROVINCE_COUNT implies marks@[x] == exists|y: int|
                0 <= y < c + 1 && #[trigger] carries(b, y, k as int) && m@[y] == Some(true)
                    && b.orders@[y].unit.province.index() == x by {
                if hit && b.orders@[c as int].unit.province.index() == x {
                    assert(carries(b, c as int, k as int));
                } else {
                    assert(marks@[x] == before[x]);
                }
            }
        }
        c = c + 1;
    }
    assert(marks@ =~= known_waters(b, m@, k as int));
    assert(convoys_known(b, m@, k as int));
    Some(
        match b.orders[k].kind {
            OrderKind::Move(mv) => is_reachable_by_sea(b.orders[k].unit.province, mv.dest, &marks),
            _ => false,
        },
    )
}

/// One more than a known count.
fn plus_one_of(c: Option<u64>, bound: usize) -> (r: Option<u64>)
    requires
        c is Some ==> c->0 <= bound,
        bound < 0x1_0000_0000,
    ensures
        forall|x: Option<nat>| agrees(c, x) ==> agrees(r, plus_one(x)),
        r is Some ==> r->0 <= bound + 1,
{
    match c {
        Some(x) => Some(x + 1),
        None => None,
    }
}

/// Strength with which the move `i` attacks its destination, when it is known.
fn known_attack_of(b: &Board, m: &Vec<Option<bool>>, i: usize) -> (r: Option<u64>)
    requires
        b.wf(),
        m@.len() == b.len(),
        i < b.len(),
    ensures
        agrees(r, known_attack(b, m@, i as int)),
        r is Some ==> r->0 <= b.len() + 1,
{
    let n = b.orders.len();
    match known_path_of(b, m, i) {
        None => None,
        Some(false) => Some(0),
        Some(true) => {
            let h2h = head_to_head(b, i);
            match occupant(b, b.dest_area[i]) {
                None => plus_one_of(known_given_of(b, m, i, None), n),
                Some(o) => {
                    let pw = b.orders[o].unit.power;
                    let own = pw == b.orders[i].unit.power;
                    if b.act[o] == Action::Move && h2h != Some(o) {
                        match m[o] {
                            None => None,
                            Some(true) => plus_one_of(known_given_of(b, m, i, None), n),
                            Some(false) => if own {
                                Some(0)
                            } else {
                                plus_one_of(known_given_of(b, m, i, Some(pw)), n)
                            },
                        }
                    } else if own {
                        Some(0)
                    } else {
                        plus_one_of(known_given_of(b, m, i, Some(pw)), n)
                    }
                },
            }
        },
    }
}

/// Strength with which the province at `a` is held, when it is known.
fn known_hold_of(b: &Board, m: &Vec<Option<bool>>, a: u8) -> (r: Option<u64>)
    requires
        b.wf(),
        m@.len() == b.len(),
    ensures
        agrees(r, known_hold(b, m@, a as int)),
        r is Some ==> r->0 <= b.len() + 1,
{
    match occupant(b, a) {
        None => Some(0),
        Some(o) => if b.act[o] == Action::Move {
            match m[o] {
                None => None,
                Some(true) => Some(0),
                Some(false) => Some(1),
            }
        } else {
            plus_one_of(known_given_of(b, m, o, None), b.orders.len())
        },
    }
}

/// Strength with which the move `k` keeps others out of its destination, when it is known.
fn known_prevent_of(b: &Board, m: &Vec<Option<bool>>, k: usize) -> (r: Option<u64>)
    requires
        b.wf(),
        m@.len() == b.len(),
        k < b.len(),
    ensures
        agrees(r, known_prevent(b, m@, k as int)),
        r is Some ==> r->0 <= b.len() + 1,
{
    match known_path_of(b, m, k) {
        None => None,
        Some(false) => Some(0),
        Some(true) => match head_to_head(b, k) {
            Some(j) => match m[j] {
                None => None,
                Some(true) => Some(0),
                Some(false) => plus_one_of(known_given_of(b, m, k, None), b.orders.len()),
            },
            None => plus_one_of(known_given_of(b, m, k, None), b.orders.len()),
        },
    }
}

/// Whether the attack `att` of the move `nr` beats every competing move, when it is known.
fn known_beats_of(b: &Board, m: &Vec<Option<bool>>, nr: usize, att: u64) -> (r: Option<bool>)
    requires
        b.wf(),
        m@.len() == b.len(),
        nr < b.len(),
    ensures
        r == known_beats(b, m@, nr as int, att as nat, 0),
{
    let n = b.orders.len();
    let mut k: usize = 0;
    while k < n
        invariant
            b.wf(),
            m@.len() == n,
            n == b.len(),
            k <= n,
            nr < n,
            known_beats(b, m@, nr as int, att as nat, 0) == known_beats(b, m@, nr as int, att as nat, k as int),
        decreases n - k,
    {
        if k != nr && b.act[k] == Action::Move && b.dest_area[k] == b.dest_area[nr] {
            match known_prevent_of(b, m, k) {
                None => {
                    return None;
                },
                Some(p) => {
                    if att <= p {
                        return Some(false);
                    }
                },
            }
        }
        k = k + 1;
    }
    Some(true)
}

/// Whether the move `nr` succeeds, when it is known.
fn known_move_of(b: &Board, m: &Vec<Option<bool>>, nr: usize) -> (r: Option<bool>)
    requires
        b.wf(),
        m@.len() == b.len(),
        nr < b.len(),
    ensures
        r == known_move(b, m@, nr as int),
{
    match known_attack_of(b, m, nr) {
        None => None,
        Some(att) => {
            if att == 0 {
                return Some(false);
            }
            let against = match head_to_head(b, nr) {
                Some(j) => plus_one_of(known_given_of(b, m, j, None), b.orders.len()),
                None => known_hold_of(b, m, b.dest_area[nr]),
            };
            match against {
                None => None,
                Some(h) => if att <= h {
                    Some(false)
                } else {
                    known_beats_of(b, m, nr, att)
                },
            }
        },
    }
}

/// Whether some move cuts the support `nr`, when it is known.
fn known_cut_of(b: &Board, m: &Vec<Option<bool>>, nr: usize) -> (r: Option<bool>)
    requires
        b.wf(),
        m@.len() == b.len(),
        nr < b.len(),
    ensures
        r == known_cut(b, m@, nr as int, 0),
{
    let n = b.orders.len();
    let t = b.target[nr];
    let from_target = if t < n && b.act[t] == Action::Move {
        b.dest_area[t]
    } else {
        PROVINCE_COUNT
    };
    let mut k: usize = 0;
    while k < n
        invariant
            b.wf(),
            m@.len() == n,
            n == b.len(),
            k <= n,
            nr < n,
            from_target == supported_destination(b, nr as int),
            known_cut(b, m@, nr as int, 0) == known_cut(b, m@, nr as int, k as int),
        decreases n - k,
    {
        if b.act[k] == Action::Move && b.dest_area[k] == b.area[nr] && b.orders[k].unit.power
            != b.orders[nr].unit.power && b.area[k] != from_target && !convoy_attack_exempt(b, nr, k) {
            match known_path_of(b, m, k) {
                None => {
                    return None;
                },
                Some(true) => {
                    return Some(true);
                },
                Some(false) => {},
            }
        }
        k = k + 1;
    }
    Some(false)
}

/// Whether some move succeeds into the province at `a` (leaving out those
/// exempted for the support `s`), when it is known.
fn known_dislodged_of(b: &Board, m: &Vec<Option<bool>>, a: u8, s: usize) -> (r: Option<bool>)
    requires
        b.wf(),
        m@.len() == b.len(),
    ensures
        r == known_dislodged(b, m@, a as int, s as int, 0),
{
    let n = b.orders.len();
    let mut k: usize = 0;
    while k < n
        invariant
            b.wf(),
            m@.len() == n,
            n == b.len(),
            k <= n,
            known_dislodged(b, m@, a as int, s as int, 0) == known_dislodged(b, m@, a as int, s as int, k as int),
        decreases n - k,
    {
        if b.act[k] == Action::Move && b.dest_area[k] == a && !(s < n && convoy_attack_exempt(b, s, k)) {
            match m[k] {
                None => {
                    return None;
                },
                Some(true) => {
                    return Some(true);
                },
                Some(false) => {},
            }
        }
        k = k + 1;
    }
    Some(false)
}

/// The decision of the order `x` as the rules give it from the decisions `m`, when it is known.
fn known_decision_of(b: &Board, m: &Vec<Option<bool>>, x: usize) -> (r: Option<bool>)
    requires
        b.wf(),
        m@.len() == b.len(),
        x < b.len(),
    ensures
        r == known_decision(b, m@, x as int),
{
    let n = b.orders.len();
    if b.act[x] == Action::Move {
        known_move_of(b, m, x)
    } else if b.act[x] == Action::Support {
        match known_cut_of(b, m, x) {
            None => None,
            Some(true) => Some(false),
            Some(false) => match known_dislodged_of(b, m, b.area[x], x) {
                None => None,
                Some(d) => Some(!d),
            },
        }
    } else if b.act[x] == Action::Convoy {
        match known_dislodged_of(b, m, b.area[x], n) {
            None => None,
            Some(d) => Some(!d),
        }
    } else {
        None
    }
}

/// Whether the move `x` goes, without convoy, into the place of the move `y` alone (see `rotates_into`).
fn rotates_into_of(b: &Board, x: usize, y: usize) -> (r: bool)
    requires
        b.wf(),
        x < b.len(),
        y < b.len(),
    ensures
        r == rotates_into(b, x as int, y as int),
{
    if !(b.act[x] == Action::Move && !b.convoyed[x] && b.act[y] == Action::Move && !b.convoyed[y]
        && b.area[y] == b.dest_area[x] && b.dest_area[y] != b.area[x]) {
        return false;
    }
    let n = b.orders.len();
    let mut k: usize = 0;
    while k < n
        invariant
            b.wf(),
            n == b.len(),
            k <= n,
            x < n,
            y < n,
            forall|j: int| 0 <= j < k && #[trigger] b.area@[j] == b.dest_area@[x as int] ==> j == y,
            forall|j: int|
                0 <= j < k && j != x && #[trigger] b.act@[j] == Action::Move ==> b.dest_area@[j]
                    != b.dest_area@[x as int],
        decreases n - k,
    {
        if b.area[k] == b.dest_area[x] && k != y {
            return false;
        }
        if k != x && b.act[k] == Action::Move && b.dest_area[k] == b.dest_area[x] {
            return false;
        }
        k = k + 1;
    }
    true
}

/// A chain that breaks before it comes back makes no circle.
proof fn lemma_circle_broken(b: &Board, x: int, j: nat)
    requires
        forall|i: nat| 1 <= i <= j ==> #[trigger] follow(b, x, i) != x,
        !step_ok(b, x, j),
    ensures
        !in_circle(b, x),
{
    reveal(in_circle);
    assert forall|k: nat|
        3 <= k <= b.len() && #[trigger] follow(b, x, k) == x && follow(b, x, 1) != x && follow(b, x, 2)
            != x implies !(forall|i: nat| i < k ==> #[trigger] step_ok(b, x, i)) by {
        if k <= j {
            assert(follow(b, x, k) != x);
        } else {
            assert(!step_ok(b, x, j));
        }
    }
}

/// A chain that comes back after three steps or more, each a rotation, is a circle.
proof fn lemma_circle_closed(b: &Board, x: int, j: nat)
    requires
        3 <= j <= b.len(),
        follow(b, x, j) == x,
        follow(b, x, 1) != x,
        follow(b, x, 2) != x,
        forall|i: nat| i < j ==> #[trigger] step_ok(b, x, i),
    ensures
        in_circle(b, x),
{
    reveal(in_circle);
}

/// A chain that comes back after one or two steps makes no circle.
proof fn lemma_circle_short(b: &Board, x: int)
    requires
        follow(b, x, 1) == x || follow(b, x, 2) == x,
    ensures
        !in_circle(b, x),
{
    reveal(in_circle);
}

/// A chain that does not come back within as many steps as there are orders makes no circle.
proof fn lemma_circle_open(b: &Board, x: int)
    requires
        forall|i: nat| 1 <= i <= b.len() ==> #[trigger] follow(b, x, i) != x,
    ensures
        !in_circle(b, x),
{
    reveal(in_circle);
    assert forall|k: nat| 3 <= k <= b.len() implies #[trigger] follow(b, x, k) != x by {
    }
}

/// Whether the move `x` is one of a circle of moves that nothing else enters (see `in_circle`).
fn circle_of(b: &Board, x: usize) -> (r: bool)
    requires
        b.wf(),
        x < b.len(),
    ensures
        r == in_circle(b, x as int),
{
    let n = b.orders.len();
    let mut cur = x;
    let mut j: usize = 0;
    while j < n
        invariant
            b.wf(),
            n == b.len(),
            x < n,
            cur < n,
            j <= n,
            cur as int == follow(b, x as int, j as nat),
            forall|i: nat| i < j ==> #[trigger] step_ok(b, x as int, i),
            forall|i: nat| 1 <= i <= j ==> #[trigger] follow(b, x as int, i) != x,
        decreases n - j,
    {
        let nx = match occupant(b, b.dest_area[cur]) {
            Some(o) => o,
            None => cur,
        };
        assert(nx as int == follow(b, x as int, (j + 1) as nat));
        let ok = rotates_into_of(b, cur, nx);
        assert(ok == step_ok(b, x as int, j as nat));
        if !ok {
            proof {
                lemma_circle_broken(b, x as int, j as nat);
            }
            return false;
        }
        j = j + 1;
        cur = nx;
        if cur == x {
            if j >= 3 {
                proof {
                    lemma_circle_closed(b, x as int, j as nat);
                }
                return true;
            } else {
                proof {
                    lemma_circle_short(b, x as int);
                }
                return false;
            }
        }
    }
    proof {
        lemma_circle_open(b, x as int);
    }
    false
}

/// The decisions that follow from the rules alone (see `settled`).
pub(crate) fn settle(b: &Board) -> (r: Vec<Option<bool>>)
    requires
        b.wf(),
    ensures
        r@ == settled(b),
{
    let n = b.orders.len();
    let mut m: Vec<Option<bool>> = Vec::new();
    let mut x: usize = 0;
    while x < n
        invariant
            x <= n,
            n == b.len(),
            m@.len() == x,
            forall|y: int| 0 <= y < x ==> m@[y] is None,
        decreases n - x,
    {
        m.push(None);
        x = x + 1;
    }
    assert(m@ =~= settle_rounds(b, 0));
    let mut round: usize = 0;
    while round < n
        invariant
            b.wf(),
            n == b.len(),
            round <= n,
            m@ == settle_rounds(b, round as nat),
        decreases n - round,
    {
        let mut next: Vec<Option<bool>> = Vec::new();
        let mut x: usize = 0;
        while x < n
            invariant
                b.wf(),
                n == b.len(),
                m@.len() == n,
                x <= n,
                next@.len() == x,
                forall|y: int| 0 <= y < x ==> #[trigger] next@[y] == settle_step(b, m@)[y],
            decreases n - x,
        {
            let v = match m[x] {
                Some(known) => Some(known),
                None => if circle_of(b, x) {
                    Some(true)
                } else {
                    known_decision_of(b, &m, x)
                },
            };
            next.push(v);
            x = x + 1;
        }
        assert(next@ =~= settle_step(b, m@));
        m = next;
        round = round + 1;
    }
    m
}

/// Without any support of the order `i`, the known number of its given supports is zero.
proof fn lemma_given_none(b: &Board, m: Seq<Option<bool>>, i: int, exclude: Option<Power>, k: int)
    requires
        b.wf(),
        0 <= k <= b.len(),
        no_supports(b, i),
    ensures
        known_given(b, m, i, exclude, k) == Some(0nat),
    decreases k,
{
    if k > 0 {
        lemma_given_none(b, m, i, exclude, k - 1);
        assert(!(b.act@[k - 1] == Action::Support && b.target@[k - 1] == i));
    }
}

/// With no competing move from position `k` on, the attack beats them all.
proof fn lemma_beats_alone(b: &Board, m: Seq<Option<bool>>, nr: int, att: nat, k: int)
    requires
        b.wf(),
        0 <= k <= b.len(),
        forall|j: int| k <= j < b.len() ==> !#[trigger] competes(b, nr, j),
    ensures
        known_beats(b, m, nr, att, k) == Some(true),
    decreases b.len() - k,
{
    if k < b.len() {
        assert(!competes(b, nr, k));
        lemma_beats_alone(b, m, nr, att, k + 1);
    }
}

/// When some competing move from position `k` on keeps the attack out, and
/// the prevent strength of every such move is known and at least the
/// attack, the attack does not beat them.
proof fn lemma_beats_held(b: &Board, m: Seq<Option<bool>>, nr: int, att: nat, k: int)
    requires
        b.wf(),
        0 <= k <= b.len(),
        exists|j: int| k <= j < b.len() && #[trigger] competes(b, nr, j),
        forall|j: int|
            k <= j < b.len() && #[trigger] competes(b, nr, j) ==> known_prevent(b, m, j) is Some
                && att <= known_prevent(b, m, j)->0,
    ensures
        known_beats(b, m, nr, att, k) == Some(false),
    decreases b.len() - k,
{
    if k < b.len() && !competes(b, nr, k) {
        let w = choose|j: int| k <= j < b.len() && #[trigger] competes(b, nr, j);
        assert(w != k);
        lemma_beats_held(b, m, nr, att, k + 1);
    }
}

/// No move from position `k` on cuts a support into whose province no move goes.
proof fn lemma_cut_none(b: &Board, m: Seq<Option<bool>>, nr: int, k: int)
    requires
        b.wf(),
        0 <= k <= b.len(),
        forall|j: int| 0 <= j < b.len() && #[trigger] b.act@[j] == Action::Move ==> b.dest_area@[j] != b.area@[nr],
    ensures
        known_cut(b, m, nr, k) == Some(false),
    decreases b.len() - k,
{
    if k < b.len() {
        assert(!threatens(b, nr, k));
        lemma_cut_none(b, m, nr, k + 1);
    }
}

/// No move from position `k` on succeeds into a province no move goes into.
proof fn lemma_dislodged_none(b: &Board, m: Seq<Option<bool>>, a: int, s: int, k: int)
    requires
        b.wf(),
        0 <= k <= b.len(),
        forall|j: int| 0 <= j < b.len() && #[trigger] b.act@[j] == Action::Move ==> b.dest_area@[j] != a,
    ensures
        known_dislodged(b, m, a, s, k) == Some(false),
    decreases b.len() - k,
{
    if k < b.len() {
        assert(!enters(b, a, s, k));
        lemma_dislodged_none(b, m, a, s, k + 1);
    }
}

/// The rules never decide against an order that nothing opposes.
proof fn lemma_known_unopposed(b: &Board, m: Seq<Option<bool>>, x: int)
    requires
        b.wf(),
        0 <= x < b.len(),
        unopposed(b, x),
        known_decision(b, m, x) is Some,
    ensures
        known_decision(b, m, x) == Some(true),
{
    if b.act@[x] == Action::Move {
        assert(spec_occupant(b, b.dest_area@[x] as int) is None);
        assert forall|j: int| 0 <= j < b.len() implies !#[trigger] is_head_to_head(b, x, j) by {
            if is_head_to_head(b, x, j) {
                assert(b.area@[j] == b.dest_area@[x]);
            }
        }
        assert(spec_head_to_head(b, x) is None);
        let att = known_attack(b, m, x)->0;
        assert(att >= 1);
        assert forall|j: int| 0 <= j < b.len() implies !#[trigger] competes(b, x, j) by {
            if competes(b, x, j) {
                assert(b.act@[j] == Action::Move);
            }
        }
        lemma_beats_alone(b, m, x, att, 0);
    } else {
        lemma_cut_none(b, m, x, 0);
        lemma_dislodged_none(b, m, b.area@[x] as int, x, 0);
        lemma_dislodged_none(b, m, b.area@[x] as int, b.len() as int, 0);
    }
}

/// The rules never decide for a move that fails whatever else is decided.
proof fn lemma_known_plain_failure(b: &Board, m: Seq<Option<bool>>, x: int)
    requires
        b.wf(),
        0 <= x < b.len(),
        plain_failure(b, x),
        known_decision(b, m, x) is Some,
    ensures
        known_decision(b, m, x) == Some(false),
{
    let n = b.len() as int;
    lemma_given_none(b, m, x, None, n);
    if plain_bounce(b, x) {
        assert(spec_occupant(b, b.dest_area@[x] as int) is None);
        assert forall|j: int| 0 <= j < b.len() implies !#[trigger] is_head_to_head(b, x, j) by {
            if is_head_to_head(b, x, j) {
                assert(b.area@[j] == b.dest_area@[x]);
            }
        }
        assert(known_attack(b, m, x) == Some(1nat));
        assert forall|j: int| 0 <= j < b.len() && #[trigger] competes(b, x, j) implies known_prevent(b, m, j)
            is Some && 1 <= known_prevent(b, m, j)->0 by {
            lemma_given_none(b, m, j, None, n);
            assert forall|q: int| 0 <= q < b.len() implies !#[trigger] is_head_to_head(b, j, q) by {
                if is_head_to_head(b, j, q) {
                    assert(b.area@[q] == b.dest_area@[x]);
                }
            }
        }
        let w = choose|k: int|
            0 <= k < b.len() && k != x && #[trigger] b.act@[k] == Action::Move && b.dest_area@[k]
                == b.dest_area@[x];
        assert(competes(b, x, w));
        lemma_beats_held(b, m, x, 1, 0);
    } else if plain_swap(b, x) {
        let y = choose|y: int|
            0 <= y < b.len() && y != x && #[trigger] b.act@[y] == Action::Move && !b.convoyed@[y]
                && b.dest_area@[y] == b.area@[x] && b.area@[y] == b.dest_area@[x] && no_supports(b, y)
                && forall|k: int| 0 <= k < b.len() && #[trigger] b.area@[k] == b.dest_area@[x] ==> k == y;
        assert(is_head_to_head(b, x, y));
        assert(spec_head_to_head(b, x) == Some(y));
        assert(spec_occupant(b, b.dest_area@[x] as int) == Some(y));
        lemma_given_none(b, m, y, None, n);
        lemma_given_none(b, m, x, Some(b.orders@[y].unit.power), n);
    } else {
        let o = choose|o: int|
            0 <= o < b.len() && #[trigger] b.area@[o] == b.dest_area@[x] && b.act@[o] != Action::Move
                && no_supports(b, o) && forall|k: int|
                0 <= k < b.len() && #[trigger] b.area@[k] == b.dest_area@[x] ==> k == o;
        assert(spec_occupant(b, b.dest_area@[x] as int) == Some(o));
        assert forall|j: int| 0 <= j < b.len() implies !#[trigger] is_head_to_head(b, x, j) by {
            if is_head_to_head(b, x, j) {
                assert(b.area@[j] == b.dest_area@[x]);
            }
        }
        lemma_given_none(b, m, o, None, n);
        lemma_given_none(b, m, x, Some(b.orders@[o].unit.power), n);
    }
}

/// A move of a circle is a move, and not one that fails whatever else is decided.
proof fn lemma_circle_move(b: &Board, x: int)
    requires
        b.wf(),
        0 <= x < b.len(),
        in_circle(b, x),
    ensures
        b.act@[x] == Action::Move,
        !plain_failure(b, x),
{
    reveal(in_circle);
    let k = choose|k: nat|
        3 <= k <= b.len() && #[trigger] follow(b, x, k) == x && follow(b, x, 1) != x && follow(b, x, 2)
            != x && forall|j: nat| j < k ==> #[trigger] step_ok(b, x, j);
    assert(step_ok(b, x, 0));
    assert(follow(b, x, 0) == x);
    let y = follow(b, x, 1);
    assert(rotates_into(b, x, y));
    if plain_bounce(b, x) {
        assert(b.area@[y] == b.dest_area@[x]);
    }
    if plain_swap(b, x) {
        let z = choose|z: int|
            0 <= z < b.len() && z != x && #[trigger] b.act@[z] == Action::Move && !b.convoyed@[z]
                && b.dest_area@[z] == b.area@[x] && b.area@[z] == b.dest_area@[x] && no_supports(b, z)
                && forall|q: int| 0 <= q < b.len() && #[trigger] b.area@[q] == b.dest_area@[x] ==> q == z;
        assert(z == y);
    }
    if plain_repulse(b, x) {
        let o = choose|o: int|
            0 <= o < b.len() && #[trigger] b.area@[o] == b.dest_area@[x] && b.act@[o] != Action::Move
                && no_supports(b, o) && forall|q: int|
                0 <= q < b.len() && #[trigger] b.area@[q] == b.dest_area@[x] ==> q == o;
        assert(o == y);
    }
}

/// What each round of settling decides, the rules give: never against an
/// order that nothing opposes, never for a move that fails whatever else is decided.
pub(crate) proof fn lemma_settled_agrees(b: &Board, r: nat)
    requires
        b.wf(),
    ensures
        settle_rounds(b, r).len() == b.len(),
        forall|x: int|
            0 <= x < b.len() && settle_rounds(b, r)[x] is Some && #[trigger] unopposed(b, x)
                ==> settle_rounds(b, r)[x] == Some(true),
        forall|x: int|
            0 <= x < b.len() && settle_rounds(b, r)[x] is Some && #[trigger] plain_failure(b, x)
                ==> settle_rounds(b, r)[x] == Some(false),
    decreases r,
{
    if r > 0 {
        lemma_settled_agrees(b, (r - 1) as nat);
        let m = settle_rounds(b, (r - 1) as nat);
        assert forall|x: int|
            0 <= x < b.len() && settle_rounds(b, r)[x] is Some && #[trigger] unopposed(b, x)
                implies settle_rounds(b, r)[x] == Some(true) by {
            if m[x] is None && !in_circle(b, x) {
                lemma_known_unopposed(b, m, x);
            }
        }
        assert forall|x: int|
            0 <= x < b.len() && settle_rounds(b, r)[x] is Some && #[trigger] plain_failure(b, x)
                implies settle_rounds(b, r)[x] == Some(false) by {
            if m[x] is None {
                if in_circle(b, x) {
                    lemma_circle_move(b, x);
                } else {
                    lemma_known_plain_failure(b, m, x);
                }
            }
        }
    }
}

/// Where every known decision of `m` agrees with `res`, the known answer to
/// whether a move from position `k` on enters the province at `a` (none
/// exempted) is whether one decided by `res` to succeed does.
proof fn lemma_dislodged_agrees(b: &Board, m: Seq<Option<bool>>, res: Seq<bool>, a: int, k: int, d: bool)
    requires
        b.wf(),
        0 <= k <= b.len(),
        m.len() == b.len(),
        res.len() == b.len(),
        forall|j: int| 0 <= j < b.len() && #[trigger] m[j] is Some ==> res[j] == m[j]->0,
        known_dislodged(b, m, a, b.len() as int, k) == Some(d),
    ensures
        d == exists|j: int|
            k <= j < b.len() && #[trigger] b.act@[j] == Action::Move && b.dest_area@[j] == a && res[j],
    decreases b.len() - k,
{
    if k < b.len() {
        if enters(b, a, b.len() as int, k) && m[k] == Some(true) {
        } else {
            lemma_dislodged_agrees(b, m, res, a, k + 1, d);
            if !d && b.act@[k] == Action::Move && b.dest_area@[k] == a {
                assert(m[k] is Some);
            }
        }
    }
}

/// Where every decision known after `r` rounds agrees with `res`, a convoy
/// known after `r` rounds stays in place exactly when no move decided by
/// `res` to succeed enters its province.
pub(crate) proof fn lemma_settled_convoy(b: &Board, r: nat, res: Seq<bool>)
    requires
        b.wf(),
        res.len() == b.len(),
        forall|j: int| 0 <= j < b.len() && #[trigger] settle_rounds(b, r)[j] is Some ==> res[j] == settle_rounds(b, r)[j]->0,
    ensures
        forall|x: int|
            0 <= x < b.len() && b.act@[x] == Action::Convoy && #[trigger] settle_rounds(b, r)[x] is Some
                ==> settle_rounds(b, r)[x]->0 == !exists|j: int|
                0 <= j < b.len() && #[trigger] b.act@[j] == Action::Move && b.dest_area@[j] == b.area@[x] && res[j],
    decreases r,
{
    if r > 0 {
        let m = settle_rounds(b, (r - 1) as nat);
        assert forall|j: int| 0 <= j < b.len() && #[trigger] m[j] is Some implies res[j] == m[j]->0 by {
            assert(settle_rounds(b, r)[j] == m[j]);
        }
        lemma_settled_convoy(b, (r - 1) as nat, res);
        assert forall|x: int|
            0 <= x < b.len() && b.act@[x] == Action::Convoy && #[trigger] settle_rounds(b, r)[x] is Some
                implies settle_rounds(b, r)[x]->0 == !exists|j: int|
                0 <= j < b.len() && #[trigger] b.act@[j] == Action::Move && b.dest_area@[j] == b.area@[x] && res[j] by {
            if m[x] is None {
                if in_circle(b, x) {
                    lemma_circle_move(b, x);
                }
                let d = known_dislodged(b, m, b.area@[x] as int, b.len() as int, 0)->0;
                lemma_dislodged_agrees(b, m, res, b.area@[x] as int, 0, d);
            }
        }
    }
}

} // verus!
