use vstd::prelude::*;
use crate::adjacency::spec_army_adj;
use crate::adjacency::spec_fleet_adj;
use crate::adjacency::spec_area_adj;
use crate::adjacency::spec_has_coasts;
use crate::adjacency::army_adj;
use crate::adjacency::fleet_adj;
use crate::adjacency::area_adj;
use crate::adjacency::has_coasts;
use crate::province::Province;
use crate::province::PROVINCE_COUNT;
use crate::province::Terrain;
use crate::province::lemma_area_range;
use crate::province::spec_area;
use crate::province::spec_terrain;
use crate::unit::Unit;
use crate::unit::UnitKind;

verus! {

/// Whether a unit of kind `k` can move in one step from position `a` to position `b`.
pub open spec fn spec_move_adj(k: UnitKind, a: int, b: int) -> bool {
    match k {
        UnitKind::Army(_) => spec_army_adj(a, b),
        UnitKind::Fleet(_) => spec_fleet_adj(a, b),
    }
}

/// Whether `unit` can move in one step to `dest` (the coast of a fleet counts).
pub open spec fn spec_can_move(unit: Unit, dest: Province) -> bool {
    spec_move_adj(unit.kind, unit.province.index(), dest.index())
}

/// Whether `unit` can move in one step to some coast of the province of `dest`.
pub open spec fn spec_can_reach_area(unit: Unit, dest: Province) -> bool {
    exists|q: int|
        0 <= q < PROVINCE_COUNT && spec_area(q) == spec_area(dest.index())
            && #[trigger] spec_move_adj(unit.kind, unit.province.index(), q)
}

/// Whether a unit of the kind of `unit` may stand on the province `p`.
pub open spec fn spec_can_exist_at(unit: Unit, p: Province) -> bool {
    match unit.kind {
        UnitKind::Army(_) => spec_terrain(p.index()) != Terrain::Water && spec_area(p.index())
            == p.index(),
        UnitKind::Fleet(_) => spec_terrain(p.index()) != Terrain::Inland && !spec_has_coasts(
            p.index(),
        ),
    }
}

/// One step of the growth of the waters that a convoy can cross: water `w`
/// is reached when it was reached before, or it is allowed and borders a reached water.
pub open spec fn sea_step(prev: Seq<bool>, allowed: Seq<bool>, w: int) -> bool {
    prev[w] || (allowed[w] && spec_terrain(w) == Terrain::Water && exists|v: int|
        0 <= v < PROVINCE_COUNT && prev[v] && #[trigger] spec_area_adj(v, w))
}

/// The allowed waters that a convoy starting from the province at `from_area`
/// reaches through at most `k + 1` allowed waters.
pub open spec fn sea_reach(from_area: int, allowed: Seq<bool>, k: nat) -> Seq<bool>
    decreases k,
{
    if k == 0 {
        Seq::new(
            PROVINCE_COUNT as nat,
            |w: int| allowed[w] && spec_terrain(w) == Terrain::Water && spec_area_adj(from_area, w),
        )
    } else {
        let prev = sea_reach(from_area, allowed, (k - 1) as nat);
        Seq::new(PROVINCE_COUNT as nat, |w: int| sea_step(prev, allowed, w))
    }
}

/// Whether an army could be convoyed from `from` to the coastal province `to`
/// through a chain of the allowed waters.
pub open spec fn spec_reachable_by_sea(from: Province, to: Province, allowed: Seq<bool>) -> bool {
    &&& spec_area(from.index()) != spec_area(to.index())
    &&& spec_terrain(to.index()) == Terrain::Coast
    &&& exists|w: int|
        0 <= w < PROVINCE_COUNT && sea_reach(spec_area(from.index()), allowed, PROVINCE_COUNT as nat)[w]
            && #[trigger] spec_area_adj(w, spec_area(to.index()))
}

/// One step of the growth of a ball of provinces around a province.
pub open spec fn ball_step(prev: Seq<bool>, w: int) -> bool {
    prev[w] || exists|v: int| 0 <= v < PROVINCE_COUNT && prev[v] && #[trigger] spec_area_adj(v, w)
}

/// The provinces at most `k` borders away from the province at `a`.
pub open spec fn ball(a: int, k: nat) -> Seq<bool>
    decreases k,
{
    if k == 0 {
        Seq::new(PROVINCE_COUNT as nat, |w: int| w == a)
    } else {
        let prev = ball(a, (k - 1) as nat);
        Seq::new(PROVINCE_COUNT as nat, |w: int| ball_step(prev, w))
    }
}

/// The least number of borders, from `k` on, between the provinces at `a` and `b`
/// (`PROVINCE_COUNT` when there is none below it).
pub open spec fn spec_distance_from(a: int, b: int, k: nat) -> nat
    decreases PROVINCE_COUNT - k,
{
    if k >= PROVINCE_COUNT {
        PROVINCE_COUNT as nat
    } else if ball(a, k)[b] {
        k
    } else {
        spec_distance_from(a, b, k + 1)
    }
}

/// The least number of borders to cross from the province at `a` to the one at `b`.
pub open spec fn spec_distance(a: int, b: int) -> nat {
    spec_distance_from(spec_area(a), spec_area(b), 0)
}

/// Whether `unit` can move in one step to `dest`.
pub fn can_unit_move_to(unit: &Unit, dest: Province) -> (r: bool)
    ensures
        r == spec_can_move(*unit, dest),
{
    match unit.kind {
        UnitKind::Army(_) => army_adj(unit.province.id(), dest.id()),
        UnitKind::Fleet(_) => fleet_adj(unit.province.id(), dest.id()),
    }
}

/// Whether `unit` can move in one step to some coast of the province of `dest`
/// (what a support needs).
pub fn can_unit_reach_area(unit: &Unit, dest: Province) -> (r: bool)
    ensures
        r == spec_can_reach_area(*unit, dest),
{
    let target = dest.area().id();
    let from = unit.province.id();
    let mut q: u8 = 0;
    while q < PROVINCE_COUNT
        invariant
            q <= PROVINCE_COUNT,
            target as int == spec_area(dest.index()),
            from as int == unit.province.index(),
            forall|j: int|
                0 <= j < q && spec_area(j) == target ==> !#[trigger] spec_move_adj(
                    unit.kind,
                    from as int,
                    j,
                ),
        decreases PROVINCE_COUNT - q,
    {
        let p = Province::from_id(q);
        if p.area().id() == target {
            let adj = match unit.kind {
                UnitKind::Army(_) => army_adj(from, q),
                UnitKind::Fleet(_) => fleet_adj(from, q),
            };
            if adj {
                assert(spec_move_adj(unit.kind, from as int, q as int));
                return true;
            }
        }
        q = q + 1;
    }
    false
}

/// Whether a unit of the kind of `unit` may stand on `p`.
pub fn can_unit_exist_at(unit: &Unit, p: Province) -> (r: bool)
    ensures
        r == spec_can_exist_at(*unit, p),
{
    match unit.kind {
        UnitKind::Army(_) => !p.is_water() && p.area().id() == p.id(),
        UnitKind::Fleet(_) => !p.is_inland() && !has_coasts(p.id()),
    }
}

/// Whether the provinces of `a` and `b` share a border.
pub fn is_adjacent(a: Province, b: Province) -> (r: bool)
    ensures
        r == spec_area_adj(spec_area(a.index()), spec_area(b.index())),
{
    area_adj(a.area().id(), b.area().id())
}

fn sea_step_exec(prev: &Vec<bool>, allowed: &Vec<bool>) -> (r: Vec<bool>)
    requires
        prev@.len() == PROVINCE_COUNT,
        allowed@.len() == PROVINCE_COUNT,
    ensures
        r@ == Seq::new(PROVINCE_COUNT as nat, |w: int| sea_step(prev@, allowed@, w)),
{
    let mut r: Vec<bool> = Vec::new();
    let mut w: u8 = 0;
    while w < PROVINCE_COUNT
        invariant
            prev@.len() == PROVINCE_COUNT,
            allowed@.len() == PROVINCE_COUNT,
            w <= PROVINCE_COUNT,
            r@.len() == w,
            forall|j: int| 0 <= j < w ==> r@[j] == sea_step(prev@, allowed@, j),
        decreases PROVINCE_COUNT - w,
    {
        let mut b = prev[w as usize];
        if !b && allowed[w as usize] && Province::from_id(w).terrain() == Terrain::Water {
            let mut v: u8 = 0;
            while v < PROVINCE_COUNT
                invariant
                    prev@.len() == PROVINCE_COUNT,
                    v <= PROVINCE_COUNT,
                    w < PROVINCE_COUNT,
                    !b ==> forall|j: int|
                        0 <= j < v ==> !(prev@[j] && #[trigger] spec_area_adj(j, w as int)),
                    b ==> exists|j: int|
                        0 <= j < PROVINCE_COUNT && prev@[j] && #[trigger] spec_area_adj(j, w as int),
                decreases PROVINCE_COUNT - v,
            {
                if prev[v as usize] && area_adj(v, w) {
                    b = true;
                }
                v = v + 1;
            }
        }
        r.push(b);
        w = w + 1;
    }
    assert(r@ =~= Seq::new(PROVINCE_COUNT as nat, |w: int| sea_step(prev@, allowed@, w)));
    r
}

/// Whether an army could be convoyed from `from` to `to` through a chain of
/// the waters marked in `allowed` (indexed by province position).
pub fn is_reachable_by_sea(from: Province, to: Province, allowed: &Vec<bool>) -> (r: bool)
    requires
        allowed@.len() == PROVINCE_COUNT,
    ensures
        r == spec_reachable_by_sea(from, to, allowed@),
{
    let fa = from.area().id();
    let ta = to.area().id();
    if fa == ta || !to.is_coast() {
        return false;
    }
    let mut marks: Vec<bool> = Vec::new();
    let mut w: u8 = 0;
    while w < PROVINCE_COUNT
        invariant
            allowed@.len() == PROVINCE_COUNT,
            w <= PROVINCE_COUNT,
            marks@.len() == w,
            forall|j: int|
                0 <= j < w ==> marks@[j] == (allowed@[j] && spec_terrain(j) == Terrain::Water
                    && spec_area_adj(fa as int, j)),
        decreases PROVINCE_COUNT - w,
    {
        let b = allowed[w as usize] && Province::from_id(w).terrain() == Terrain::Water && area_adj(
            fa,
            w,
        );
        marks.push(b);
        w = w + 1;
    }
    assert(marks@ =~= sea_reach(fa as int, allowed@, 0));
    let mut k: u8 = 0;
    while k < PROVINCE_COUNT
        invariant
            allowed@.len() == PROVINCE_COUNT,
            k <= PROVINCE_COUNT,
            marks@ == sea_reach(fa as int, allowed@, k as nat),
        decreases PROVINCE_COUNT - k,
    {
        marks = sea_step_exec(&marks, allowed);
        k = k + 1;
    }
    let mut w: u8 = 0;
    while w < PROVINCE_COUNT
        invariant
            w <= PROVINCE_COUNT,
            marks@ == sea_reach(fa as int, allowed@, PROVINCE_COUNT as nat),
            fa as int == spec_area(from.index()),
            ta as int == spec_area(to.index()),
            fa != ta,
            spec_terrain(to.index()) == Terrain::Coast,
            forall|j: int| 0 <= j < w ==> !(marks@[j] && #[trigger] spec_area_adj(j, ta as int)),
        decreases PROVINCE_COUNT - w,
    {
        if marks[w as usize] && area_adj(w, ta) {
            assert(spec_area_adj(w as int, spec_area(to.index())));
            return true;
        }
        w = w + 1;
    }
    false
}

fn ball_step_exec(prev: &Vec<bool>) -> (r: Vec<bool>)
    requires
        prev@.len() == PROVINCE_COUNT,
    ensures
        r@ == Seq::new(PROVINCE_COUNT as nat, |w: int| ball_step(prev@, w)),
{
    let mut r: Vec<bool> = Vec::new();
    let mut w: u8 = 0;
    while w < PROVINCE_COUNT
        invariant
            prev@.len() == PROVINCE_COUNT,
            w <= PROVINCE_COUNT,
            r@.len() == w,
            forall|j: int| 0 <= j < w ==> r@[j] == ball_step(prev@, j),
        decreases PROVINCE_COUNT - w,
    {
        let mut b = prev[w as usize];
        if !b {
            let mut v: u8 = 0;
            while v < PROVINCE_COUNT
                invariant
                    prev@.len() == PROVINCE_COUNT,
                    v <= PROVINCE_COUNT,
                    w < PROVINCE_COUNT,
                    !b ==> forall|j: int|
                        0 <= j < v ==> !(prev@[j] && #[trigger] spec_area_adj(j, w as int)),
                    b ==> exists|j: int|
                        0 <= j < PROVINCE_COUNT && prev@[j] && #[trigger] spec_area_adj(j, w as int),
                decreases PROVINCE_COUNT - v,
            {
                if prev[v as usize] && area_adj(v, w) {
                    b = true;
                }
                v = v + 1;
            }
        }
        r.push(b);
        w = w + 1;
    }
    assert(r@ =~= Seq::new(PROVINCE_COUNT as nat, |w: int| ball_step(prev@, w)));
    r
}

/// The least number of borders to cross between the provinces of `a` and `b`.
pub fn distance(a: Province, b: Province) -> (r: u8)
    ensures
        r == spec_distance(a.index(), b.index()),
{
    let aa = a.area().id();
    let ba = b.area().id();
    let mut marks: Vec<bool> = Vec::new();
    let mut w: u8 = 0;
    while w < PROVINCE_COUNT
        invariant
            w <= PROVINCE_COUNT,
            marks@.len() == w,
            forall|j: int| 0 <= j < w ==> marks@[j] == (j == aa),
        decreases PROVINCE_COUNT - w,
    {
        marks.push(w == aa);
        w = w + 1;
    }
    assert(marks@ =~= ball(aa as int, 0));
    let mut k: u8 = 0;
    while k < PROVINCE_COUNT
        invariant
            k <= PROVINCE_COUNT,
            ba < PROVINCE_COUNT,
            aa as int == spec_area(a.index()),
            ba as int == spec_area(b.index()),
            marks@ == ball(aa as int, k as nat),
            spec_distance_from(aa as int, ba as int, 0) == spec_distance_from(
                aa as int,
                ba as int,
                k as nat,
            ),
        decreases PROVINCE_COUNT - k,
    {
        if marks[ba as usize] {
            assert(spec_distance_from(aa as int, ba as int, k as nat) == k as nat);
            return k;
        }
        marks = ball_step_exec(&marks);
        k = k + 1;
    }
    PROVINCE_COUNT
}

/// Borders go both ways: an army, or a fleet, that can move from one place
/// to another can move back, and two provinces border each other either
/// both ways or not at all.
#[verifier::rlimit(50)]
pub proof fn law_adjacency_symmetric(a: Province, b: Province)
    ensures
        spec_army_adj(a.index(), b.index()) == spec_army_adj(b.index(), a.index()),
        spec_fleet_adj(a.index(), b.index()) == spec_fleet_adj(b.index(), a.index()),
        spec_area_adj(a.index(), b.index()) == spec_area_adj(b.index(), a.index()),
{
}

/// Borders between provinces go both ways.
#[verifier::rlimit(50)]
proof fn lemma_area_adj_symmetric(a: int, b: int)
    ensures
        spec_area_adj(a, b) == spec_area_adj(b, a),
{
}

/// A province in the ball of radius `k` around `a` that borders `x` puts `x`
/// in the ball of radius `k + 1`.
proof fn lemma_ball_extend(a: int, k: nat, w: int, x: int)
    requires
        0 <= w < PROVINCE_COUNT,
        0 <= x < PROVINCE_COUNT,
        ball(a, k)[w],
        spec_area_adj(w, x),
    ensures
        ball(a, k + 1)[x],
{
    assert(ball_step(ball(a, k), x));
}

/// A ball only grows with its radius.
proof fn lemma_ball_grows(a: int, k: nat, w: int)
    requires
        0 <= w < PROVINCE_COUNT,
        ball(a, k)[w],
    ensures
        ball(a, k + 1)[w],
{
    assert(ball_step(ball(a, k), w));
}

/// A province within `k` borders of a neighbour `v` of `a` is within `k + 1` borders of `a`.
proof fn lemma_ball_prepend(a: int, v: int, k: nat, w: int)
    requires
        0 <= a < PROVINCE_COUNT,
        0 <= v < PROVINCE_COUNT,
        0 <= w < PROVINCE_COUNT,
        spec_area_adj(a, v),
        ball(v, k)[w],
    ensures
        ball(a, k + 1)[w],
    decreases k,
{
    if k == 0 {
        assert(w == v);
        assert(ball(a, 0)[a]);
        lemma_ball_extend(a, 0, a, w);
    } else {
        let prev = ball(v, (k - 1) as nat);
        assert(ball_step(prev, w));
        if prev[w] {
            lemma_ball_prepend(a, v, (k - 1) as nat, w);
            lemma_ball_grows(a, k, w);
        } else {
            let u = choose|u: int| 0 <= u < PROVINCE_COUNT && prev[u] && #[trigger] spec_area_adj(u, w);
            lemma_ball_prepend(a, v, (k - 1) as nat, u);
            lemma_ball_extend(a, k, u, w);
        }
    }
}

/// Being within `k` borders is symmetric.
proof fn lemma_ball_symmetric(a: int, b: int, k: nat)
    requires
        0 <= a < PROVINCE_COUNT,
        0 <= b < PROVINCE_COUNT,
        ball(a, k)[b],
    ensures
        ball(b, k)[a],
    decreases k,
{
    if k > 0 {
        let prev = ball(a, (k - 1) as nat);
        assert(ball_step(prev, b));
        if prev[b] {
            lemma_ball_symmetric(a, b, (k - 1) as nat);
            lemma_ball_grows(b, (k - 1) as nat, a);
        } else {
            let v = choose|v: int| 0 <= v < PROVINCE_COUNT && prev[v] && #[trigger] spec_area_adj(v, b);
            lemma_ball_symmetric(a, v, (k - 1) as nat);
            lemma_area_adj_symmetric(v, b);
            lemma_ball_prepend(b, v, (k - 1) as nat, a);
        }
    }
}

/// The distances from `k` on agree both ways.
proof fn lemma_distance_from_symmetric(a: int, b: int, k: nat)
    requires
        0 <= a < PROVINCE_COUNT,
        0 <= b < PROVINCE_COUNT,
    ensures
        spec_distance_from(a, b, k) == spec_distance_from(b, a, k),
    decreases PROVINCE_COUNT - k,
{
    if k < PROVINCE_COUNT {
        if ball(a, k)[b] {
            lemma_ball_symmetric(a, b, k);
        } else if ball(b, k)[a] {
            lemma_ball_symmetric(b, a, k);
        } else {
            lemma_distance_from_symmetric(a, b, k + 1);
        }
    }
}

/// The distance between two provinces is the same both ways.
pub proof fn law_distance_symmetric(a: Province, b: Province)
    requires
        0 <= a.index() < PROVINCE_COUNT,
        0 <= b.index() < PROVINCE_COUNT,
    ensures
        spec_distance(a.index(), b.index()) == spec_distance(b.index(), a.index()),
{
    lemma_area_range(a.index());
    lemma_area_range(b.index());
    lemma_distance_from_symmetric(spec_area(a.index()), spec_area(b.index()), 0);
}

} // verus!
