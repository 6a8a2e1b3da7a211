use vstd::prelude::*;
use crate::map::distance;
use crate::map::spec_distance;
use crate::map::spec_distance_from;
use crate::province::PROVINCE_COUNT;
use crate::province::spec_area;
use crate::power::Power;
use crate::province::name_rank;
use crate::province::spec_name_rank;
use crate::territory::Territory;
use crate::unit::Unit;

verus! {

broadcast use vstd::seq_lib::group_to_multiset_ensures;

/// The least distance from the province at `p` to a territory of `power` in
/// `ts`, if `power` has one.
pub open spec fn min_distance(p: int, power: Power, ts: Seq<Territory>) -> Option<nat>
    decreases ts.len(),
{
    if ts.len() == 0 {
        None
    } else {
        let rest = min_distance(p, power, ts.drop_last());
        let t = ts.last();
        if t.power != power {
            rest
        } else {
            let d = spec_distance(p, t.province.index());
            match rest {
                Some(m) => if d < m {
                    Some(d)
                } else {
                    Some(m)
                },
                None => Some(d),
            }
        }
    }
}

/// Distance of a unit from the nearest territory of `power` (0 when it has none).
pub open spec fn civil_distance(u: Unit, power: Power, ts: Seq<Territory>) -> nat {
    match min_distance(u.province.index(), power, ts) {
        Some(d) => d,
        None => 0,
    }
}

/// Sort key of the removal of units in civil disorder: farthest first, then
/// armies before fleets, then by the alphabetical order of the province names.
pub open spec fn civil_key(u: Unit, power: Power, ts: Seq<Territory>) -> int {
    (1000 - civil_distance(u, power, ts)) * 256 + (if u.kind is Army {
        0int
    } else {
        1int
    }) * 128 + spec_name_rank(u.province.index())
}

/// The units of `us` owned by `power`, in order.
pub open spec fn units_of(us: Seq<Unit>, power: Power) -> Seq<Unit>
    decreases us.len(),
{
    if us.len() == 0 {
        Seq::empty()
    } else {
        let rest = units_of(us.drop_last(), power);
        if us.last().power == power {
            rest.push(us.last())
        } else {
            rest
        }
    }
}

/// Operations on collections of units.
pub trait UnitHelper {
    /// The units of `power` in the order in which civil disorder removes them.
    fn collect_units_for_civil_disorder(&self, power: &Power, territories: &[Territory]) -> Vec<
        Unit,
    >;
}

/// Distance of `u` from the nearest territory of `power` (0 when it has none).
fn civil_distance_of(u: &Unit, power: &Power, territories: &[Territory]) -> (r: u64)
    ensures
        r == civil_distance(*u, *power, territories@),
        r <= 255,
{
    let mut best: Option<u64> = None;
    let mut i: usize = 0;
    while i < territories.len()
        invariant
            i <= territories@.len(),
            best is Some <==> min_distance(u.province.index(), *power, territories@.take(i as int))
                is Some,
            best is Some ==> best->0 == min_distance(
                u.province.index(),
                *power,
                territories@.take(i as int),
            )->0,
            best is Some ==> best->0 <= 255,
        decreases territories@.len() - i,
    {
        assert(territories@.take(i + 1).drop_last() =~= territories@.take(i as int));
        let t = territories[i];
        if t.power == *power {
            let d = distance(u.province, t.province) as u64;
            best = match best {
                Some(m) => if d < m {
                    Some(d)
                } else {
                    Some(m)
                },
                None => Some(d),
            };
        }
        i = i + 1;
    }
    assert(territories@.take(territories@.len() as int) =~= territories@);
    match best {
        Some(m) => m,
        None => 0,
    }
}

/// Sort key of `u` for civil disorder.
fn civil_key_of(u: &Unit, power: &Power, territories: &[Territory]) -> (r: u64)
    ensures
        r == civil_key(*u, *power, territories@),
{
    let d = civil_distance_of(u, power, territories);
    let kind: u64 = if u.is_fleet() {
        1
    } else {
        0
    };
    (1000 - d) * 256 + kind * 128 + name_rank(u.province.id()) as u64
}

impl UnitHelper for [Unit] {
    /// The units of `power`, sorted by decreasing distance from the nearest
    /// territory of `power`, then armies before fleets, then by province name.
    fn collect_units_for_civil_disorder(&self, power: &Power, territories: &[Territory]) -> (r: Vec<Unit>)
        ensures
            r@.to_multiset() == units_of(self@, *power).to_multiset(),
            forall|i: int, j: int|
                0 <= i < j < r@.len() ==> civil_key(r@[i], *power, territories@) <= civil_key(
                    r@[j],
                    *power,
                    territories@,
                ),
    {
        let mut r: Vec<Unit> = Vec::new();
        let mut keys: Vec<u64> = Vec::new();
        let mut i: usize = 0;
        while i < self.len()
            invariant
                i <= self@.len(),
                keys@.len() == r@.len(),
                forall|k: int| 0 <= k < r@.len() ==> #[trigger] keys@[k] == civil_key(
                    r@[k],
                    *power,
                    territories@,
                ),
                forall|a: int, b: int| 0 <= a < b < keys@.len() ==> keys@[a] <= keys@[b],
                r@.to_multiset() == units_of(self@.take(i as int), *power).to_multiset(),
            decreases self@.len() - i,
        {
            assert(self@.take(i + 1).drop_last() =~= self@.take(i as int));
            let u = self[i];
            if u.power == *power {
                let k = civil_key_of(&u, power, territories);
                let mut p: usize = 0;
                while p < keys.len() && keys[p] <= k
                    invariant
                        p <= keys@.len(),
                        forall|a: int| 0 <= a < p ==> keys@[a] <= k,
                    decreases keys@.len() - p,
                {
                    p = p + 1;
                }
                let ghost old_r = r@;
                let ghost old_keys = keys@;
                r.insert(p, u);
                keys.insert(p, k);
                proof {
                    assert(r@ == old_r.insert(p as int, u));
                    assert(keys@ == old_keys.insert(p as int, k));
                    assert forall|a: int, b: int| 0 <= a < b < keys@.len() implies keys@[a]
                        <= keys@[b] by {
                        if b < p {
                        } else if b == p {
                        } else if a < p {
                            assert(keys@[b] == old_keys[b - 1]);
                            if p < old_keys.len() {
                                assert(old_keys[p as int] > k);
                                assert(old_keys[p as int] <= old_keys[b - 1]);
                            }
                        } else if a == p {
                            assert(keys@[b] == old_keys[b - 1]);
                            assert(old_keys[p as int] > k);
                        } else {
                            assert(keys@[a] == old_keys[a - 1]);
                            assert(keys@[b] == old_keys[b - 1]);
                        }
                    }
                    assert forall|k2: int| 0 <= k2 < r@.len() implies #[trigger] keys@[k2]
                        == civil_key(r@[k2], *power, territories@) by {
                        if k2 < p {
                        } else if k2 == p {
                        } else {
                            assert(keys@[k2] == old_keys[k2 - 1]);
                            assert(r@[k2] == old_r[k2 - 1]);
                        }
                    }
                    assert(units_of(self@.take(i + 1), *power) == units_of(
                        self@.take(i as int),
                        *power,
                    ).push(u));
                }
            }
            i = i + 1;
        }
        assert(self@.take(self@.len() as int) =~= self@);
        assert forall|a: int, b: int| 0 <= a < b < r@.len() implies civil_key(
            r@[a],
            *power,
            territories@,
        ) <= civil_key(r@[b], *power, territories@) by {
            assert(keys@[a] == civil_key(r@[a], *power, territories@));
            assert(keys@[b] == civil_key(r@[b], *power, territories@));
        }
        r
    }
}

/// The civil-disorder distance of a unit is the least distance from its
/// province to a territory of the given power: no territory of that power is
/// nearer, one of them is exactly that far (when the power owns any; else the
/// distance is 0), and territories of other powers play no part.
pub proof fn law_civil_distance(u: Unit, power: Power, ts: Seq<Territory>, other: Territory)
    ensures
        forall|k: int|
            0 <= k < ts.len() && ts[k].power == power ==> civil_distance(u, power, ts) <= spec_distance(
                u.province.index(),
                #[trigger] ts[k].province.index(),
            ),
        (exists|k: int| 0 <= k < ts.len() && #[trigger] ts[k].power == power) ==> exists|k: int|
            0 <= k < ts.len() && #[trigger] ts[k].power == power && civil_distance(u, power, ts)
                == spec_distance(u.province.index(), ts[k].province.index()),
        (forall|k: int| 0 <= k < ts.len() ==> #[trigger] ts[k].power != power) ==> civil_distance(
            u,
            power,
            ts,
        ) == 0,
        other.power != power ==> civil_distance(u, power, ts.push(other)) == civil_distance(u, power, ts),
    decreases ts.len(),
{
    let p = u.province.index();
    assert(ts.push(other).drop_last() =~= ts);
    if ts.len() > 0 {
        let rest = ts.drop_last();
        law_civil_distance(u, power, rest, other);
        let t = ts.last();
        assert forall|k: int|
            0 <= k < ts.len() && ts[k].power == power implies civil_distance(u, power, ts) <= spec_distance(
            p,
            #[trigger] ts[k].province.index(),
        ) by {
            if k < ts.len() - 1 {
                assert(rest[k] == ts[k]);
                if t.power == power {
                    lemma_min_some(p, power, rest, k);
                }
            }
        }
        if exists|k: int| 0 <= k < ts.len() && #[trigger] ts[k].power == power {
            if t.power == power {
                let d = spec_distance(p, t.province.index());
                if min_distance(p, power, rest) is Some && min_distance(p, power, rest)->0 <= d {
                    if forall|k: int| 0 <= k < rest.len() ==> #[trigger] rest[k].power != power {
                        lemma_min_none(p, power, rest);
                    }
                    let k = choose|k: int|
                        0 <= k < rest.len() && #[trigger] rest[k].power == power && civil_distance(u, power, rest)
                            == spec_distance(p, rest[k].province.index());
                    assert(ts[k] == rest[k]);
                } else {
                    if min_distance(p, power, rest) is None {
                        assert forall|k: int| 0 <= k < rest.len() implies #[trigger] rest[k].power != power by {
                            if rest[k].power == power {
                                assert(min_distance(p, power, rest) is Some) by {
                                    lemma_min_some(p, power, rest, k);
                                }
                            }
                        }
                    }
                    assert(ts[ts.len() - 1] == t);
                }
            } else {
                let w = choose|k: int| 0 <= k < ts.len() && #[trigger] ts[k].power == power;
                assert(w < ts.len() - 1);
                assert(rest[w] == ts[w]);
                let k = choose|k: int|
                    0 <= k < rest.len() && #[trigger] rest[k].power == power && civil_distance(u, power, rest)
                        == spec_distance(p, rest[k].province.index());
                assert(ts[k] == rest[k]);
            }
        }
        if forall|k: int| 0 <= k < ts.len() ==> #[trigger] ts[k].power != power {
            assert forall|k: int| 0 <= k < rest.len() implies #[trigger] rest[k].power != power by {
                assert(rest[k] == ts[k]);
            }
            assert(ts[ts.len() - 1] == t);
        }
    }
}

/// Without a territory of `power` in `ts` no least distance is known.
proof fn lemma_min_none(p: int, power: Power, ts: Seq<Territory>)
    requires
        forall|k: int| 0 <= k < ts.len() ==> #[trigger] ts[k].power != power,
    ensures
        min_distance(p, power, ts) is None,
    decreases ts.len(),
{
    if ts.len() > 0 {
        assert forall|k: int| 0 <= k < ts.drop_last().len() implies #[trigger] ts.drop_last()[k].power != power by {
            assert(ts.drop_last()[k] == ts[k]);
        }
        lemma_min_none(p, power, ts.drop_last());
        assert(ts[ts.len() - 1] == ts.last());
    }
}

/// A territory of `power` in `ts` makes the least distance known.
proof fn lemma_min_some(p: int, power: Power, ts: Seq<Territory>, k: int)
    requires
        0 <= k < ts.len(),
        ts[k].power == power,
    ensures
        min_distance(p, power, ts) is Some,
    decreases ts.len(),
{
    if k < ts.len() - 1 {
        assert(ts.drop_last()[k] == ts[k]);
        lemma_min_some(p, power, ts.drop_last(), k);
    }
}

/// No distance exceeds the number of provinces.
proof fn lemma_distance_bound(a: int, b: int, k: nat)
    ensures
        spec_distance_from(a, b, k) <= PROVINCE_COUNT,
    decreases PROVINCE_COUNT - k,
{
    if k < PROVINCE_COUNT {
        lemma_distance_bound(a, b, k + 1);
    }
}

/// The alphabetical rank of a province lies within the table.
proof fn lemma_name_rank_bound(i: int)
    ensures
        0 <= spec_name_rank(i) <= 80,
{
}

/// Civil disorder removes the farthest unit first; at equal distance an
/// army before a fleet; at equal distance and kind, by the alphabetical
/// order of the province names. So whenever `u` comes no later than `w` in
/// the removal order, `u` is at least as far, a fleet comes first only
/// after the armies at its distance, and so on.
pub proof fn law_civil_order(u: Unit, w: Unit, power: Power, ts: Seq<Territory>)
    requires
        civil_key(u, power, ts) <= civil_key(w, power, ts),
    ensures
        civil_distance(u, power, ts) >= civil_distance(w, power, ts),
        civil_distance(u, power, ts) == civil_distance(w, power, ts) && u.kind is Fleet ==> w.kind is Fleet,
        civil_distance(u, power, ts) == civil_distance(w, power, ts) && (u.kind is Army) == (w.kind is Army)
            ==> spec_name_rank(u.province.index()) <= spec_name_rank(w.province.index()),
{
    let t = Territory { power, province: u.province };
    law_civil_distance(u, power, ts, t);
    law_civil_distance(w, power, ts, t);
    if exists|k: int| 0 <= k < ts.len() && #[trigger] ts[k].power == power {
        let k = choose|k: int|
            0 <= k < ts.len() && #[trigger] ts[k].power == power && civil_distance(u, power, ts)
                == spec_distance(u.province.index(), ts[k].province.index());
        let j = choose|k: int|
            0 <= k < ts.len() && #[trigger] ts[k].power == power && civil_distance(w, power, ts)
                == spec_distance(w.province.index(), ts[k].province.index());
        lemma_distance_bound(spec_area(u.province.index()), spec_area(ts[k].province.index()), 0);
        lemma_distance_bound(spec_area(w.province.index()), spec_area(ts[j].province.index()), 0);
    }
    lemma_name_rank_bound(u.province.index());
    lemma_name_rank_bound(w.province.index());
}

/// The units taken for civil disorder are the units of that power, all of them.
pub proof fn law_units_of(us: Seq<Unit>, power: Power)
    ensures
        forall|k: int| 0 <= k < units_of(us, power).len() ==> (#[trigger] units_of(us, power)[k]).power == power
            && us.contains(units_of(us, power)[k]),
        forall|m: int| 0 <= m < us.len() && (#[trigger] us[m]).power == power ==> units_of(us, power).contains(us[m]),
    decreases us.len(),
{
    if us.len() > 0 {
        let rest = us.drop_last();
        law_units_of(rest, power);
        assert forall|k: int| 0 <= k < units_of(us, power).len() implies (#[trigger] units_of(us, power)[k]).power
            == power && us.contains(units_of(us, power)[k]) by {
            if k < units_of(rest, power).len() {
                let x = units_of(rest, power)[k];
                assert(units_of(us, power)[k] == x);
                let q = choose|q: int| 0 <= q < rest.len() && rest[q] == x;
                assert(us[q] == x);
            } else {
                assert(us[us.len() - 1] == us.last());
            }
        }
        assert forall|m: int| 0 <= m < us.len() && (#[trigger] us[m]).power == power implies units_of(
            us,
            power,
        ).contains(us[m]) by {
            if m < us.len() - 1 {
                assert(rest[m] == us[m]);
                let q = choose|q: int| 0 <= q < units_of(rest, power).len() && units_of(rest, power)[q] == us[m];
                assert(units_of(us, power)[q] == us[m]);
            } else {
                assert(us.last() == us[m]);
                let w = units_of(us, power);
                assert(w[w.len() - 1] == us[m]);
            }
        }
    }
}

} // verus!
