use vstd::prelude::*;
use crate::adjustment_order_helper::AdjustmentOrderHelper;
use crate::adjustment_order_helper::is_pending_of;
use crate::map::can_unit_exist_at;
use crate::map::spec_can_exist_at;
use crate::order::Order;
use crate::order::OrderKind;
use crate::order::OrderStatus;
use crate::order::new_order;
use crate::phase::Phase;
use crate::phase::spec_count_supply_centers;
use crate::phase::spec_count_units;
use crate::power::Power;
use crate::power::power_at;
use crate::power::power_index;
use crate::province::spec_area;
use crate::province::spec_is_home_sc_at;
use crate::territory::Territory;
use crate::unit::Unit;
use crate::unit_helper::UnitHelper;
use crate::unit_helper::civil_key;
use crate::unit_helper::units_of;
use crate::validation::copy_orders;
use crate::validation::with_status;

verus! {

/// Supply centers of `p` minus its units: how many units it may build
/// (when positive) or must remove (when negative).
pub open spec fn build_capacity(ts: Seq<Territory>, us: Seq<Unit>, p: Power) -> int {
    spec_count_supply_centers(ts, p) - spec_count_units(us, p)
}

/// Whether `o`, judged as a build, places its unit on a home supply center
/// of the unit's power that the power owns, where no unit stands, and that
/// suits the kind of unit.
pub open spec fn build_site_ok(o: Order, us: Seq<Unit>, ts: Seq<Territory>) -> bool {
    let a = spec_area(o.unit.province.index());
    &&& spec_is_home_sc_at(a, o.unit.power)
    &&& exists|k: int|
        0 <= k < ts.len() && #[trigger] ts[k].power == o.unit.power && spec_area(
            ts[k].province.index(),
        ) == a
    &&& forall|k: int| 0 <= k < us.len() ==> spec_area(#[trigger] us[k].province.index()) != a
    &&& spec_can_exist_at(o.unit, o.unit.province)
}

/// Number of the unresolved orders of `p` before position `i` that are sound builds.
pub open spec fn sound_builds_before(
    os: Seq<Order>,
    i: int,
    p: Power,
    us: Seq<Unit>,
    ts: Seq<Territory>,
) -> nat
    decreases i,
{
    if i <= 0 {
        0
    } else {
        sound_builds_before(os, i - 1, p, us, ts) + if is_pending_of(os[i - 1], p)
            && build_site_ok(os[i - 1], us, ts) {
            1nat
        } else {
            0nat
        }
    }
}

/// What the validation of builds makes of the order at `i`: an unresolved
/// order of a power that still has capacity for it (counting the sound builds
/// before it) becomes valid when it is a sound build and invalid otherwise.
pub open spec fn build_outcome(os: Seq<Order>, i: int, us: Seq<Unit>, ts: Seq<Territory>) -> Order {
    let o = os[i];
    if o.status == OrderStatus::Unresolved && sound_builds_before(os, i, o.unit.power, us, ts)
        < build_capacity(ts, us, o.unit.power) {
        with_status(
            o,
            if build_site_ok(o, us, ts) {
                OrderStatus::Valid
            } else {
                OrderStatus::Invalid
            },
        )
    } else {
        o
    }
}

/// Whether `o` is an unresolved order to remove its unit.
pub open spec fn is_pending_disband(o: Order) -> bool {
    o.status == OrderStatus::Unresolved && o.kind is Disband
}

/// Whether the order at `i` is the first pending removal of its unit, and the unit is on the board.
pub open spec fn is_removal_claim(os: Seq<Order>, i: int, us: Seq<Unit>) -> bool {
    &&& is_pending_disband(os[i])
    &&& us.contains(os[i].unit)
    &&& forall|j: int|
        0 <= j < i ==> !(is_pending_disband(#[trigger] os[j]) && os[j].unit == os[i].unit)
}

/// Number of the removal claims of units of `p` before position `i`.
pub open spec fn claims_before(os: Seq<Order>, i: int, p: Power, us: Seq<Unit>) -> nat
    decreases i,
{
    if i <= 0 {
        0
    } else {
        claims_before(os, i - 1, p, us) + if is_removal_claim(os, i - 1, us) && os[i
            - 1].unit.power == p {
            1nat
        } else {
            0nat
        }
    }
}

/// What the validation of removals makes of the order at `i`: a pending
/// removal is valid when it is a claim and its power still has units to
/// remove (counting the claims before it), and invalid otherwise.
pub open spec fn disband_outcome(os: Seq<Order>, i: int, us: Seq<Unit>, ts: Seq<Territory>) -> Order {
    let o = os[i];
    if is_pending_disband(o) {
        with_status(
            o,
            if is_removal_claim(os, i, us) && claims_before(os, i, o.unit.power, us)
                < -build_capacity(ts, us, o.unit.power) {
                OrderStatus::Valid
            } else {
                OrderStatus::Invalid
            },
        )
    } else {
        o
    }
}

/// How many units of `p` are still to be removed once its own removals are counted.
pub open spec fn removals_left(os: Seq<Order>, us: Seq<Unit>, ts: Seq<Territory>, p: Power) -> int {
    let owed = -build_capacity(ts, us, p);
    let claimed = claims_before(os, os.len() as int, p, us);
    if owed > claimed {
        owed - claimed
    } else {
        0
    }
}

/// Whether one of `os` is a valid removal of `u`.
pub open spec fn is_removed(os: Seq<Order>, u: Unit) -> bool {
    exists|j: int|
        0 <= j < os.len() && #[trigger] os[j].status == OrderStatus::Valid && os[j].kind is Disband
            && os[j].unit == u
}

/// A valid order to remove `u`.
pub open spec fn removal_of(u: Unit) -> Order {
    with_status(new_order(u, OrderKind::Disband), OrderStatus::Valid)
}

/// Whether `ranked` holds the units of `p` in the order of removal under civil disorder.
pub open spec fn is_civil_ranking(ranked: Seq<Unit>, us: Seq<Unit>, p: Power, ts: Seq<Territory>) -> bool {
    &&& ranked.to_multiset() == units_of(us, p).to_multiset()
    &&& forall|a: int, b: int|
        0 <= a < b < ranked.len() ==> civil_key(ranked[a], p, ts) <= civil_key(ranked[b], p, ts)
}

/// The removals that civil disorder adds: the first `n` units of `ranked`
/// that no order of `os` removes already.
pub open spec fn civil_picks(ranked: Seq<Unit>, n: nat, os: Seq<Order>) -> Seq<Order>
    decreases ranked.len(),
{
    if ranked.len() == 0 || n == 0 {
        Seq::empty()
    } else if is_removed(os, ranked[0]) {
        civil_picks(ranked.drop_first(), n, os)
    } else {
        seq![removal_of(ranked[0])] + civil_picks(ranked.drop_first(), (n - 1) as nat, os)
    }
}

/// The removals added for the first `k` powers, in the canonical order of the powers.
pub open spec fn civil_orders(
    ranked: Seq<Seq<Unit>>,
    k: int,
    os: Seq<Order>,
    mid: Seq<Order>,
    us: Seq<Unit>,
    ts: Seq<Territory>,
) -> Seq<Order>
    decreases k,
{
    if k <= 0 {
        Seq::empty()
    } else {
        civil_orders(ranked, k - 1, os, mid, us, ts) + civil_picks(
            ranked[k - 1],
            removals_left(os, us, ts, power_at(k - 1)) as nat,
            mid,
        )
    }
}

/// Number of the orders among the first `n` that were pending for `p` and
/// that the validation of builds grants.
pub open spec fn granted_builds(os: Seq<Order>, n: int, p: Power, us: Seq<Unit>, ts: Seq<Territory>) -> nat
    decreases n,
{
    if n <= 0 {
        0
    } else {
        granted_builds(os, n - 1, p, us, ts) + if is_pending_of(os[n - 1], p) && build_outcome(
            os,
            n - 1,
            us,
            ts,
        ).status == OrderStatus::Valid {
            1nat
        } else {
            0nat
        }
    }
}

/// The builds granted to `p` among the first `n` orders are its sound builds
/// there, up to its capacity.
proof fn lemma_granted_builds(os: Seq<Order>, n: int, p: Power, us: Seq<Unit>, ts: Seq<Territory>)
    requires
        0 <= n <= os.len(),
    ensures
        granted_builds(os, n, p, us, ts) == if sound_builds_before(os, n, p, us, ts) < build_capacity(
            ts,
            us,
            p,
        ) {
            sound_builds_before(os, n, p, us, ts) as int
        } else if build_capacity(ts, us, p) > 0 {
            build_capacity(ts, us, p)
        } else {
            0
        },
    decreases n,
{
    if n > 0 {
        lemma_granted_builds(os, n - 1, p, us, ts);
    }
}

/// A power is granted no more builds than it has supply centers beyond its units.
pub proof fn law_builds_within_capacity(os: Seq<Order>, us: Seq<Unit>, ts: Seq<Territory>, p: Power)
    ensures
        granted_builds(os, os.len() as int, p, us, ts) <= if build_capacity(ts, us, p) > 0 {
            build_capacity(ts, us, p)
        } else {
            0
        },
{
    lemma_granted_builds(os, os.len() as int, p, us, ts);
}

/// Number of the orders among the first `n` that were pending removals of
/// units of `p` and that the validation of removals grants.
pub open spec fn granted_removals(os: Seq<Order>, n: int, p: Power, us: Seq<Unit>, ts: Seq<Territory>) -> nat
    decreases n,
{
    if n <= 0 {
        0
    } else {
        granted_removals(os, n - 1, p, us, ts) + if is_pending_disband(os[n - 1]) && os[n
            - 1].unit.power == p && disband_outcome(os, n - 1, us, ts).status == OrderStatus::Valid {
            1nat
        } else {
            0nat
        }
    }
}

/// The removals granted to `p` among the first `n` orders are its claims
/// there, up to the number of units it owes.
proof fn lemma_granted_removals(os: Seq<Order>, n: int, p: Power, us: Seq<Unit>, ts: Seq<Territory>)
    requires
        0 <= n <= os.len(),
    ensures
        granted_removals(os, n, p, us, ts) == if claims_before(os, n, p, us) < -build_capacity(
            ts,
            us,
            p,
        ) {
            claims_before(os, n, p, us) as int
        } else if -build_capacity(ts, us, p) > 0 {
            -build_capacity(ts, us, p)
        } else {
            0
        },
    decreases n,
{
    if n > 0 {
        lemma_granted_removals(os, n - 1, p, us, ts);
    }
}

/// The removals that a power orders and that are granted, together with
/// those still left for civil disorder, make up exactly the units it must
/// remove (none when it has no more units than supply centers).
pub proof fn law_removals_balance(os: Seq<Order>, us: Seq<Unit>, ts: Seq<Territory>, p: Power)
    ensures
        granted_removals(os, os.len() as int, p, us, ts) + removals_left(os, us, ts, p) == if -build_capacity(
            ts,
            us,
            p,
        ) > 0 {
            -build_capacity(ts, us, p)
        } else {
            0
        },
{
    lemma_granted_removals(os, os.len() as int, p, us, ts);
}

/// Civil disorder adds at most the number of removals asked of it, each a
/// valid removal of a unit of the ranking that no order removes already.
pub proof fn law_civil_picks_bounded(ranked: Seq<Unit>, n: nat, os: Seq<Order>)
    ensures
        civil_picks(ranked, n, os).len() <= n,
        forall|k: int|
            0 <= k < civil_picks(ranked, n, os).len() ==> exists|j: int|
                0 <= j < ranked.len() && #[trigger] civil_picks(ranked, n, os)[k] == removal_of(
                    ranked[j],
                ) && !is_removed(os, ranked[j]),
    decreases ranked.len(),
{
    if ranked.len() > 0 && n > 0 {
        let rest = ranked.drop_first();
        if is_removed(os, ranked[0]) {
            law_civil_picks_bounded(rest, n, os);
            assert forall|k: int| 0 <= k < civil_picks(ranked, n, os).len() implies exists|j: int|
                0 <= j < ranked.len() && #[trigger] civil_picks(ranked, n, os)[k] == removal_of(
                    ranked[j],
                ) && !is_removed(os, ranked[j]) by {
                let j = choose|j: int|
                    0 <= j < rest.len() && #[trigger] civil_picks(rest, n, os)[k] == removal_of(
                        rest[j],
                    ) && !is_removed(os, rest[j]);
                assert(ranked[j + 1] == rest[j]);
            }
        } else {
            law_civil_picks_bounded(rest, (n - 1) as nat, os);
            let tail = civil_picks(rest, (n - 1) as nat, os);
            assert forall|k: int| 0 <= k < civil_picks(ranked, n, os).len() implies exists|j: int|
                0 <= j < ranked.len() && #[trigger] civil_picks(ranked, n, os)[k] == removal_of(
                    ranked[j],
                ) && !is_removed(os, ranked[j]) by {
                if k == 0 {
                    assert(civil_picks(ranked, n, os)[0] == removal_of(ranked[0]));
                } else {
                    assert(civil_picks(ranked, n, os)[k] == tail[k - 1]);
                    let j = choose|j: int|
                        0 <= j < rest.len() && #[trigger] tail[k - 1] == removal_of(rest[j])
                            && !is_removed(os, rest[j]);
                    assert(ranked[j + 1] == rest[j]);
                }
            }
        }
    }
}

/// The count of sound builds never decreases along the orders.
proof fn lemma_sound_builds_monotonic(
    os: Seq<Order>,
    a: int,
    b: int,
    p: Power,
    us: Seq<Unit>,
    ts: Seq<Territory>,
)
    requires
        a <= b,
    ensures
        sound_builds_before(os, a, p, us, ts) <= sound_builds_before(os, b, p, us, ts),
    decreases b - a,
{
    if a < b {
        lemma_sound_builds_monotonic(os, a, b - 1, p, us, ts);
    }
}

/// The count of sound builds does not change over orders that are not pending for `p`.
proof fn lemma_sound_builds_flat(
    os: Seq<Order>,
    a: int,
    b: int,
    p: Power,
    us: Seq<Unit>,
    ts: Seq<Territory>,
)
    requires
        0 <= a <= b <= os.len(),
        forall|j: int| a <= j < b ==> !is_pending_of(#[trigger] os[j], p),
    ensures
        sound_builds_before(os, a, p, us, ts) == sound_builds_before(os, b, p, us, ts),
    decreases b - a,
{
    if a < b {
        lemma_sound_builds_flat(os, a, b - 1, p, us, ts);
    }
}

/// The removals added for the first `k` powers depend on the rankings of those powers only.
proof fn lemma_civil_orders_prefix(
    ranked: Seq<Seq<Unit>>,
    extra: Seq<Unit>,
    k: int,
    os: Seq<Order>,
    mid: Seq<Order>,
    us: Seq<Unit>,
    ts: Seq<Territory>,
)
    requires
        0 <= k <= ranked.len(),
    ensures
        civil_orders(ranked.push(extra), k, os, mid, us, ts) == civil_orders(ranked, k, os, mid, us, ts),
    decreases k,
{
    if k > 0 {
        lemma_civil_orders_prefix(ranked, extra, k - 1, os, mid, us, ts);
        assert(ranked.push(extra)[k - 1] == ranked[k - 1]);
    }
}

/// Whether one of the first `n` orders is a valid removal of `u`.
fn removed_among(orders: &Vec<Order>, n: usize, u: &Unit) -> (r: bool)
    requires
        n <= orders@.len(),
    ensures
        r == is_removed(orders@.take(n as int), *u),
{
    let ghost mid = orders@.take(n as int);
    let mut l: usize = 0;
    while l < n
        invariant
            l <= n,
            n <= orders@.len(),
            mid == orders@.take(n as int),
            forall|j: int|
                0 <= j < l ==> !(#[trigger] mid[j].status == OrderStatus::Valid && mid[j].kind is Disband
                    && mid[j].unit == *u),
        decreases n - l,
    {
        let o = &orders[l];
        if o.is_valid() && matches!(o.kind, OrderKind::Disband) && o.unit == *u {
            assert(mid[l as int] == orders@[l as int]);
            return true;
        }
        assert(mid[l as int] == orders@[l as int]);
        l = l + 1;
    }
    false
}

/// Whether `u` is one of `us`.
fn unit_on_board(us: &Vec<Unit>, u: &Unit) -> (r: bool)
    ensures
        r == us@.contains(*u),
{
    let mut k: usize = 0;
    while k < us.len()
        invariant
            k <= us@.len(),
            forall|j: int| 0 <= j < k ==> us@[j] != *u,
        decreases us@.len() - k,
    {
        if us[k] == *u {
            return true;
        }
        k = k + 1;
    }
    false
}

/// Whether no order before `i` is a pending removal of `u`.
fn first_removal(orders: &Vec<Order>, i: usize, u: &Unit) -> (r: bool)
    requires
        i <= orders@.len(),
    ensures
        r == forall|j: int|
            0 <= j < i ==> !(is_pending_disband(#[trigger] orders@[j]) && orders@[j].unit == *u),
{
    let mut j: usize = 0;
    while j < i
        invariant
            j <= i,
            i <= orders@.len(),
            forall|l: int|
                0 <= l < j ==> !(is_pending_disband(#[trigger] orders@[l]) && orders@[l].unit == *u),
        decreases i - j,
    {
        let o = &orders[j];
        if o.is_unresolved() && matches!(o.kind, OrderKind::Disband) && o.unit == *u {
            return false;
        }
        j = j + 1;
    }
    true
}

/// Whether the order `o`, judged as a build, passes the checks of `build_site_ok`.
fn check_build_site(o: &Order, us: &Vec<Unit>, ts: &Vec<Territory>) -> (r: bool)
    ensures
        r == build_site_ok(*o, us@, ts@),
{
    let power = o.unit.power;
    let area = o.unit.province.area();
    if !(area.is_supply_center() && area.home_power() == Some(power)) {
        return false;
    }
    let mut owned = false;
    let mut k: usize = 0;
    while k < ts.len()
        invariant
            k <= ts@.len(),
            area.index() == spec_area(o.unit.province.index()),
            power == o.unit.power,
            owned == exists|j: int|
                0 <= j < k && #[trigger] ts@[j].power == power && spec_area(
                    ts@[j].province.index(),
                ) == area.index(),
        decreases ts@.len() - k,
    {
        if ts[k].power == power && ts[k].province.area().id() == area.id() {
            owned = true;
        }
        k = k + 1;
    }
    if !owned {
        return false;
    }
    let mut k: usize = 0;
    while k < us.len()
        invariant
            k <= us@.len(),
            area.index() == spec_area(o.unit.province.index()),
            forall|j: int| 0 <= j < k ==> spec_area(#[trigger] us@[j].province.index()) != area.index(),
        decreases us@.len() - k,
    {
        if us[k].province.area().id() == area.id() {
            return false;
        }
        k = k + 1;
    }
    can_unit_exist_at(&o.unit, o.unit.province)
}

/// The adjudication of the adjustment phase.
pub struct AdjustmentAdjudicator;

impl AdjustmentAdjudicator {
    /// Validates the removals, taking them one by one: a removal is granted
    /// while its power has more units than supply centers, provided that the
    /// unit is on the board and was not named by an earlier removal.  Then,
    /// for each power that still has units to remove, civil disorder adds
    /// valid removals of its units in their order of removal.
    pub fn validate_disband_orders(current_phase: &mut Phase)
        ensures
            final(current_phase).data.orders@.len() >= old(current_phase).data.orders@.len(),
            forall|i: int|
                0 <= i < old(current_phase).data.orders@.len() ==> #[trigger] final(current_phase).data.orders@[i]
                    == disband_outcome(
                    old(current_phase).data.orders@,
                    i,
                    old(current_phase).data.units@,
                    old(current_phase).data.territories@,
                ),
            exists|ranked: Seq<Seq<Unit>>|
                ranked.len() == 7 && (forall|k: int|
                    0 <= k < 7 && removals_left(
                        old(current_phase).data.orders@,
                        old(current_phase).data.units@,
                        old(current_phase).data.territories@,
                        power_at(k),
                    ) > 0 ==> is_civil_ranking(
                        #[trigger] ranked[k],
                        old(current_phase).data.units@,
                        power_at(k),
                        old(current_phase).data.territories@,
                    )) && final(current_phase).data.orders@.skip(
                    old(current_phase).data.orders@.len() as int,
                ) == civil_orders(
                    ranked,
                    7,
                    old(current_phase).data.orders@,
                    final(current_phase).data.orders@.take(old(current_phase).data.orders@.len() as int),
                    old(current_phase).data.units@,
                    old(current_phase).data.territories@,
                ),
            final(current_phase).data.units@ == old(current_phase).data.units@,
            final(current_phase).data.territories@ == old(current_phase).data.territories@,
            final(current_phase).data.resolved_units@ == old(current_phase).data.resolved_units@,
            final(current_phase).data.standoff_province_codes@ == old(current_phase).data.standoff_province_codes@,
            final(current_phase).year == old(current_phase).year,
            final(current_phase).id == old(current_phase).id,
            final(current_phase).kind == old(current_phase).kind,
    {
        let ghost os = old(current_phase).data.orders@;
        let ghost us = old(current_phase).data.units@;
        let ghost ts = old(current_phase).data.territories@;
        let snapshot = copy_orders(&current_phase.data.orders);
        let powers = Power::all();
        let mut rem: Vec<usize> = Vec::new();
        let mut k: usize = 0;
        while k < 7
            invariant
                k <= 7,
                powers@.len() == 7,
                forall|q: int| 0 <= q < 7 ==> #[trigger] powers@[q] == power_at(q),
                current_phase.data.units@ == us,
                current_phase.data.territories@ == ts,
                rem@.len() == k,
                forall|q: int|
                    0 <= q < k ==> #[trigger] rem@[q] == if -build_capacity(ts, us, power_at(q))
                        > 0 {
                        -build_capacity(ts, us, power_at(q))
                    } else {
                        0
                    },
            decreases 7 - k,
        {
            let p = powers[k];
            let sc = current_phase.count_supply_centers(&p);
            let uc = current_phase.count_units(&p);
            rem.push(
                if uc > sc {
                    uc - sc
                } else {
                    0
                },
            );
            k = k + 1;
        }
        let n = current_phase.data.orders.len();
        let mut i: usize = 0;
        while i < n
            invariant
                i <= n,
                n == os.len(),
                snapshot@ == os,
                current_phase.data.orders@.len() == n,
                current_phase.data.units@ == us,
                current_phase.data.territories@ == ts,
                current_phase.data.resolved_units@ == old(current_phase).data.resolved_units@,
                current_phase.data.standoff_province_codes@ == old(current_phase).data.standoff_province_codes@,
                current_phase.year == old(current_phase).year,
                current_phase.id == old(current_phase).id,
                current_phase.kind == old(current_phase).kind,
                forall|l: int|
                    0 <= l < i ==> #[trigger] current_phase.data.orders@[l] == disband_outcome(
                        os,
                        l,
                        us,
                        ts,
                    ),
                forall|l: int| i <= l < n ==> #[trigger] current_phase.data.orders@[l] == os[l],
                rem@.len() == 7,
                forall|q: int|
                    0 <= q < 7 ==> #[trigger] rem@[q] == if -build_capacity(ts, us, power_at(q))
                        > claims_before(os, i as int, power_at(q), us) {
                        -build_capacity(ts, us, power_at(q)) - claims_before(
                            os,
                            i as int,
                            power_at(q),
                            us,
                        )
                    } else {
                        0
                    },
            decreases n - i,
        {
            let o = current_phase.data.orders[i];
            if o.is_unresolved() && matches!(o.kind, OrderKind::Disband) {
                let present = unit_on_board(&current_phase.data.units, &o.unit);
                let first = first_removal(&snapshot, i, &o.unit);
                let pi = o.unit.power.index();
                let claim = present && first;
                proof {
                    assert(claim == is_removal_claim(os, i as int, us));
                    assert(power_at(pi as int) == o.unit.power);
                }
                if claim && rem[pi] > 0 {
                    current_phase.data.orders.set(i, Order { status: OrderStatus::Valid, ..o });
                    let left = rem[pi] - 1;
                    rem.set(pi, left);
                } else {
                    current_phase.data.orders.set(i, Order { status: OrderStatus::Invalid, ..o });
                }
            }
            i = i + 1;
        }
        let ghost mid = current_phase.data.orders@;
        assert(mid == current_phase.data.orders@.take(n as int));
        let ghost mut ranked: Seq<Seq<Unit>> = Seq::empty();
        let mut k: usize = 0;
        while k < 7
            invariant
                k <= 7,
                n == os.len(),
                powers@.len() == 7,
                forall|q: int| 0 <= q < 7 ==> #[trigger] powers@[q] == power_at(q),
                current_phase.data.orders@.len() >= n,
                current_phase.data.orders@.take(n as int) == mid,
                forall|l: int| 0 <= l < n ==> #[trigger] mid[l] == disband_outcome(os, l, us, ts),
                current_phase.data.units@ == us,
                current_phase.data.territories@ == ts,
                current_phase.data.resolved_units@ == old(current_phase).data.resolved_units@,
                current_phase.data.standoff_province_codes@ == old(current_phase).data.standoff_province_codes@,
                current_phase.year == old(current_phase).year,
                current_phase.id == old(current_phase).id,
                current_phase.kind == old(current_phase).kind,
                rem@.len() == 7,
                forall|q: int|
                    0 <= q < 7 ==> #[trigger] rem@[q] == removals_left(os, us, ts, power_at(q)),
                ranked.len() == k,
                forall|q: int|
                    0 <= q < k && removals_left(os, us, ts, power_at(q)) > 0 ==> is_civil_ranking(
                        #[trigger] ranked[q],
                        us,
                        power_at(q),
                        ts,
                    ),
                current_phase.data.orders@.skip(n as int) == civil_orders(
                    ranked,
                    k as int,
                    os,
                    mid,
                    us,
                    ts,
                ),
            decreases 7 - k,
        {
            let p = powers[k];
            let mut left = rem[k];
            if left > 0 {
                let sorted = current_phase.data.units.as_slice().collect_units_for_civil_disorder(
                    &p,
                    current_phase.data.territories.as_slice(),
                );
                proof {
                    lemma_civil_orders_prefix(ranked, sorted@, k as int, os, mid, us, ts);
                    ranked = ranked.push(sorted@);
                    assert(sorted@.subrange(0, sorted@.len() as int) =~= sorted@);
                }
                let mut j: usize = 0;
                while j < sorted.len() && left > 0
                    invariant
                        j <= sorted@.len(),
                        k < 7,
                        n == os.len(),
                        ranked.len() == k + 1,
                        ranked[k as int] == sorted@,
                        current_phase.data.orders@.len() >= n,
                        current_phase.data.orders@.take(n as int) == mid,
                        current_phase.data.units@ == us,
                        current_phase.data.territories@ == ts,
                        current_phase.data.resolved_units@ == old(current_phase).data.resolved_units@,
                        current_phase.data.standoff_province_codes@ == old(current_phase).data.standoff_province_codes@,
                        current_phase.year == old(current_phase).year,
                        current_phase.id == old(current_phase).id,
                        current_phase.kind == old(current_phase).kind,
                        current_phase.data.orders@.skip(n as int) + civil_picks(
                            sorted@.subrange(j as int, sorted@.len() as int),
                            left as nat,
                            mid,
                        ) == civil_orders(ranked, k + 1, os, mid, us, ts),
                    decreases sorted@.len() - j,
                {
                    let u = sorted[j];
                    let ghost rest = sorted@.subrange(j as int, sorted@.len() as int);
                    let ghost before = current_phase.data.orders@;
                    assert(rest[0] == u);
                    assert(rest.drop_first() =~= sorted@.subrange(j + 1, sorted@.len() as int));
                    let removed = removed_among(&current_phase.data.orders, n, &u);
                    if !removed {
                        current_phase.data.orders.push(
                            Order {
                                power: u.power,
                                unit: u,
                                kind: OrderKind::Disband,
                                status: OrderStatus::Valid,
                                dislodged_from: None,
                            },
                        );
                        left = left - 1;
                        proof {
                            assert(current_phase.data.orders@.take(n as int) =~= before.take(
                                n as int,
                            ));
                            assert(current_phase.data.orders@.skip(n as int) =~= before.skip(
                                n as int,
                            ).push(removal_of(u)));
                            assert(before.skip(n as int).push(removal_of(u)) + civil_picks(
                                sorted@.subrange(j + 1, sorted@.len() as int),
                                left as nat,
                                mid,
                            ) =~= before.skip(n as int) + (seq![removal_of(u)] + civil_picks(
                                sorted@.subrange(j + 1, sorted@.len() as int),
                                left as nat,
                                mid,
                            )));
                        }
                    }
                    j = j + 1;
                }
                proof {
                    let rest = sorted@.subrange(j as int, sorted@.len() as int);
                    assert(civil_picks(rest, left as nat, mid) =~= Seq::<Order>::empty());
                    assert(current_phase.data.orders@.skip(n as int) + Seq::<Order>::empty()
                        =~= current_phase.data.orders@.skip(n as int));
                }
            } else {
                proof {
                    lemma_civil_orders_prefix(ranked, Seq::empty(), k as int, os, mid, us, ts);
                    ranked = ranked.push(Seq::empty());
                    assert(civil_picks(Seq::<Unit>::empty(), 0, mid) =~= Seq::<Order>::empty());
                    assert(civil_orders(ranked, k + 1, os, mid, us, ts) =~= civil_orders(
                        ranked,
                        k as int,
                        os,
                        mid,
                        us,
                        ts,
                    ));
                }
            }
            k = k + 1;
        }
        proof {
            assert forall|i: int| 0 <= i < os.len() implies #[trigger] current_phase.data.orders@[i]
                == disband_outcome(os, i, us, ts) by {
                assert(current_phase.data.orders@[i] == current_phase.data.orders@.take(
                    n as int,
                )[i]);
            }
        }
    }

    /// Marks every order that is still unresolved as invalid.
    pub fn invalidate_unresolved_orders(current_phase: &mut Phase)
        ensures
            final(current_phase).data.orders@.len() == old(current_phase).data.orders@.len(),
            forall|i: int|
                0 <= i < old(current_phase).data.orders@.len() ==> #[trigger] final(current_phase).data.orders@[i]
                    == if old(current_phase).data.orders@[i].status == OrderStatus::Unresolved {
                    with_status(old(current_phase).data.orders@[i], OrderStatus::Invalid)
                } else {
                    old(current_phase).data.orders@[i]
                },
            final(current_phase).data.units@ == old(current_phase).data.units@,
            final(current_phase).data.territories@ == old(current_phase).data.territories@,
            final(current_phase).data.resolved_units@ == old(current_phase).data.resolved_units@,
            final(current_phase).data.standoff_province_codes@ == old(current_phase).data.standoff_province_codes@,
            final(current_phase).year == old(current_phase).year,
            final(current_phase).id == old(current_phase).id,
            final(current_phase).kind == old(current_phase).kind,
    {
        let ghost os = old(current_phase).data.orders@;
        let idxs = current_phase.data.orders.as_slice().collect_unresolved_order_idxs();
        let mut k: usize = 0;
        while k < idxs.len()
            invariant
                k <= idxs@.len(),
                forall|a: int, b: int| 0 <= a < b < idxs@.len() ==> idxs@[a] < idxs@[b],
                forall|c: int|
                    0 <= c < idxs@.len() ==> idxs@[c] < os.len() && #[trigger] os[idxs@[c] as int].status
                        == OrderStatus::Unresolved,
                forall|j: int|
                    0 <= j < os.len() && #[trigger] os[j].status == OrderStatus::Unresolved
                        ==> exists|c: int| 0 <= c < idxs@.len() && idxs@[c] == j,
                current_phase.data.orders@.len() == os.len(),
                forall|j: int|
                    0 <= j < os.len() ==> #[trigger] current_phase.data.orders@[j] == if os[j].status
                        == OrderStatus::Unresolved && (k == idxs@.len() || j < idxs@[k as int]) {
                        with_status(os[j], OrderStatus::Invalid)
                    } else {
                        os[j]
                    },
                current_phase.data.units@ == old(current_phase).data.units@,
                current_phase.data.territories@ == old(current_phase).data.territories@,
                current_phase.data.resolved_units@ == old(current_phase).data.resolved_units@,
                current_phase.data.standoff_province_codes@ == old(current_phase).data.standoff_province_codes@,
                current_phase.year == old(current_phase).year,
                current_phase.id == old(current_phase).id,
                current_phase.kind == old(current_phase).kind,
            decreases idxs@.len() - k,
        {
            let idx = idxs[k];
            assert(os[idx as int].status == OrderStatus::Unresolved);
            let o = current_phase.data.orders[idx];
            current_phase.data.orders.set(idx, Order { status: OrderStatus::Invalid, ..o });
            proof {
                assert forall|j: int| 0 <= j < os.len() implies #[trigger] current_phase.data.orders@[j]
                    == if os[j].status == OrderStatus::Unresolved && (k + 1 == idxs@.len() || j
                    < idxs@[k + 1]) {
                    with_status(os[j], OrderStatus::Invalid)
                } else {
                    os[j]
                } by {
                    if j != idx && os[j].status == OrderStatus::Unresolved {
                        let c = choose|c: int| 0 <= c < idxs@.len() && idxs@[c] == j;
                        if c < k {
                            assert(idxs@[c] < idxs@[k as int]);
                        } else if c > k {
                            if k + 1 < idxs@.len() {
                                assert(idxs@[k + 1] <= idxs@[c]);
                            }
                            assert(j > idx);
                        }
                    }
                }
            }
            k = k + 1;
        }
        proof {
            if idxs@.len() > 0 {
                assert forall|j: int| 0 <= j < os.len() implies #[trigger] current_phase.data.orders@[j]
                    == if os[j].status == OrderStatus::Unresolved {
                    with_status(os[j], OrderStatus::Invalid)
                } else {
                    os[j]
                } by {
                }
            }
        }
    }

    /// Validates the builds: for each power with more supply centers than
    /// units, its unresolved orders are taken in turn, each sound build being
    /// granted, until the power has no capacity left.
    pub fn validate_build_orders(current_phase: &mut Phase)
        ensures
            final(current_phase).data.orders@.len() == old(current_phase).data.orders@.len(),
            forall|i: int|
                0 <= i < old(current_phase).data.orders@.len() ==> #[trigger] final(current_phase).data.orders@[i] == build_outcome(
                    old(current_phase).data.orders@,
                    i,
                    old(current_phase).data.units@,
                    old(current_phase).data.territories@,
                ),
            final(current_phase).data.units@ == old(current_phase).data.units@,
            final(current_phase).data.territories@ == old(current_phase).data.territories@,
            final(current_phase).data.resolved_units@ == old(current_phase).data.resolved_units@,
            final(current_phase).data.standoff_province_codes@ == old(current_phase).data.standoff_province_codes@,
            final(current_phase).year == old(current_phase).year,
            final(current_phase).id == old(current_phase).id,
            final(current_phase).kind == old(current_phase).kind,
    {
        let ghost os = old(current_phase).data.orders@;
        let ghost us = old(current_phase).data.units@;
        let ghost ts = old(current_phase).data.territories@;
        let powers = Power::all();
        let mut k: usize = 0;
        while k < 7
            invariant
                k <= 7,
                powers@.len() == 7,
                forall|q: int| 0 <= q < 7 ==> #[trigger] powers@[q] == power_at(q),
                current_phase.data.orders@.len() == os.len(),
                current_phase.data.units@ == us,
                current_phase.data.territories@ == ts,
                current_phase.data.resolved_units@ == old(current_phase).data.resolved_units@,
                current_phase.data.standoff_province_codes@ == old(current_phase).data.standoff_province_codes@,
                current_phase.year == old(current_phase).year,
                current_phase.id == old(current_phase).id,
                current_phase.kind == old(current_phase).kind,
                forall|i: int|
                    0 <= i < os.len() ==> #[trigger] current_phase.data.orders@[i] == if power_index(
                        os[i].unit.power,
                    ) < k {
                        build_outcome(os, i, us, ts)
                    } else {
                        os[i]
                    },
            decreases 7 - k,
        {
            let p = powers[k];
            assert(power_index(p) == k);
            let sc = current_phase.count_supply_centers(&p);
            let uc = current_phase.count_units(&p);
            let ghost cap: int = build_capacity(ts, us, p);
            if sc > uc {
                let mut remaining: usize = sc - uc;
                let ghost mut cursor: int = 0;
                let mut done = false;
                while remaining > 0 && !done
                    invariant
                        0 <= cursor <= os.len(),
                        power_index(p) == k,
                        k < 7,
                        cap == sc - uc,
                        cap == build_capacity(ts, us, p),
                        remaining + sound_builds_before(os, cursor, p, us, ts) == cap,
                        current_phase.data.orders@.len() == os.len(),
                        current_phase.data.units@ == us,
                        current_phase.data.territories@ == ts,
                        current_phase.data.resolved_units@ == old(current_phase).data.resolved_units@,
                        current_phase.data.standoff_province_codes@ == old(current_phase).data.standoff_province_codes@,
                        current_phase.year == old(current_phase).year,
                        current_phase.id == old(current_phase).id,
                        current_phase.kind == old(current_phase).kind,
                        done ==> forall|j: int|
                            cursor <= j < os.len() ==> !is_pending_of(#[trigger] os[j], p),
                        forall|i: int|
                            0 <= i < os.len() ==> #[trigger] current_phase.data.orders@[i]
                                == if power_index(os[i].unit.power) < k || (os[i].unit.power == p
                                && i < cursor) {
                                build_outcome(os, i, us, ts)
                            } else {
                                os[i]
                            },
                    decreases os.len() - cursor + if done {
                        0int
                    } else {
                        1int
                    },
                {
                    let found = current_phase.data.orders.as_slice().get_unresolved_order_idxs_by_power(
                        &p,
                    );
                    match found {
                        None => {
                            assert forall|j: int| cursor <= j < os.len() implies !is_pending_of(
                                #[trigger] os[j],
                                p,
                            ) by {
                                if os[j].unit.power == p {
                                    assert(current_phase.data.orders@[j] == os[j]);
                                }
                            }
                            done = true;
                        },
                        Some(i) => {
                            proof {
                                assert forall|j: int| 0 <= j < cursor && os[j].unit.power == p
                                    implies !is_pending_of(
                                    #[trigger] current_phase.data.orders@[j],
                                    p,
                                ) by {
                                    lemma_sound_builds_monotonic(os, j, cursor, p, us, ts);
                                    assert(current_phase.data.orders@[j] == build_outcome(
                                        os,
                                        j,
                                        us,
                                        ts,
                                    ));
                                    assert(sound_builds_before(os, j, p, us, ts) < cap);
                                }
                                if (i as int) < cursor {
                                    assert(os[i as int].unit.power == p);
                                }
                                assert forall|j: int| cursor <= j < i implies !is_pending_of(
                                    #[trigger] os[j],
                                    p,
                                ) by {
                                    if os[j].unit.power == p {
                                        assert(current_phase.data.orders@[j] == os[j]);
                                    }
                                }
                                lemma_sound_builds_flat(os, cursor, i as int, p, us, ts);
                                assert(current_phase.data.orders@[i as int] == os[i as int]);
                            }
                            let o = current_phase.data.orders[i];
                            let ok = check_build_site(
                                &o,
                                &current_phase.data.units,
                                &current_phase.data.territories,
                            );
                            if ok {
                                current_phase.data.orders.set(
                                    i,
                                    Order { status: OrderStatus::Valid, ..o },
                                );
                                remaining = remaining - 1;
                            } else {
                                current_phase.data.orders.set(
                                    i,
                                    Order { status: OrderStatus::Invalid, ..o },
                                );
                            }
                            proof {
                                cursor = i + 1;
                            }
                        },
                    }
                }
                proof {
                    assert forall|i: int| 0 <= i < os.len() implies #[trigger] current_phase.data.orders@[i]
                        == if power_index(os[i].unit.power) < k + 1 {
                        build_outcome(os, i, us, ts)
                    } else {
                        os[i]
                    } by {
                        if os[i].unit.power == p && i >= cursor {
                            if remaining == 0 {
                                lemma_sound_builds_monotonic(os, cursor, i, p, us, ts);
                            }
                        }
                    }
                }
            } else {
                proof {
                    assert forall|i: int| 0 <= i < os.len() implies #[trigger] current_phase.data.orders@[i]
                        == if power_index(os[i].unit.power) < k + 1 {
                        build_outcome(os, i, us, ts)
                    } else {
                        os[i]
                    } by {
                        if os[i].unit.power == p {
                            assert(sound_builds_before(os, i, p, us, ts) >= 0);
                        }
                    }
                }
            }
            k = k + 1;
        }
        proof {
            assert forall|i: int| 0 <= i < os.len() implies #[trigger] current_phase.data.orders@[i]
                == build_outcome(os, i, us, ts) by {
                assert(power_index(os[i].unit.power) < 7);
            }
        }
    }
}

} // verus!
