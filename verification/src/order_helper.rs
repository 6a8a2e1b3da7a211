use vstd::prelude::*;
use indexmap::IndexSet;
use crate::order::ConvoyOrder;
use crate::order::MoveOrder;
use crate::order::Order;
use crate::order::OrderKind;
use crate::order::OrderStatus;
use crate::order::spec_is_assumed;
use crate::order::spec_matching_target;
use crate::power::Power;
use crate::province::Province;
use crate::province::Terrain;
use crate::province::lemma_code_len;
use crate::province::spec_code;
use crate::province::spec_terrain;
use crate::text::prefix3_eq;

verus! {

broadcast use vstd::seq_lib::group_seq_properties;

#[verifier::external_type_specification]
#[verifier::external_body]
#[verifier::reject_recursive_types(T)]
#[verifier::reject_recursive_types(S)]
pub struct ExIndexSet<T, S>(IndexSet<T, S>);

/// The items of a set of province positions, in the order of their insertion.
pub uninterp spec fn index_set_items(s: IndexSet<u8>) -> Seq<u8>;

/// `IndexSet::new`: a new set holds no item.
#[verifier::external_body]
fn new_position_set() -> (r: IndexSet<u8>)
    ensures
        index_set_items(r) == Seq::<u8>::empty(),
{
    IndexSet::new()
}

/// `IndexSet::insert`: an item already in the set leaves it as it was and
/// `false` is returned; a new item goes after the others and `true` is returned.
#[verifier::external_body]
fn insert_position(set: &mut IndexSet<u8>, item: u8) -> (r: bool)
    ensures
        r == !index_set_items(*old(set)).contains(item),
        index_set_items(*final(set)) == if r {
            index_set_items(*old(set)).push(item)
        } else {
            index_set_items(*old(set))
        },
{
    set.insert(item)
}

/// The kinds of order that the collections below pick, among the orders
/// given by the owners of their units.
pub enum Selection {
    NotInvalid,
    Active,
    Unresolved,
    UnresolvedMove,
    ValidMove,
    UnresolvedSupport,
    ValidSupport,
    UnresolvedConvoy,
    ValidConvoy,
}

/// Whether `o` is of the kind that `sel` picks.
pub open spec fn selects(sel: Selection, o: Order) -> bool {
    !spec_is_assumed(o) && match sel {
        Selection::NotInvalid => o.status != OrderStatus::Invalid,
        Selection::Active => o.status != OrderStatus::Invalid && o.status != OrderStatus::Dislodged
            && o.status != OrderStatus::Unreachable,
        Selection::Unresolved => o.status == OrderStatus::Unresolved,
        Selection::UnresolvedMove => o.status == OrderStatus::Unresolved && o.kind is Move,
        Selection::ValidMove => o.status == OrderStatus::Valid && o.kind is Move,
        Selection::UnresolvedSupport => o.status == OrderStatus::Unresolved && o.kind is Support,
        Selection::ValidSupport => o.status == OrderStatus::Valid && o.kind is Support,
        Selection::UnresolvedConvoy => o.status == OrderStatus::Unresolved && o.kind is Convoy,
        Selection::ValidConvoy => o.status == OrderStatus::Valid && o.kind is Convoy,
    }
}

/// The predicate of `sel`.
pub open spec fn selector(sel: Selection) -> spec_fn(Order) -> bool {
    |o: Order| selects(sel, o)
}

/// The positions of the orders that satisfy `pred`, in increasing order.
pub open spec fn positions_by(os: Seq<Order>, pred: spec_fn(Order) -> bool) -> Seq<usize>
    decreases os.len(),
{
    if os.len() == 0 {
        Seq::empty()
    } else {
        let prev = positions_by(os.drop_last(), pred);
        if pred(os.last()) {
            prev.push((os.len() - 1) as usize)
        } else {
            prev
        }
    }
}

/// The position of the first order that satisfies `pred`, if any.
pub open spec fn first_position(os: Seq<Order>, pred: spec_fn(Order) -> bool) -> Option<usize> {
    if exists|j: int| 0 <= j < os.len() && #[trigger] pred(os[j]) {
        Some(
            (choose|j: int|
                0 <= j < os.len() && pred(os[j]) && forall|k: int|
                    0 <= k < j ==> !#[trigger] pred(os[k])) as usize,
        )
    } else {
        None
    }
}

/// An order satisfying `pred` with none before it is the first such position.
proof fn lemma_first_position_at(os: Seq<Order>, pred: spec_fn(Order) -> bool, i: int)
    requires
        0 <= i < os.len(),
        pred(os[i]),
        forall|k: int| 0 <= k < i ==> !#[trigger] pred(os[k]),
    ensures
        first_position(os, pred) == Some(i as usize),
{
    let c = choose|j: int|
        0 <= j < os.len() && pred(os[j]) && forall|k: int| 0 <= k < j ==> !#[trigger] pred(os[k]);
    assert(c == i) by {
        if c < i {
        } else if c > i {
        }
    }
}

/// The items of `s` without repetitions, each where it first occurs.
pub open spec fn distinct_in_order<A>(s: Seq<A>) -> Seq<A>
    decreases s.len(),
{
    if s.len() == 0 {
        Seq::empty()
    } else {
        let prev = distinct_in_order(s.drop_last());
        if prev.contains(s.last()) {
            prev
        } else {
            prev.push(s.last())
        }
    }
}

/// Whether the provinces `a` and `b` have codes that start alike (the same province, or coasts of one).
pub open spec fn same_code_prefix(a: Province, b: Province) -> bool {
    spec_code(a.index()).subrange(0, 3) == spec_code(b.index()).subrange(0, 3)
}

/// Whether the code of `p` starts with the first three characters of `code`.
pub open spec fn code_prefix_is(p: Province, code: Seq<char>) -> bool {
    spec_code(p.index()).subrange(0, 3) == code.subrange(0, 3)
}

/// Whether `m` is a valid move of another power than that of `t` into the province of `t`.
pub open spec fn attacks(m: Order, t: Order) -> bool {
    &&& !spec_is_assumed(m)
    &&& m.status == OrderStatus::Valid
    &&& m.power != t.power
    &&& m.kind is Move
    &&& same_code_prefix(m.kind->Move_0.dest, t.unit.province)
}

/// Whether `c` is a convoy on water that carries the move `a`.
pub open spec fn carries(c: Order, a: Order) -> bool {
    c.kind is Convoy && spec_matching_target(c, a) && spec_terrain(c.unit.province.index())
        == Terrain::Water
}

/// The destinations of the valid moves, by position on the map.
pub open spec fn valid_move_destinations(os: Seq<Order>) -> Seq<u8> {
    os.filter(selector(Selection::ValidMove)).map_values(|o: Order| o.kind->Move_0.dest.index() as u8)
}

/// The provinces where a fleet of the orders stands on water.
pub open spec fn fleet_waters(os: Seq<Order>) -> Seq<Province> {
    os.filter(|o: Order| o.unit.kind is Fleet && spec_terrain(o.unit.province.index()) == Terrain::Water).map_values(
        |o: Order| o.unit.province,
    )
}

/// Whether `s` is a valid support, of another power than `excluded` when given, of `t`.
pub open spec fn supports_of(s: Order, t: Order, excluded: Option<Power>) -> bool {
    &&& selects(Selection::ValidSupport, s)
    &&& spec_matching_target(s, t)
    &&& match excluded {
        Some(p) => s.power != p,
        None => true,
    }
}

/// Number of the orders of `os` that are valid supports of `t` (not of power `excluded`).
pub open spec fn support_count(os: Seq<Order>, t: Order, excluded: Option<Power>) -> nat
    decreases os.len(),
{
    if os.len() == 0 {
        0
    } else {
        support_count(os.drop_last(), t, excluded) + if supports_of(os.last(), t, excluded) {
            1nat
        } else {
            0nat
        }
    }
}

/// The largest number of supports, not of the power of `t`, of the orders at `atts`.
pub open spec fn max_support_count(os: Seq<Order>, atts: Seq<usize>, t: Order) -> nat
    decreases atts.len(),
{
    if atts.len() == 0 {
        0
    } else {
        let prev = max_support_count(os, atts.drop_last(), t);
        let c = support_count(os, os[atts.last() as int], Some(t.unit.power));
        if c > prev {
            c
        } else {
            prev
        }
    }
}

/// Whether `o` holds the province whose code starts like `code`: given by the
/// owner, at that province, and not a successful move.
pub open spec fn occupies(o: Order, code: Seq<char>) -> bool {
    !spec_is_assumed(o) && code_prefix_is(o.unit.province, code) && !(o.kind is Move && o.status
        == OrderStatus::Success)
}

/// Number of the valid moves into the province whose code starts like `code`.
pub open spec fn moves_into_count(os: Seq<Order>, code: Seq<char>) -> nat
    decreases os.len(),
{
    if os.len() == 0 {
        0
    } else {
        moves_into_count(os.drop_last(), code) + if selects(Selection::ValidMove, os.last())
            && code_prefix_is(os.last().kind->Move_0.dest, code) {
            1nat
        } else {
            0nat
        }
    }
}

/// The power that holds the province whose code starts like `code`, judged
/// by the first order there given by the owner of its unit: a move that
/// succeeded leaves the province empty, a failed move leaves it to the power
/// that gave the order, and any other order to the owner of the unit.
pub open spec fn occupant_power(os: Seq<Order>, code: Seq<char>) -> Option<Power> {
    match first_position(os, |o: Order| !spec_is_assumed(o) && code_prefix_is(o.unit.province, code)) {
        None => None,
        Some(j) => {
            let o = os[j as int];
            if !(o.kind is Move) || o.status == OrderStatus::Valid {
                Some(o.unit.power)
            } else if o.status == OrderStatus::Failure {
                Some(o.power)
            } else {
                None
            }
        },
    }
}

/// Whether `o` is of the kind that `sel` picks.
fn picks(sel: &Selection, o: &Order) -> (r: bool)
    ensures
        r == selects(*sel, *o),
{
    if o.is_assumed() {
        return false;
    }
    let is_move = matches!(o.kind, OrderKind::Move(_));
    let is_support = matches!(o.kind, OrderKind::Support(_));
    let is_convoy = matches!(o.kind, OrderKind::Convoy(_));
    match sel {
        Selection::NotInvalid => !o.is_invalid(),
        Selection::Active => !o.is_invalid() && !o.is_dislodged() && !o.is_unreachable(),
        Selection::Unresolved => o.is_unresolved(),
        Selection::UnresolvedMove => o.is_unresolved() && is_move,
        Selection::ValidMove => o.is_valid() && is_move,
        Selection::UnresolvedSupport => o.is_unresolved() && is_support,
        Selection::ValidSupport => o.is_valid() && is_support,
        Selection::UnresolvedConvoy => o.is_unresolved() && is_convoy,
        Selection::ValidConvoy => o.is_valid() && is_convoy,
    }
}

/// The positions of the orders that `sel` picks.
fn positions_of(orders: &[Order], sel: Selection) -> (r: Vec<usize>)
    ensures
        r@ == positions_by(orders@, selector(sel)),
{
    let mut r: Vec<usize> = Vec::new();
    let mut i: usize = 0;
    while i < orders.len()
        invariant
            i <= orders@.len(),
            r@ == positions_by(orders@.take(i as int), selector(sel)),
        decreases orders@.len() - i,
    {
        assert(orders@.take(i + 1).drop_last() =~= orders@.take(i as int));
        if picks(&sel, &orders[i]) {
            r.push(i);
        }
        i = i + 1;
    }
    assert(orders@.take(orders@.len() as int) =~= orders@);
    r
}

/// The orders that `sel` picks, in order.
fn orders_of(orders: &[Order], sel: Selection) -> (r: Vec<Order>)
    ensures
        r@ == orders@.filter(selector(sel)),
{
    let mut r: Vec<Order> = Vec::new();
    let mut i: usize = 0;
    while i < orders.len()
        invariant
            i <= orders@.len(),
            r@ == orders@.take(i as int).filter(selector(sel)),
        decreases orders@.len() - i,
    {
        let o = orders[i];
        proof {
            assert(orders@.take(i + 1) =~= orders@.take(i as int).push(o));
            orders@.take(i as int).lemma_filter_push(o, selector(sel));
        }
        if picks(&sel, &o) {
            r.push(o);
        }
        i = i + 1;
    }
    assert(orders@.take(orders@.len() as int) =~= orders@);
    r
}

/// Whether the code of `p` starts with the first three characters of `code`.
fn has_code_prefix(p: Province, code: &str) -> (r: bool)
    requires
        code@.len() >= 3,
    ensures
        r == code_prefix_is(p, code@),
{
    let c = p.code();
    let pos = p.id();
    proof {
        lemma_code_len(pos as int);
    }
    prefix3_eq(c, code)
}

/// Number of the valid supports of `t` among `orders`, leaving out those of `excluded`.
fn count_supports_of(orders: &[Order], t: &Order, excluded: Option<Power>) -> (r: usize)
    ensures
        r == support_count(orders@, *t, excluded),
{
    let mut n: usize = 0;
    let mut i: usize = 0;
    while i < orders.len()
        invariant
            i <= orders@.len(),
            n == support_count(orders@.take(i as int), *t, excluded),
            n <= i,
        decreases orders@.len() - i,
    {
        assert(orders@.take(i + 1).drop_last() =~= orders@.take(i as int));
        let s = &orders[i];
        let not_excluded = match excluded {
            Some(p) => s.power != p,
            None => true,
        };
        if picks(&Selection::ValidSupport, s) && s.is_matching_target(t) && not_excluded {
            n = n + 1;
        }
        i = i + 1;
    }
    assert(orders@.take(orders@.len() as int) =~= orders@);
    n
}

/// Queries on the orders of a phase.
pub trait OrderHelper {
    /// The orders, as a sequence.
    spec fn orders_view(&self) -> Seq<Order>;

    fn collect_not_invalid_orders(&self) -> Vec<Order>;

    fn collect_valid_order_indices(&self) -> Vec<usize>;

    fn collect_unresolved_indices(&self) -> Vec<usize>;

    fn collect_unresolved_move_indices(&self) -> Vec<usize>;

    fn collect_valid_move_orders(&self) -> Vec<Order>;

    fn collect_valid_move_indices(&self) -> Vec<usize>;

    fn collect_attacker_indicies(&self, target_idx: usize) -> Vec<usize>
        requires
            target_idx < self.orders_view().len(),
    ;

    fn collect_unresolved_support_indices(&self) -> Vec<usize>;

    fn collect_valid_support_orders(&self) -> Vec<Order>;

    fn collect_valid_support_indices(&self) -> Vec<usize>;

    fn collect_unresolved_convoy_indices(&self) -> Vec<usize>;

    fn collect_valid_convoy_orders(&self) -> Vec<Order>;

    fn collect_valid_convoy_indices(&self) -> Vec<usize>;

    fn collect_matched_convoy_order_indices(&self, attack_order: &Order) -> Vec<usize>;

    fn collect_valid_move_destination_set(&self) -> IndexSet<u8>;

    fn collect_fleet_water_codes(&self) -> Vec<&'static str>;

    fn find_support_target_idx(&self, support_idx: usize) -> Option<usize>
        requires
            support_idx < self.orders_view().len(),
    ;

    fn find_convoy_target_idx(&self, convoy_idx: usize) -> Option<usize>
        requires
            convoy_idx < self.orders_view().len(),
    ;

    fn find_convoy_at_dest_idx(&self, m: MoveOrder) -> Option<usize>;

    fn find_support_at_dest_idx(&self, move_idx: usize) -> Option<usize>
        requires
            move_idx < self.orders_view().len(),
    ;

    fn find_occupant_order_idx(&self, target_location_code: &str) -> Option<usize>
        requires
            target_location_code@.len() >= 3,
    ;

    fn get_support_target_move_order_kind(&self, support_order_idx: usize) -> Option<MoveOrder>
        requires
            support_order_idx < self.orders_view().len(),
    ;

    fn get_support_target_convoy_order_kind(&self, support_order_idx: usize) -> Option<
        (usize, ConvoyOrder),
    >
        requires
            support_order_idx < self.orders_view().len(),
    ;

    fn count_supports(&self, target_idx: usize, exclude_power: Option<&Power>) -> usize
        requires
            target_idx < self.orders_view().len(),
    ;

    fn count_max_supports_for_attackers(&self, attacker_indicies: &[usize], target_idx: usize) -> usize
        requires
            target_idx < self.orders_view().len(),
            forall|k: int| 0 <= k < attacker_indicies@.len() ==> #[trigger] attacker_indicies@[k] < self.orders_view().len(),
    ;

    fn has_confliction(&self, target_location_code: &str) -> bool
        requires
            target_location_code@.len() >= 3,
    ;

    fn occupant_power_on_target(&self, target_code: &str) -> Option<Power>
        requires
            target_code@.len() >= 3,
    ;
}

impl OrderHelper for [Order] {
    open spec fn orders_view(&self) -> Seq<Order> {
        self@
    }

    /// The orders given by the owners of their units that are not invalid.
    fn collect_not_invalid_orders(&self) -> (r: Vec<Order>)
        ensures
            r@ == self@.filter(selector(Selection::NotInvalid)),
    {
        orders_of(self, Selection::NotInvalid)
    }

    /// Positions of the orders still in play: not invalid, dislodged or unreachable.
    fn collect_valid_order_indices(&self) -> (r: Vec<usize>)
        ensures
            r@ == positions_by(self@, selector(Selection::Active)),
    {
        positions_of(self, Selection::Active)
    }

    /// Positions of the unresolved orders.
    fn collect_unresolved_indices(&self) -> (r: Vec<usize>)
        ensures
            r@ == positions_by(self@, selector(Selection::Unresolved)),
    {
        positions_of(self, Selection::Unresolved)
    }

    /// Positions of the unresolved moves.
    fn collect_unresolved_move_indices(&self) -> (r: Vec<usize>)
        ensures
            r@ == positions_by(self@, selector(Selection::UnresolvedMove)),
    {
        positions_of(self, Selection::UnresolvedMove)
    }

    /// The valid moves.
    fn collect_valid_move_orders(&self) -> (r: Vec<Order>)
        ensures
            r@ == self@.filter(selector(Selection::ValidMove)),
    {
        orders_of(self, Selection::ValidMove)
    }

    /// Positions of the valid moves.
    fn collect_valid_move_indices(&self) -> (r: Vec<usize>)
        ensures
            r@ == positions_by(self@, selector(Selection::ValidMove)),
    {
        positions_of(self, Selection::ValidMove)
    }

    /// Positions of the valid moves of other powers into the province of the order at `target_idx`.
    fn collect_attacker_indicies(&self, target_idx: usize) -> (r: Vec<usize>)
        ensures
            r@ == positions_by(self@, |m: Order| attacks(m, self@[target_idx as int])),
    {
        let t = self[target_idx];
        let ghost pred = |m: Order| attacks(m, t);
        let mut r: Vec<usize> = Vec::new();
        let mut i: usize = 0;
        while i < self.len()
            invariant
                i <= self@.len(),
                t == self@[target_idx as int],
                pred == (|m: Order| attacks(m, t)),
                r@ == positions_by(self@.take(i as int), pred),
            decreases self@.len() - i,
        {
            assert(self@.take(i + 1).drop_last() =~= self@.take(i as int));
            let m = &self[i];
            let hit = if !m.is_assumed() && m.is_valid() && m.power != t.power {
                match m.kind {
                    OrderKind::Move(mv) => {
                        let c = t.unit.province.code();
                        let pos = t.unit.province.id();
                        proof {
                            lemma_code_len(pos as int);
                        }
                        has_code_prefix(mv.dest, c)
                    },
                    _ => false,
                }
            } else {
                false
            };
            if hit {
                r.push(i);
            }
            i = i + 1;
        }
        assert(self@.take(self@.len() as int) =~= self@);
        r
    }

    /// Positions of the unresolved supports.
    fn collect_unresolved_support_indices(&self) -> (r: Vec<usize>)
        ensures
            r@ == positions_by(self@, selector(Selection::UnresolvedSupport)),
    {
        positions_of(self, Selection::UnresolvedSupport)
    }

    /// The valid supports.
    fn collect_valid_support_orders(&self) -> (r: Vec<Order>)
        ensures
            r@ == self@.filter(selector(Selection::ValidSupport)),
    {
        orders_of(self, Selection::ValidSupport)
    }

    /// Positions of the valid supports.
    fn collect_valid_support_indices(&self) -> (r: Vec<usize>)
        ensures
            r@ == positions_by(self@, selector(Selection::ValidSupport)),
    {
        positions_of(self, Selection::ValidSupport)
    }

    /// Positions of the unresolved convoys.
    fn collect_unresolved_convoy_indices(&self) -> (r: Vec<usize>)
        ensures
            r@ == positions_by(self@, selector(Selection::UnresolvedConvoy)),
    {
        positions_of(self, Selection::UnresolvedConvoy)
    }

    /// The valid convoys.
    fn collect_valid_convoy_orders(&self) -> (r: Vec<Order>)
        ensures
            r@ == self@.filter(selector(Selection::ValidConvoy)),
    {
        orders_of(self, Selection::ValidConvoy)
    }

    /// Positions of the valid convoys.
    fn collect_valid_convoy_indices(&self) -> (r: Vec<usize>)
        ensures
            r@ == positions_by(self@, selector(Selection::ValidConvoy)),
    {
        positions_of(self, Selection::ValidConvoy)
    }

    /// Positions of the convoys on water that carry `attack_order`.
    fn collect_matched_convoy_order_indices(&self, attack_order: &Order) -> (r: Vec<usize>)
        ensures
            r@ == positions_by(self@, |c: Order| carries(c, *attack_order)),
    {
        let ghost pred = |c: Order| carries(c, *attack_order);
        let mut r: Vec<usize> = Vec::new();
        let mut i: usize = 0;
        while i < self.len()
            invariant
                i <= self@.len(),
                pred == (|c: Order| carries(c, *attack_order)),
                r@ == positions_by(self@.take(i as int), pred),
            decreases self@.len() - i,
        {
            assert(self@.take(i + 1).drop_last() =~= self@.take(i as int));
            let c = &self[i];
            if matches!(c.kind, OrderKind::Convoy(_)) && c.is_matching_target(attack_order)
                && c.location().is_water() {
                r.push(i);
            }
            i = i + 1;
        }
        assert(self@.take(self@.len() as int) =~= self@);
        r
    }

    /// The destinations of the valid moves (by position on the map), each
    /// once, in the order in which they first occur.
    fn collect_valid_move_destination_set(&self) -> (r: IndexSet<u8>)
        ensures
            index_set_items(r) == distinct_in_order(valid_move_destinations(self@)),
    {
        let moves = orders_of(self, Selection::ValidMove);
        let ghost dests = moves@.map_values(|o: Order| o.kind->Move_0.dest.index() as u8);
        let mut set = new_position_set();
        let mut i: usize = 0;
        while i < moves.len()
            invariant
                i <= moves@.len(),
                moves@ == self@.filter(selector(Selection::ValidMove)),
                dests == moves@.map_values(|o: Order| o.kind->Move_0.dest.index() as u8),
                index_set_items(set) == distinct_in_order(dests.take(i as int)),
            decreases moves@.len() - i,
        {
            let o = moves[i];
            proof {
                assert(dests.take(i + 1).drop_last() =~= dests.take(i as int));
                self@.lemma_filter_pred(selector(Selection::ValidMove), i as int);
            }
            let d = match o.kind {
                OrderKind::Move(m) => m.dest.id(),
                _ => 0,
            };
            insert_position(&mut set, d);
            i = i + 1;
        }
        assert(dests.take(moves@.len() as int) =~= dests);
        set
    }

    /// The codes of the waters where a fleet of the orders stands, each once,
    /// in the order in which they first occur.
    fn collect_fleet_water_codes(&self) -> (r: Vec<&'static str>)
        ensures
            r@.len() == distinct_in_order(fleet_waters(self@)).len(),
            forall|k: int|
                0 <= k < r@.len() ==> #[trigger] r@[k]@ == spec_code(
                    distinct_in_order(fleet_waters(self@))[k].index(),
                ),
    {
        let ghost pred = |o: Order| o.unit.kind is Fleet && spec_terrain(o.unit.province.index()) == Terrain::Water;
        let mut seen: Vec<Province> = Vec::new();
        let mut r: Vec<&'static str> = Vec::new();
        let mut i: usize = 0;
        while i < self.len()
            invariant
                i <= self@.len(),
                pred == (|o: Order| o.unit.kind is Fleet && spec_terrain(o.unit.province.index())
                    == Terrain::Water),
                seen@ == distinct_in_order(
                    self@.take(i as int).filter(pred).map_values(|o: Order| o.unit.province),
                ),
                r@.len() == seen@.len(),
                forall|k: int| 0 <= k < r@.len() ==> #[trigger] r@[k]@ == spec_code(seen@[k].index()),
            decreases self@.len() - i,
        {
            let o = self[i];
            let ghost before = self@.take(i as int).filter(pred);
            proof {
                assert(self@.take(i + 1) =~= self@.take(i as int).push(o));
                self@.take(i as int).lemma_filter_push(o, pred);
            }
            if o.unit.is_fleet() && o.location().is_water() {
                let p = o.unit.province;
                let mut known = false;
                let mut k: usize = 0;
                while k < seen.len()
                    invariant
                        k <= seen@.len(),
                        known == seen@.take(k as int).contains(p),
                    decreases seen@.len() - k,
                {
                    assert(seen@.take(k + 1) =~= seen@.take(k as int).push(seen@[k as int]));
                    if seen[k] == p {
                        known = true;
                    }
                    k = k + 1;
                }
                assert(seen@.take(seen@.len() as int) =~= seen@);
                proof {
                    assert(before.push(o).map_values(|o: Order| o.unit.province) =~= before.map_values(
                        |o: Order| o.unit.province,
                    ).push(p));
                    assert(before.map_values(|o: Order| o.unit.province).push(p).drop_last()
                        =~= before.map_values(|o: Order| o.unit.province));
                }
                if !known {
                    seen.push(p);
                    r.push(p.code());
                }
            }
            i = i + 1;
        }
        assert(self@.take(self@.len() as int) =~= self@);
        r
    }

    /// Position of the first order given by the owner of its unit that the
    /// support at `support_idx` refers to, leaving out invalid moves.
    fn find_support_target_idx(&self, support_idx: usize) -> (r: Option<usize>)
        ensures
            r == first_position(
                self@,
                |o: Order| !spec_is_assumed(o) && spec_matching_target(self@[support_idx as int], o)
                    && !(o.kind is Move && o.status == OrderStatus::Invalid),
            ),
    {
        let s = self[support_idx];
        let ghost pred = |o: Order| !spec_is_assumed(o) && spec_matching_target(s, o) && !(o.kind is Move
            && o.status == OrderStatus::Invalid);
        let mut i: usize = 0;
        while i < self.len()
            invariant
                i <= self@.len(),
                s == self@[support_idx as int],
                pred == (|o: Order| !spec_is_assumed(o) && spec_matching_target(s, o) && !(o.kind is Move
                    && o.status == OrderStatus::Invalid)),
                forall|k: int| 0 <= k < i ==> !#[trigger] pred(self@[k]),
            decreases self@.len() - i,
        {
            let o = &self[i];
            if !o.is_assumed() && s.is_matching_target(o) && !(matches!(o.kind, OrderKind::Move(_))
                && o.is_invalid()) {
                proof {
                    lemma_first_position_at(self@, pred, i as int);
                }
                return Some(i);
            }
            i = i + 1;
        }
        None
    }

    /// Position of the first move that the convoy at `convoy_idx` refers to.
    fn find_convoy_target_idx(&self, convoy_idx: usize) -> (r: Option<usize>)
        ensures
            r == first_position(
                self@,
                |o: Order| spec_matching_target(self@[convoy_idx as int], o) && o.kind is Move,
            ),
    {
        let c = self[convoy_idx];
        let ghost pred = |o: Order| spec_matching_target(c, o) && o.kind is Move;
        let mut i: usize = 0;
        while i < self.len()
            invariant
                i <= self@.len(),
                c == self@[convoy_idx as int],
                pred == (|o: Order| spec_matching_target(c, o) && o.kind is Move),
                forall|k: int| 0 <= k < i ==> !#[trigger] pred(self@[k]),
            decreases self@.len() - i,
        {
            let o = &self[i];
            if c.is_matching_target(o) && matches!(o.kind, OrderKind::Move(_)) {
                proof {
                    lemma_first_position_at(self@, pred, i as int);
                }
                return Some(i);
            }
            i = i + 1;
        }
        None
    }

    /// Position of the first order of a unit standing on the destination of `m`.
    fn find_convoy_at_dest_idx(&self, m: MoveOrder) -> (r: Option<usize>)
        ensures
            r == first_position(self@, |o: Order| o.unit.province == m.dest),
    {
        let ghost pred = |o: Order| o.unit.province == m.dest;
        let mut i: usize = 0;
        while i < self.len()
            invariant
                i <= self@.len(),
                pred == (|o: Order| o.unit.province == m.dest),
                forall|k: int| 0 <= k < i ==> !#[trigger] pred(self@[k]),
            decreases self@.len() - i,
        {
            if self[i].location() == m.dest {
                proof {
                    lemma_first_position_at(self@, pred, i as int);
                }
                return Some(i);
            }
            i = i + 1;
        }
        None
    }

    /// Position of the first support of a unit standing on the destination of
    /// the move at `move_idx` (none when that order is not a move).
    fn find_support_at_dest_idx(&self, move_idx: usize) -> (r: Option<usize>)
        ensures
            r == if self@[move_idx as int].kind is Move {
                first_position(
                    self@,
                    |o: Order| o.unit.province == self@[move_idx as int].kind->Move_0.dest
                        && o.kind is Support,
                )
            } else {
                None
            },
    {
        let m = match self[move_idx].kind {
            OrderKind::Move(m) => m,
            _ => {
                return None;
            },
        };
        let ghost pred = |o: Order| o.unit.province == self@[move_idx as int].kind->Move_0.dest
            && o.kind is Support;
        let mut i: usize = 0;
        while i < self.len()
            invariant
                i <= self@.len(),
                self@[move_idx as int].kind is Move,
                m == self@[move_idx as int].kind->Move_0,
                pred == (|o: Order| o.unit.province == self@[move_idx as int].kind->Move_0.dest
                    && o.kind is Support),
                forall|k: int| 0 <= k < i ==> !#[trigger] pred(self@[k]),
            decreases self@.len() - i,
        {
            let o = &self[i];
            if o.location() == m.dest && matches!(o.kind, OrderKind::Support(_)) {
                proof {
                    lemma_first_position_at(self@, pred, i as int);
                }
                return Some(i);
            }
            i = i + 1;
        }
        None
    }

    /// Position of the first order that holds the province whose code starts
    /// like `target_location_code` (see `occupies`).
    fn find_occupant_order_idx(&self, target_location_code: &str) -> (r: Option<usize>)
        ensures
            r == first_position(self@, |o: Order| occupies(o, target_location_code@)),
    {
        let ghost pred = |o: Order| occupies(o, target_location_code@);
        let mut i: usize = 0;
        while i < self.len()
            invariant
                i <= self@.len(),
                target_location_code@.len() >= 3,
                pred == (|o: Order| occupies(o, target_location_code@)),
                forall|k: int| 0 <= k < i ==> !#[trigger] pred(self@[k]),
            decreases self@.len() - i,
        {
            let o = &self[i];
            if !o.is_assumed() && has_code_prefix(o.location(), target_location_code) && !(matches!(
                o.kind,
                OrderKind::Move(_)
            ) && o.is_success()) {
                proof {
                    lemma_first_position_at(self@, pred, i as int);
                }
                return Some(i);
            }
            i = i + 1;
        }
        None
    }

    /// The move that the support at `support_order_idx` refers to, when its
    /// first target is a move.
    fn get_support_target_move_order_kind(&self, support_order_idx: usize) -> (r: Option<MoveOrder>)
        ensures
            r == match first_position(
                self@,
                |o: Order| spec_matching_target(self@[support_order_idx as int], o),
            ) {
                Some(j) => match self@[j as int].kind {
                    OrderKind::Move(m) => Some(m),
                    _ => None,
                },
                None => None,
            },
    {
        let s = self[support_order_idx];
        let ghost pred = |o: Order| spec_matching_target(s, o);
        let mut i: usize = 0;
        while i < self.len()
            invariant
                i <= self@.len(),
                s == self@[support_order_idx as int],
                pred == (|o: Order| spec_matching_target(s, o)),
                forall|k: int| 0 <= k < i ==> !#[trigger] pred(self@[k]),
            decreases self@.len() - i,
        {
            let o = &self[i];
            if s.is_matching_target(o) {
                proof {
                    lemma_first_position_at(self@, pred, i as int);
                }
                return match o.kind {
                    OrderKind::Move(m) => Some(m),
                    _ => None,
                };
            }
            i = i + 1;
        }
        None
    }

    /// The position and the convoy that the support at `support_order_idx`
    /// refers to, when its first target is a convoy.
    fn get_support_target_convoy_order_kind(&self, support_order_idx: usize) -> (r: Option<
        (usize, ConvoyOrder),
    >)
        ensures
            r == match first_position(
                self@,
                |o: Order| spec_matching_target(self@[support_order_idx as int], o),
            ) {
                Some(j) => match self@[j as int].kind {
                    OrderKind::Convoy(c) => Some((j, c)),
                    _ => None,
                },
                None => None,
            },
    {
        let s = self[support_order_idx];
        let ghost pred = |o: Order| spec_matching_target(s, o);
        let mut i: usize = 0;
        while i < self.len()
            invariant
                i <= self@.len(),
                s == self@[support_order_idx as int],
                pred == (|o: Order| spec_matching_target(s, o)),
                forall|k: int| 0 <= k < i ==> !#[trigger] pred(self@[k]),
            decreases self@.len() - i,
        {
            let o = &self[i];
            if s.is_matching_target(o) {
                proof {
                    lemma_first_position_at(self@, pred, i as int);
                }
                return match o.kind {
                    OrderKind::Convoy(c) => Some((i, c)),
                    _ => None,
                };
            }
            i = i + 1;
        }
        None
    }

    /// Number of the valid supports of the order at `target_idx`, leaving out
    /// those of `exclude_power` when given.
    fn count_supports(&self, target_idx: usize, exclude_power: Option<&Power>) -> (r: usize)
        ensures
            r == support_count(
                self@,
                self@[target_idx as int],
                match exclude_power {
                    Some(p) => Some(*p),
                    None => None,
                },
            ),
    {
        let excluded = match exclude_power {
            Some(p) => Some(*p),
            None => None,
        };
        count_supports_of(self, &self[target_idx], excluded)
    }

    /// The largest number of valid supports, not of the power of the order at
    /// `target_idx`, of one of the orders at `attacker_indicies` (0 when there is none).
    fn count_max_supports_for_attackers(&self, attacker_indicies: &[usize], target_idx: usize) -> (r: usize)
        ensures
            r == max_support_count(self@, attacker_indicies@, self@[target_idx as int]),
    {
        let t = self[target_idx];
        let mut best: usize = 0;
        let mut k: usize = 0;
        while k < attacker_indicies.len()
            invariant
                k <= attacker_indicies@.len(),
                t == self@[target_idx as int],
                forall|j: int|
                    0 <= j < attacker_indicies@.len() ==> #[trigger] attacker_indicies@[j] < self@.len(),
                best == max_support_count(self@, attacker_indicies@.take(k as int), t),
            decreases attacker_indicies@.len() - k,
        {
            assert(attacker_indicies@.take(k + 1).drop_last() =~= attacker_indicies@.take(k as int));
            let a = attacker_indicies[k];
            let c = count_supports_of(self, &self[a], Some(t.unit.power));
            if c > best {
                best = c;
            }
            k = k + 1;
        }
        assert(attacker_indicies@.take(attacker_indicies@.len() as int) =~= attacker_indicies@);
        best
    }

    /// Whether more than one valid move goes into the province whose code
    /// starts like `target_location_code`.
    fn has_confliction(&self, target_location_code: &str) -> (r: bool)
        ensures
            r == (moves_into_count(self@, target_location_code@) > 1),
    {
        let mut n: usize = 0;
        let mut i: usize = 0;
        while i < self.len()
            invariant
                i <= self@.len(),
                target_location_code@.len() >= 3,
                n == moves_into_count(self@.take(i as int), target_location_code@),
                n <= i,
            decreases self@.len() - i,
        {
            assert(self@.take(i + 1).drop_last() =~= self@.take(i as int));
            let o = &self[i];
            if picks(&Selection::ValidMove, o) {
                if let OrderKind::Move(m) = o.kind {
                    if has_code_prefix(m.dest, target_location_code) {
                        n = n + 1;
                    }
                }
            }
            i = i + 1;
        }
        assert(self@.take(self@.len() as int) =~= self@);
        n > 1
    }

    /// The power that holds the province whose code starts like `target_code`
    /// (see `occupant_power`).
    fn occupant_power_on_target(&self, target_code: &str) -> (r: Option<Power>)
        ensures
            r == occupant_power(self@, target_code@),
    {
        let ghost pred = |o: Order| !spec_is_assumed(o) && code_prefix_is(o.unit.province, target_code@);
        let mut i: usize = 0;
        while i < self.len()
            invariant
                i <= self@.len(),
                target_code@.len() >= 3,
                pred == (|o: Order| !spec_is_assumed(o) && code_prefix_is(o.unit.province, target_code@)),
                forall|k: int| 0 <= k < i ==> !#[trigger] pred(self@[k]),
            decreases self@.len() - i,
        {
            let o = &self[i];
            if !o.is_assumed() && has_code_prefix(o.location(), target_code) {
                proof {
                    lemma_first_position_at(self@, pred, i as int);
                }
                if !matches!(o.kind, OrderKind::Move(_)) {
                    return Some(o.unit.power);
                }
                if o.is_valid() {
                    return Some(o.unit.power);
                }
                if o.is_failure() {
                    return Some(o.power);
                }
                if o.is_success() {
                    return None;
                }
                return None;
            }
            i = i + 1;
        }
        None
    }
}

} // verus!
