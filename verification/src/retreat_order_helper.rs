use vstd::prelude::*;
use crate::order::Order;
use crate::order::OrderKind;
use crate::order::OrderStatus;
use crate::order::spec_is_assumed;

verus! {

/// The orders of `os` given by the owners of their units, in order.
pub open spec fn not_assumed(os: Seq<Order>) -> Seq<Order> {
    os.filter(|o: Order| !spec_is_assumed(o))
}

/// Whether `o` is an unresolved retreat.
pub open spec fn is_open_retreat(o: Order) -> bool {
    o.status == OrderStatus::Unresolved && o.kind is Retreat
}

/// Lookups on the orders of a retreat phase.
pub trait RetreatOrderHelper {
    /// The orders that are not assumed, in order.
    fn collect_not_assumed_orders(&self) -> Vec<Order>;

    /// Positions, in the list of the orders that are not assumed, of the unresolved retreats.
    fn collect_retreat_indices(&self) -> Vec<usize>;
}

impl RetreatOrderHelper for [Order] {
    fn collect_not_assumed_orders(&self) -> (r: Vec<Order>)
        ensures
            r@ == not_assumed(self@),
    {
        let mut r: Vec<Order> = Vec::new();
        let mut i: usize = 0;
        while i < self.len()
            invariant
                i <= self@.len(),
                r@ == not_assumed(self@.take(i as int)),
            decreases self@.len() - i,
        {
            let o = self[i];
            proof {
                assert(self@.take(i + 1) =~= self@.take(i as int).push(o));
                self@.take(i as int).lemma_filter_push(o, |o: Order| !spec_is_assumed(o));
            }
            if !o.is_assumed() {
                r.push(o);
            }
            i = i + 1;
        }
        assert(self@.take(self@.len() as int) =~= self@);
        r
    }

    fn collect_retreat_indices(&self) -> (r: Vec<usize>)
        ensures
            forall|a: int, b: int| 0 <= a < b < r@.len() ==> r@[a] < r@[b],
            forall|k: int|
                0 <= k < r@.len() ==> r@[k] < not_assumed(self@).len() && is_open_retreat(
                    #[trigger] not_assumed(self@)[r@[k] as int],
                ),
            forall|j: int|
                0 <= j < not_assumed(self@).len() && is_open_retreat(#[trigger] not_assumed(self@)[j])
                    ==> exists|k: int| 0 <= k < r@.len() && r@[k] == j,
    {
        let orders = self.collect_not_assumed_orders();
        let ghost na = orders@;
        let mut r: Vec<usize> = Vec::new();
        let mut i: usize = 0;
        while i < orders.len()
            invariant
                i <= orders@.len(),
                na == orders@,
                forall|a: int, b: int| 0 <= a < b < r@.len() ==> r@[a] < r@[b],
                forall|k: int| 0 <= k < r@.len() ==> r@[k] < i,
                forall|k: int| 0 <= k < r@.len() ==> is_open_retreat(#[trigger] na[r@[k] as int]),
                forall|j: int|
                    0 <= j < i && is_open_retreat(#[trigger] na[j]) ==> exists|k: int|
                        0 <= k < r@.len() && r@[k] == j,
            decreases orders@.len() - i,
        {
            let o = &orders[i];
            if o.is_unresolved() && matches!(o.kind, OrderKind::Retreat(_)) {
                let ghost before = r@;
                r.push(i);
                proof {
                    assert forall|j: int| 0 <= j <= i && is_open_retreat(#[trigger] na[j]) implies exists|
                        k: int,
                    | 0 <= k < r@.len() && r@[k] == j by {
                        if j == i {
                            assert(r@[before.len() as int] == j);
                        } else {
                            let k = choose|k: int| 0 <= k < before.len() && before[k] == j;
                            assert(r@[k] == j);
                        }
                    }
                }
            }
            i = i + 1;
        }
        r
    }
}

} // verus!
