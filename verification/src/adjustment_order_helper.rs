use vstd::prelude::*;
use crate::order::Order;
use crate::order::OrderStatus;
use crate::power::Power;

verus! {

/// Whether `o` is still unresolved and orders a unit of `power`.
pub open spec fn is_pending_of(o: Order, power: Power) -> bool {
    o.status == OrderStatus::Unresolved && o.unit.power == power
}

/// Lookups on the orders of an adjustment phase.
pub trait AdjustmentOrderHelper {
    /// Index of the first unresolved order of a unit of `power`, if any.
    fn get_unresolved_order_idxs_by_power(&self, power: &Power) -> Option<usize>;

    /// Indices of all the unresolved orders, in increasing order.
    fn collect_unresolved_order_idxs(&self) -> Vec<usize>;
}

impl AdjustmentOrderHelper for [Order] {
    fn get_unresolved_order_idxs_by_power(&self, power: &Power) -> (r: Option<usize>)
        ensures
            match r {
                Some(i) => i < self@.len() && is_pending_of(self@[i as int], *power) && forall|
                    j: int,
                | 0 <= j < i ==> !is_pending_of(#[trigger] self@[j], *power),
                None => forall|j: int|
                    0 <= j < self@.len() ==> !is_pending_of(#[trigger] self@[j], *power),
            },
    {
        let mut i: usize = 0;
        while i < self.len()
            invariant
                i <= self@.len(),
                forall|j: int| 0 <= j < i ==> !is_pending_of(#[trigger] self@[j], *power),
            decreases self@.len() - i,
        {
            if self[i].is_unresolved() && self[i].unit.power == *power {
                return Some(i);
            }
            i = i + 1;
        }
        None
    }

    fn collect_unresolved_order_idxs(&self) -> (r: Vec<usize>)
        ensures
            forall|a: int, b: int| 0 <= a < b < r@.len() ==> r@[a] < r@[b],
            forall|k: int|
                0 <= k < r@.len() ==> r@[k] < self@.len() && #[trigger] self@[r@[k] as int].status
                    == OrderStatus::Unresolved,
            forall|j: int|
                0 <= j < self@.len() && #[trigger] self@[j].status == OrderStatus::Unresolved
                    ==> exists|k: int| 0 <= k < r@.len() && r@[k] == j,
    {
        let mut r: Vec<usize> = Vec::new();
        let mut i: usize = 0;
        while i < self.len()
            invariant
                i <= self@.len(),
                forall|a: int, b: int| 0 <= a < b < r@.len() ==> r@[a] < r@[b],
                forall|k: int| 0 <= k < r@.len() ==> r@[k] < i,
                forall|k: int|
                    0 <= k < r@.len() ==> #[trigger] self@[r@[k] as int].status
                        == OrderStatus::Unresolved,
                forall|j: int|
                    0 <= j < i && #[trigger] self@[j].status == OrderStatus::Unresolved
                        ==> exists|k: int| 0 <= k < r@.len() && r@[k] == j,
            decreases self@.len() - i,
        {
            if self[i].is_unresolved() {
                let ghost before = r@;
                r.push(i);
                proof {
                    assert forall|j: int|
                        0 <= j <= i && #[trigger] self@[j].status == OrderStatus::Unresolved
                            implies exists|k: int| 0 <= k < r@.len() && r@[k] == j by {
                        if j == i {
                            assert(r@[before.len() as int] == j);
                        } else {
                            let k = choose|k: int| 0 <= k < before.len() && before[k] == j;
                            assert(r@[k] == j);
                        }
                    }
                }
            }
            i = i + 1;
        }
        r
    }
}

} // verus!
