//! One price level: the ids of the orders that rest at a price, oldest first.

use crate::lob::order::{LimitOrder, OrderId};
use std::collections::{HashMap, VecDeque};
use vstd::prelude::*;

verus! {

/// The orders that rest at one price on one side, in the order in which they
/// arrived. Cancelled and filled orders stay in the queue until they reach its
/// front and are pruned.
#[derive(Debug)]
pub struct PriceLevel {
    pub orders: VecDeque<OrderId>,
}

/// Whether `id` names an order that can trade.
pub open spec fn is_live(all_orders: Map<OrderId, LimitOrder>, id: OrderId) -> bool {
    all_orders.contains_key(id) && all_orders[id].live()
}

/// A queue without its leading entries that cannot trade: what is left starts
/// with an order that can, or is empty.
pub open spec fn pruned(all_orders: Map<OrderId, LimitOrder>, queue: Seq<OrderId>) -> Seq<OrderId>
    decreases queue.len(),
{
    if queue.len() == 0 || is_live(all_orders, queue[0]) {
        queue
    } else {
        pruned(all_orders, queue.drop_first())
    }
}

/// The quantity that can trade at a level: the sum of the quantities of the
/// queue's entries that can trade.
pub open spec fn live_qty(all_orders: Map<OrderId, LimitOrder>, queue: Seq<OrderId>) -> nat
    decreases queue.len(),
{
    if queue.len() == 0 {
        0
    } else {
        live_qty(all_orders, queue.drop_last()) + if is_live(all_orders, queue.last()) {
            all_orders[queue.last()].qty as nat
        } else {
            0
        }
    }
}

/// Each entry adds less than 2^64 to the quantity of a level.
proof fn live_qty_bound(all_orders: Map<OrderId, LimitOrder>, queue: Seq<OrderId>)
    ensures
        live_qty(all_orders, queue) <= queue.len() * u64::MAX,
    decreases queue.len(),
{
    if queue.len() > 0 {
        live_qty_bound(all_orders, queue.drop_last());
        assert(queue.len() * u64::MAX == (queue.len() - 1) * u64::MAX + u64::MAX)
            by (nonlinear_arith);
    }
}

impl View for PriceLevel {
    type V = Seq<OrderId>;

    open spec fn view(&self) -> Seq<OrderId> {
        self.orders@
    }
}

impl PriceLevel {
    /// A level at which nothing rests.
    pub fn new() -> (level: Self)
        ensures
            level@ == Seq::<OrderId>::empty(),
    {
        PriceLevel { orders: VecDeque::new() }
    }

    /// Whether the queue is empty.
    pub fn is_empty(&self) -> (empty: bool)
        ensures
            empty == (self@.len() == 0),
    {
        self.orders.len() == 0
    }

    /// The id at the front of the queue.
    pub fn front(&self) -> (id: Option<OrderId>)
        ensures
            self@.len() == 0 ==> id is None,
            self@.len() > 0 ==> id == Some(self@[0]),
    {
        if self.orders.len() == 0 {
            None
        } else {
            Some(self.orders[0])
        }
    }

    /// Takes the id at the front of the queue.
    pub fn pop_front(&mut self) -> (id: Option<OrderId>)
        ensures
            old(self)@.len() == 0 ==> id is None && final(self)@ == old(self)@,
            old(self)@.len() > 0 ==> id == Some(old(self)@[0]) && final(self)@ == old(
                self,
            )@.drop_first(),
    {
        self.orders.pop_front()
    }

    /// Appends the id of `order` to the queue.
    pub fn push(&mut self, order: &LimitOrder)
        ensures
            final(self)@ == old(self)@.push(order.order_id),
    {
        self.orders.push_back(order.order_id);
    }

    /// Drops ids from the front of the queue until the front names an order of
    /// `all_orders` that is active and has quantity left, and returns that id;
    /// returns `None` where the queue runs empty. An id that `all_orders` does
    /// not know is dropped like a cancelled order. `all_orders` is not changed.
    pub fn prune(&mut self, all_orders: &mut HashMap<OrderId, LimitOrder>) -> (front: Option<
        OrderId,
    >)
        ensures
            final(self)@ == pruned(old(all_orders)@, old(self)@),
            final(all_orders)@ == old(all_orders)@,
            final(self)@.len() == 0 ==> front is None,
            final(self)@.len() > 0 ==> front == Some(final(self)@[0]) && is_live(
                old(all_orders)@,
                final(self)@[0],
            ),
    {
        broadcast use vstd::std_specs::hash::group_hash_axioms;

        while self.orders.len() > 0
            invariant
                all_orders@ == old(all_orders)@,
                pruned(all_orders@, self@) == pruned(old(all_orders)@, old(self)@),
            decreases self@.len(),
        {
            let id = self.orders[0];
            let live = match all_orders.get(&id) {
                Some(order) => order.is_live(),
                None => false,
            };
            if live {
                return Some(id);
            }
            self.orders.pop_front();
        }
        None
    }

    /// The quantity that can trade at this level: the sum of the quantities of
    /// the queued orders that are active.
    pub fn total_qty(&self, all_orders: &HashMap<OrderId, LimitOrder>) -> (total: u128)
        ensures
            total == live_qty(all_orders@, self@),
    {
        broadcast use vstd::std_specs::hash::group_hash_axioms;

        let mut total: u128 = 0;
        let mut i: usize = 0;
        while i < self.orders.len()
            invariant
                i <= self@.len(),
                total == live_qty(all_orders@, self@.subrange(0, i as int)),
                total <= i * u64::MAX,
            decreases self@.len() - i,
        {
            let id = self.orders[i];
            let ghost next = self@.subrange(0, i + 1);
            proof {
                assert(next.drop_last() =~= self@.subrange(0, i as int));
                assert(next.last() == id);
                live_qty_bound(all_orders@, next);
                assert((i + 1) * u64::MAX <= usize::MAX * u64::MAX) by (nonlinear_arith)
                    requires
                        i + 1 <= usize::MAX,
                ;
                assert(usize::MAX * u64::MAX <= u64::MAX * u64::MAX) by (nonlinear_arith)
                    requires
                        usize::MAX <= u64::MAX,
                ;
            }
            match all_orders.get(&id) {
                Some(order) => {
                    if order.is_live() {
                        total = total + order.qty as u128;
                    }
                },
                None => {},
            }
            i += 1;
        }
        assert(self@.subrange(0, i as int) =~= self@);
        total
    }
}

} // verus!
