//! Where generated orders go.

use crate::lob::order::Order;
use vstd::prelude::*;

verus! {

/// Takes the orders that a source emits.
pub trait EventRouter {
    /// Takes one order.
    fn route_event(&mut self, order: Order);
}

/// Keeps every order in a vector, in arrival order.
pub struct VectorStorageRouter {
    pub events: Vec<Order>,
}

impl VectorStorageRouter {
    /// A router that holds no order.
    pub fn new() -> (router: Self)
        ensures
            router.events@ == Seq::<Order>::empty(),
    {
        VectorStorageRouter { events: Vec::new() }
    }
}

impl EventRouter for VectorStorageRouter {
    /// Appends the order to `events`.
    fn route_event(&mut self, order: Order)
        ensures
            final(self).events@ == old(self).events@.push(order),
    {
        self.events.push(order);
    }
}

} // verus!
