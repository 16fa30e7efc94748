//! The Poisson source: strings the draws together and keeps the clock.

use crate::generator::orders::{same_kind, OrderGenerator};
use crate::generator::router::EventRouter;
use crate::lob::order::{Order, OrderSide, OrderType, Timestamp};
use vstd::prelude::*;

verus! {

/// Says when the next event occurs.
pub trait RateController {
    /// The nanoseconds between the last event and the next.
    fn next_dt(&mut self) -> u64;
}

/// Says of which side and kind the next order is.
pub trait TypeSelector {
    /// The side and kind of the next order. The quantities, prices and ids in
    /// the kind are placeholders.
    fn sample(&mut self) -> (OrderSide, OrderType);
}

/// Whether the timestamps of some orders never go down.
pub open spec fn nondecreasing(orders: Seq<Order>) -> bool {
    forall|i: int, j: int| 0 <= i <= j < orders.len() ==> orders[i].timestamp <= orders[j].timestamp
}

/// Emits one order after the other.
pub trait EventSource {
    /// The invariant of the source.
    spec fn wf(&self) -> bool;

    /// Whether the source can emit another order.
    spec fn ready(&self) -> bool;

    /// The orders emitted so far, oldest first: those handed to the router.
    spec fn emitted(&self) -> Seq<Order>;

    /// Emits the next order. Of the orders emitted so far, none has a timestamp
    /// below that of an earlier one.
    fn next_event(&mut self)
        requires
            old(self).wf(),
            old(self).ready(),
        ensures
            final(self).wf(),
            final(self).emitted().len() == old(self).emitted().len() + 1,
            final(self).emitted().drop_last() == old(self).emitted(),
            nondecreasing(final(self).emitted()),
    ;
}

/// The time after `dt` more nanoseconds: the running sum of the delays, held at
/// the largest time where it would not fit.
pub open spec fn advanced(clock: Timestamp, dt: u64) -> Timestamp {
    if clock + dt > u64::MAX {
        u64::MAX
    } else {
        (clock + dt) as u64
    }
}

/// A source of orders whose timestamps are the running sum of the delays that
/// its rate controller draws.
pub struct PoissonSource<R: RateController, T: TypeSelector, G: OrderGenerator, E: EventRouter> {
    rate_controller: R,
    type_selector: T,
    order_generator: G,
    event_router: E,
    clock: Timestamp,
    history: Ghost<Seq<Order>>,
}

impl<R: RateController, T: TypeSelector, G: OrderGenerator, E: EventRouter> PoissonSource<
    R,
    T,
    G,
    E,
> {
    /// The time of the last emitted order: the sum of all delays so far.
    pub closed spec fn clock(&self) -> Timestamp {
        self.clock
    }

    /// The order generator.
    pub closed spec fn generator(&self) -> G {
        self.order_generator
    }

    /// The router.
    pub closed spec fn router(&self) -> E {
        self.event_router
    }

    /// A source at time zero that has emitted nothing.
    pub fn new(rate_controller: R, type_selector: T, order_generator: G, event_router: E) -> (source:
        Self)
        ensures
            source.wf(),
            source.clock() == 0,
            source.emitted() == Seq::<Order>::empty(),
            source.generator() == order_generator,
            source.router() == event_router,
    {
        PoissonSource {
            rate_controller,
            type_selector,
            order_generator,
            event_router,
            clock: 0,
            history: Ghost(Seq::empty()),
        }
    }

    /// The router, which has taken every order emitted so far.
    pub fn event_router(&self) -> (router: &E)
        ensures
            *router == self.router(),
    {
        &self.event_router
    }

    /// Emits the order for a delay and a side and kind that were drawn: the
    /// clock moves on by `dt`, the generator makes an order of that side with
    /// the clock as its timestamp, and the router takes it.
    pub fn emit(&mut self, dt: u64, order_variant: (OrderSide, OrderType))
        requires
            old(self).wf(),
            old(self).ready(),
        ensures
            final(self).wf(),
            final(self).clock() == advanced(old(self).clock(), dt),
            final(self).emitted().len() == old(self).emitted().len() + 1,
            final(self).emitted().drop_last() == old(self).emitted(),
            final(self).emitted().last().timestamp == final(self).clock(),
            final(self).emitted().last().side == order_variant.0,
            same_kind(final(self).emitted().last().kind, order_variant.1),
            nondecreasing(final(self).emitted()),
    {
        self.clock = self.clock.saturating_add(dt);
        let order = self.order_generator.generate(self.clock, order_variant);
        self.event_router.route_event(order);
        let ghost before = self.history@;
        self.history = Ghost(before.push(order));
        proof {
            assert(self.history@.drop_last() =~= before);
        }
    }

    /// Gives up the source for its router.
    pub fn into_router(self) -> (router: E)
        ensures
            router == self.router(),
    {
        self.event_router
    }
}

impl<R: RateController, T: TypeSelector, G: OrderGenerator, E: EventRouter> EventSource for PoissonSource<
    R,
    T,
    G,
    E,
> {
    closed spec fn wf(&self) -> bool {
        &&& nondecreasing(self.emitted())
        &&& forall|i: int| 0 <= i < self.emitted().len() ==> self.emitted()[i].timestamp <= self.clock
    }

    open spec fn ready(&self) -> bool {
        self.generator().ready()
    }

    closed spec fn emitted(&self) -> Seq<Order> {
        self.history@
    }

    /// Draws a delay and a side and kind, moves the clock on by the delay, has
    /// the generator make the order with the clock as its timestamp, and hands
    /// the order to the router.
    fn next_event(&mut self)
        ensures
            final(self).clock() == final(self).emitted().last().timestamp,
            final(self).clock() >= old(self).clock(),
    {
        let dt = self.rate_controller.next_dt();
        let kind = self.type_selector.sample();
        self.emit(dt, kind);
    }
}

} // verus!
