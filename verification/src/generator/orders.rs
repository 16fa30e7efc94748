//! The order generator: order ids, quantities, and the memory of recent limit
//! orders from which cancels and updates pick their target.

use crate::generator::ring::{
    random_below, ring_boxed, ring_contents, ring_get, ring_push_back, ACTIVE_ORDER_BUFFER_SIZE,
};
use crate::lob::order::{Order, OrderId, OrderSide, OrderType, Price, Timestamp};
use circular_buffer::FixedCircularBuffer;
use vstd::prelude::*;

verus! {

/// The quantities that generated orders have.
pub const QUANTITIES: [u64; 5] = [1, 2, 5, 10, 20];

/// The quantities that generated orders have.
pub open spec fn quantities() -> Seq<u64> {
    seq![1u64, 2u64, 5u64, 10u64, 20u64]
}

/// Whether two kinds are the same but for the numbers they carry.
pub open spec fn same_kind(a: OrderType, b: OrderType) -> bool {
    match a {
        OrderType::Limit { .. } => b is Limit,
        OrderType::Market { .. } => b is Market,
        OrderType::Update { .. } => b is Update,
        OrderType::Cancel => b is Cancel,
    }
}

/// Draws prices in ticks.
pub trait PriceSource {
    /// The next price.
    fn next_price(&mut self) -> u64;
}

/// Makes the concrete order for a side and kind that a selector chose.
pub trait OrderGenerator {
    /// Whether the generator can make another order.
    spec fn ready(&self) -> bool;

    /// Makes an order of the side and kind of `order_variant`, stamped
    /// `time_stamp`.
    fn generate(&mut self, time_stamp: Timestamp, order_variant: (OrderSide, OrderType)) -> (order:
        Order)
        requires
            old(self).ready(),
        ensures
            order.timestamp == time_stamp,
            order.side == order_variant.0,
            same_kind(order.kind, order_variant.1),
    ;
}

/// Generates orders with prices from a price source, quantities from
/// `QUANTITIES` and ids from a counter that starts at 1. On each side it
/// remembers the ids of the last `ACTIVE_ORDER_BUFFER_SIZE` limit orders; a
/// cancel or update targets one of them. The memory starts out full of zeros,
/// so an early cancel names an order that no book knows.
pub struct GaussianOrderGenerator<P: PriceSource> {
    prices: P,
    order_counter: u64,
    active_bids: Box<FixedCircularBuffer<OrderId, 1000000>>,
    active_asks: Box<FixedCircularBuffer<OrderId, 1000000>>,
}

/// A ring after it took `id`: its oldest id makes room.
pub open spec fn remembered(ring: Seq<OrderId>, id: OrderId) -> Seq<OrderId> {
    ring.drop_first().push(id)
}

/// What the generator holds, apart from its price source.
pub ghost struct GeneratorView {
    pub order_counter: u64,
    pub active_bids: Seq<OrderId>,
    pub active_asks: Seq<OrderId>,
}

impl GeneratorView {
    /// The remembered ids of one side.
    pub open spec fn active(self, side: OrderSide) -> Seq<OrderId> {
        match side {
            OrderSide::Bid => self.active_bids,
            OrderSide::Ask => self.active_asks,
        }
    }

    /// The state after an order of `order_variant` was composed: the counter
    /// has moved on by one, and a limit order is remembered on its side.
    pub open spec fn composed(self, order_variant: (OrderSide, OrderType)) -> GeneratorView {
        let id = (self.order_counter + 1) as u64;
        match order_variant.1 {
            OrderType::Limit { qty, price } => match order_variant.0 {
                OrderSide::Bid => GeneratorView {
                    order_counter: id,
                    active_bids: remembered(self.active_bids, id),
                    ..self
                },
                OrderSide::Ask => GeneratorView {
                    order_counter: id,
                    active_asks: remembered(self.active_asks, id),
                    ..self
                },
            },
            _ => GeneratorView { order_counter: id, ..self },
        }
    }

    /// The order composed for `order_variant` from the draws `price`, `pick`
    /// and `slot`: the quantity is `QUANTITIES[pick]`, a new order gets the next
    /// id, and a cancel or update targets the remembered id at `slot`.
    pub open spec fn order(
        self,
        time_stamp: Timestamp,
        order_variant: (OrderSide, OrderType),
        price: Price,
        pick: usize,
        slot: usize,
    ) -> Order {
        let id = (self.order_counter + 1) as u64;
        let side = order_variant.0;
        let qty = quantities()[pick as int];
        match order_variant.1 {
            OrderType::Limit { .. } => Order {
                order_id: id,
                side,
                timestamp: time_stamp,
                kind: OrderType::Limit { qty, price },
            },
            OrderType::Market { .. } => Order {
                order_id: id,
                side,
                timestamp: time_stamp,
                kind: OrderType::Market { qty },
            },
            OrderType::Cancel => Order {
                order_id: self.active(side)[slot as int],
                side,
                timestamp: time_stamp,
                kind: OrderType::Cancel,
            },
            OrderType::Update { .. } => Order {
                order_id: id,
                side,
                timestamp: time_stamp,
                kind: OrderType::Update { old_id: self.active(side)[slot as int], qty, price },
            },
        }
    }
}

impl<P: PriceSource> View for GaussianOrderGenerator<P> {
    type V = GeneratorView;

    closed spec fn view(&self) -> GeneratorView {
        GeneratorView {
            order_counter: self.order_counter,
            active_bids: ring_contents(&self.active_bids),
            active_asks: ring_contents(&self.active_asks),
        }
    }
}

impl<P: PriceSource> GaussianOrderGenerator<P> {
    /// The invariant of the generator: both memories are full.
    pub open spec fn wf(&self) -> bool {
        &&& self@.active_bids.len() == ACTIVE_ORDER_BUFFER_SIZE
        &&& self@.active_asks.len() == ACTIVE_ORDER_BUFFER_SIZE
    }

    /// A generator that has made no order yet and remembers only zeros.
    pub fn new(prices: P) -> (generator: Self)
        ensures
            generator.wf(),
            generator@.order_counter == 0,
            generator@.active_bids == Seq::new(ACTIVE_ORDER_BUFFER_SIZE as nat, |i: int| 0u64),
            generator@.active_asks == Seq::new(ACTIVE_ORDER_BUFFER_SIZE as nat, |i: int| 0u64),
    {
        let mut active_bids = ring_boxed();
        let mut active_asks = ring_boxed();
        let mut i: usize = 0;
        while i < ACTIVE_ORDER_BUFFER_SIZE
            invariant
                i <= ACTIVE_ORDER_BUFFER_SIZE,
                ring_contents(&active_bids) == Seq::new(i as nat, |k: int| 0u64),
                ring_contents(&active_asks) == Seq::new(i as nat, |k: int| 0u64),
            decreases ACTIVE_ORDER_BUFFER_SIZE - i,
        {
            ring_push_back(&mut active_asks, 0);
            ring_push_back(&mut active_bids, 0);
            i += 1;
            assert(ring_contents(&active_bids) =~= Seq::new(i as nat, |k: int| 0u64));
            assert(ring_contents(&active_asks) =~= Seq::new(i as nat, |k: int| 0u64));
        }
        GaussianOrderGenerator { prices, order_counter: 0, active_bids, active_asks }
    }

    /// Orders made so far, cancels included.
    pub fn order_counter(&self) -> (count: u64)
        ensures
            count == self@.order_counter,
    {
        self.order_counter
    }

    /// Composes the order for `order_variant` from the three random draws: the
    /// price, the position `pick` of the quantity in `QUANTITIES`, and the
    /// position `slot` of the target in the memory of the order's side.
    pub fn compose(
        &mut self,
        time_stamp: Timestamp,
        order_variant: (OrderSide, OrderType),
        price: Price,
        pick: usize,
        slot: usize,
    ) -> (order: Order)
        requires
            old(self).wf(),
            old(self)@.order_counter < u64::MAX,
            pick < 5,
            slot < ACTIVE_ORDER_BUFFER_SIZE,
        ensures
            final(self).wf(),
            final(self)@ == old(self)@.composed(order_variant),
            order == old(self)@.order(time_stamp, order_variant, price, pick, slot),
    {
        let (side, kind) = order_variant;
        let qty = QUANTITIES[pick];
        assert(qty == quantities()[pick as int]);
        self.order_counter = self.order_counter + 1;
        match kind {
            OrderType::Limit { qty: _, price: _ } => {
                match side {
                    OrderSide::Ask => {
                        ring_push_back(&mut self.active_asks, self.order_counter);
                    },
                    OrderSide::Bid => {
                        ring_push_back(&mut self.active_bids, self.order_counter);
                    },
                }
                Order::new(self.order_counter, side, time_stamp, OrderType::Limit { qty, price })
            },
            OrderType::Market { qty: _ } => Order::new(
                self.order_counter,
                side,
                time_stamp,
                OrderType::Market { qty },
            ),
            OrderType::Cancel => Order::new(
                self.get_active_order(side, slot),
                side,
                time_stamp,
                OrderType::Cancel,
            ),
            OrderType::Update { old_id: _, qty: _, price: _ } => {
                let old_id = self.get_active_order(side, slot);
                Order::new(
                    self.order_counter,
                    side,
                    time_stamp,
                    OrderType::Update { old_id, qty, price },
                )
            },
        }
    }

    /// The remembered id at `slot` on `side`.
    pub fn get_active_order(&self, side: OrderSide, slot: usize) -> (id: OrderId)
        requires
            self.wf(),
            slot < ACTIVE_ORDER_BUFFER_SIZE,
        ensures
            id == self@.active(side)[slot as int],
    {
        match side {
            OrderSide::Ask => ring_get(&self.active_asks, slot),
            OrderSide::Bid => ring_get(&self.active_bids, slot),
        }
    }
}

impl<P: PriceSource> OrderGenerator for GaussianOrderGenerator<P> {
    open spec fn ready(&self) -> bool {
        self.wf() && self@.order_counter < u64::MAX
    }

    /// Draws a price, a quantity and, for a cancel or update, a target, and
    /// composes the order from them: whatever is drawn, the order is the one
    /// that `compose` makes of the draws.
    fn generate(&mut self, time_stamp: Timestamp, order_variant: (OrderSide, OrderType)) -> (order:
        Order)
        ensures
            final(self).wf(),
            final(self)@ == old(self)@.composed(order_variant),
            exists|price: Price, pick: usize, slot: usize|
                pick < 5 && slot < ACTIVE_ORDER_BUFFER_SIZE && order == #[trigger] old(self)@.order(
                    time_stamp,
                    order_variant,
                    price,
                    pick,
                    slot,
                ),
    {
        let price = self.prices.next_price();
        let pick = random_below(QUANTITIES.len());
        let slot = match order_variant.1 {
            OrderType::Cancel => random_below(ACTIVE_ORDER_BUFFER_SIZE),
            OrderType::Update { old_id: _, qty: _, price: _ } => random_below(
                ACTIVE_ORDER_BUFFER_SIZE,
            ),
            _ => 0,
        };
        self.compose(time_stamp, order_variant, price, pick, slot)
    }
}

} // verus!
