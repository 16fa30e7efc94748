//! Orders as they arrive, orders as they rest in the book, and trades.

use vstd::prelude::*;

verus! {

/// Identifies an order.
pub type OrderId = u64;

/// A price in ticks.
pub type Price = u64;

/// Nanoseconds.
pub type Timestamp = u64;

/// The side of the book that an order is on.
#[derive(Debug, Clone, Copy, PartialEq, Eq, Structural)]
pub enum OrderSide {
    Bid,
    Ask,
}

/// Whether a resting order can still trade.
#[derive(Debug, Clone, Copy, PartialEq, Eq, Structural)]
pub enum OrderStatus {
    Active,
    Canceled,
}

/// What an incoming order asks for.
#[derive(Debug, Clone, Copy, PartialEq, Eq, Structural)]
pub enum OrderType {
    /// Trade up to `qty` at `price` or better; the rest waits in the book.
    Limit { qty: u64, price: Price },
    /// Trade up to `qty` at any price; the rest is dropped.
    Market { qty: u64 },
    /// Cancel the order `old_id` and, if it was there, place a new limit order.
    Update { old_id: OrderId, qty: u64, price: Price },
    /// Cancel the order that has this order's id.
    Cancel,
}

/// An incoming order.
#[derive(Debug, Clone, Copy, PartialEq, Eq, Structural)]
pub struct Order {
    pub order_id: OrderId,
    pub side: OrderSide,
    pub timestamp: Timestamp,
    pub kind: OrderType,
}

/// A limit order as the book keeps it.
#[derive(Debug, Clone, Copy, PartialEq, Eq, Structural)]
pub struct LimitOrder {
    pub order_id: OrderId,
    pub side: OrderSide,
    pub status: OrderStatus,
    pub qty: u64,
    pub price: Price,
}

/// One execution: `qty` units changed hands at `price`, the price of the
/// resting order.
#[derive(Debug, Clone, Copy, PartialEq, Eq, Structural)]
pub struct Trade {
    pub maker_id: OrderId,
    pub taker_id: OrderId,
    pub price: Price,
    pub qty: u64,
    pub timestamp: Timestamp,
}

impl OrderSide {
    /// The side that orders of this side trade against.
    pub open spec fn spec_opposite(self) -> OrderSide {
        match self {
            OrderSide::Bid => OrderSide::Ask,
            OrderSide::Ask => OrderSide::Bid,
        }
    }

    /// The side that orders of this side trade against.
    pub fn opposite(self) -> (other: OrderSide)
        ensures
            other == self.spec_opposite(),
    {
        match self {
            OrderSide::Bid => OrderSide::Ask,
            OrderSide::Ask => OrderSide::Bid,
        }
    }
}

impl Order {
    /// Whether the order carries what its kind needs: a limit or update order a
    /// quantity and a price above zero, a market order a quantity above zero.
    pub open spec fn well_formed(self) -> bool {
        match self.kind {
            OrderType::Limit { qty, price } => qty > 0 && price > 0,
            OrderType::Market { qty } => qty > 0,
            OrderType::Update { old_id, qty, price } => qty > 0 && price > 0,
            OrderType::Cancel => true,
        }
    }

    /// An order with the given fields.
    pub fn new(order_id: OrderId, side: OrderSide, timestamp: Timestamp, kind: OrderType) -> (order:
        Self)
        ensures
            order == (Order { order_id, side, timestamp, kind }),
    {
        Order { order_id, side, timestamp, kind }
    }

    /// Whether the order is well formed.
    pub fn is_well_formed(&self) -> (ok: bool)
        ensures
            ok == self.well_formed(),
    {
        match self.kind {
            OrderType::Limit { qty, price } => qty > 0 && price > 0,
            OrderType::Market { qty } => qty > 0,
            OrderType::Update { old_id, qty, price } => qty > 0 && price > 0,
            OrderType::Cancel => true,
        }
    }
}

impl LimitOrder {
    /// Whether the order can trade: it is active and has quantity left.
    pub open spec fn live(self) -> bool {
        self.status == OrderStatus::Active && self.qty > 0
    }

    /// An active limit order with the id and side of `order`.
    pub fn new(order: Order, qty: u64, price: Price) -> (resting: Self)
        ensures
            resting == (LimitOrder {
                order_id: order.order_id,
                side: order.side,
                status: OrderStatus::Active,
                qty,
                price,
            }),
    {
        LimitOrder {
            order_id: order.order_id,
            side: order.side,
            status: OrderStatus::Active,
            qty,
            price,
        }
    }

    /// Whether the order can trade.
    pub fn is_live(&self) -> (live: bool)
        ensures
            live == self.live(),
    {
        self.status == OrderStatus::Active && self.qty > 0
    }
}

} // verus!
