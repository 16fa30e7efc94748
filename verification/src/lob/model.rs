//! The book as a mathematical value, and matching as a function on it.

use crate::lob::level::{is_live, pruned};
use crate::lob::order::{LimitOrder, OrderId, OrderSide, OrderStatus, Price, Timestamp, Trade};
use vstd::prelude::*;

verus! {

/// The resting orders by id.
pub type Orders = Map<OrderId, LimitOrder>;

/// One side of the book: the queue of order ids at each price.
pub type Ladder = Map<Price, Seq<OrderId>>;

/// The incoming side of a match.
#[derive(Debug, Clone, Copy, PartialEq, Eq, Structural)]
pub struct Taker {
    pub order_id: OrderId,
    pub side: OrderSide,
    pub timestamp: Timestamp,
    /// The worst price the taker accepts; a market order has none.
    pub limit: Option<Price>,
}

/// What the book holds.
pub ghost struct BookView {
    pub orders: Orders,
    pub bids: Ladder,
    pub asks: Ladder,
    /// Every execution so far, oldest first.
    pub trades: Seq<Trade>,
}

/// The outcome of matching a taker against one queue.
pub ghost struct Fill {
    pub orders: Orders,
    pub queue: Seq<OrderId>,
    pub left: u64,
    pub trades: Seq<Trade>,
}

/// The outcome of matching a taker against one side of the book.
pub ghost struct Sweep {
    pub orders: Orders,
    pub levels: Ladder,
    pub left: u64,
    pub trades: Seq<Trade>,
}

/// The smaller of two quantities.
pub open spec fn min_qty(a: u64, b: u64) -> u64 {
    if a <= b {
        a
    } else {
        b
    }
}

/// A resting order after `qty` of it was executed.
pub open spec fn reduced(maker: LimitOrder, qty: u64) -> LimitOrder
    recommends
        qty <= maker.qty,
{
    LimitOrder { qty: (maker.qty - qty) as u64, ..maker }
}

/// The trade between the resting order `maker`, known to the book as
/// `maker_id`, and a taker that still wants `left`: the smaller of the two
/// quantities changes hands at the maker's price.
pub open spec fn trade_of(maker_id: OrderId, maker: LimitOrder, taker: Taker, left: u64) -> Trade {
    Trade {
        maker_id,
        taker_id: taker.order_id,
        price: maker.price,
        qty: min_qty(maker.qty, left),
        timestamp: taker.timestamp,
    }
}

/// Matching within one price level. While the taker wants more and the queue
/// is not empty: an entry at the front that cannot trade is dropped; otherwise
/// the front order trades the smaller of its quantity and what the taker wants,
/// and leaves the queue once nothing is left of it.
pub open spec fn fill_queue(orders: Orders, queue: Seq<OrderId>, taker: Taker, left: u64) -> Fill
    decreases queue.len(),
{
    if left == 0 || queue.len() == 0 {
        Fill { orders, queue, left, trades: Seq::empty() }
    } else if !is_live(orders, queue[0]) {
        fill_queue(orders, queue.drop_first(), taker, left)
    } else {
        let maker = orders[queue[0]];
        let trade = trade_of(queue[0], maker, taker, left);
        let after = orders.insert(queue[0], reduced(maker, trade.qty));
        if trade.qty == maker.qty {
            let rest = fill_queue(after, queue.drop_first(), taker, (left - trade.qty) as u64);
            Fill { trades: seq![trade] + rest.trades, ..rest }
        } else {
            Fill { orders: after, queue, left: 0, trades: seq![trade] }
        }
    }
}

/// Whether price `a` comes before price `b` on a side of the book: the higher
/// bid and the lower ask come first.
pub open spec fn better(side: OrderSide, a: Price, b: Price) -> bool {
    match side {
        OrderSide::Bid => a > b,
        OrderSide::Ask => a < b,
    }
}

/// Whether `price` is the first price of a side: it has a level and no level has
/// a better price.
pub open spec fn is_front(levels: Ladder, side: OrderSide, price: Price) -> bool {
    &&& levels.contains_key(price)
    &&& forall|other: Price| levels.contains_key(other) ==> !better(side, other, price)
}

/// The first price of a side that has any level.
pub open spec fn front_price(levels: Ladder, side: OrderSide) -> Price {
    choose|price: Price| is_front(levels, side, price)
}

/// Whether a taker may trade at `price`: a bid at or above it, an ask at or
/// below it, a market order anywhere.
pub open spec fn crosses(taker: Taker, price: Price) -> bool {
    match taker.limit {
        None => true,
        Some(limit) => match taker.side {
            OrderSide::Bid => price <= limit,
            OrderSide::Ask => price >= limit,
        },
    }
}

/// Matching against one side of the book, the side opposite to the taker's.
/// Levels are visited best price first, for as long as the taker wants more and
/// may trade at the level's price. A level that is left empty is removed.
pub open spec fn sweep(orders: Orders, levels: Ladder, taker: Taker, left: u64) -> Sweep
    decreases levels.dom().len(),
    when levels.dom().finite()
{
    let side = taker.side.spec_opposite();
    if left == 0 || levels.dom().len() == 0 {
        Sweep { orders, levels, left, trades: Seq::empty() }
    } else {
        let price = front_price(levels, side);
        if !levels.contains_key(price) || !crosses(taker, price) {
            Sweep { orders, levels, left, trades: Seq::empty() }
        } else {
            let fill = fill_queue(orders, levels[price], taker, left);
            if fill.queue.len() > 0 {
                Sweep {
                    orders: fill.orders,
                    levels: levels.insert(price, fill.queue),
                    left: fill.left,
                    trades: fill.trades,
                }
            } else {
                let rest = sweep(fill.orders, levels.remove(price), taker, fill.left);
                Sweep { trades: fill.trades + rest.trades, ..rest }
            }
        }
    }
}

/// Whether any order of a queue can trade.
pub open spec fn has_live(orders: Orders, queue: Seq<OrderId>) -> bool {
    exists|i: int| 0 <= i < queue.len() && is_live(orders, #[trigger] queue[i])
}

/// Whether `best` is the best price of a side at which an order can trade:
/// `None` where no order of the side can trade.
pub open spec fn is_best_live(orders: Orders, levels: Ladder, side: OrderSide, best: Option<Price>)
    -> bool {
    match best {
        None => forall|price: Price| levels.contains_key(price) ==> !has_live(orders, levels[price]),
        Some(p) => {
            &&& levels.contains_key(p)
            &&& has_live(orders, levels[p])
            &&& forall|price: Price|
                levels.contains_key(price) && has_live(orders, levels[price]) ==> !better(
                    side,
                    price,
                    p,
                )
        },
    }
}

/// A side of the book after a best-price query that found `best`: the levels
/// before the best price, at which nothing can trade, are removed, and the level
/// at the best price is pruned.
pub open spec fn settled(orders: Orders, levels: Ladder, side: OrderSide, best: Option<Price>)
    -> Ladder {
    match best {
        None => Map::empty(),
        Some(p) => Map::new(
            |price: Price| levels.contains_key(price) && !better(side, price, p),
            |price: Price|
                if price == p {
                    pruned(orders, levels[price])
                } else {
                    levels[price]
                },
        ),
    }
}

/// The queue at a price, empty where the side has no level there.
pub open spec fn queue_at(levels: Ladder, price: Price) -> Seq<OrderId> {
    if levels.contains_key(price) {
        levels[price]
    } else {
        Seq::empty()
    }
}

impl BookView {
    /// The levels of one side.
    pub open spec fn side(self, side: OrderSide) -> Ladder {
        match side {
            OrderSide::Bid => self.bids,
            OrderSide::Ask => self.asks,
        }
    }

    /// The book with the levels of one side replaced.
    pub open spec fn with_side(self, side: OrderSide, levels: Ladder) -> BookView {
        match side {
            OrderSide::Bid => BookView { bids: levels, ..self },
            OrderSide::Ask => BookView { asks: levels, ..self },
        }
    }

    /// The invariant of the book: both sides have finitely many levels, every
    /// id in a queue names an order of the book, every order is filed under its
    /// own id, and every order has a price above zero.
    pub open spec fn wf(self) -> bool {
        &&& self.orders.dom().finite()
        &&& self.bids.dom().finite()
        &&& self.asks.dom().finite()
        &&& forall|price: Price, i: int|
            self.bids.contains_key(price) && 0 <= i < self.bids[price].len()
                ==> self.orders.contains_key(#[trigger] self.bids[price][i])
        &&& forall|price: Price, i: int|
            self.asks.contains_key(price) && 0 <= i < self.asks[price].len()
                ==> self.orders.contains_key(#[trigger] self.asks[price][i])
        &&& forall|id: OrderId| #[trigger]
            self.orders.contains_key(id) ==> self.orders[id].order_id == id && self.orders[id].price
                > 0
    }

    /// The book after the order `id` was cancelled: its status says so, and
    /// nothing else changes. Its id stays in its queue.
    pub open spec fn cancelled(self, id: OrderId) -> BookView {
        if self.orders.contains_key(id) {
            BookView {
                orders: self.orders.insert(
                    id,
                    LimitOrder { status: OrderStatus::Canceled, ..self.orders[id] },
                ),
                ..self
            }
        } else {
            self
        }
    }

    /// The book after `taker` was matched for up to `qty`.
    pub open spec fn matched(self, taker: Taker, qty: u64) -> BookView {
        let opposite = taker.side.spec_opposite();
        let s = sweep(self.orders, self.side(opposite), taker, qty);
        BookView {
            orders: s.orders,
            trades: self.trades + s.trades,
            ..self.with_side(opposite, s.levels)
        }
    }

    /// What `taker` still wants after it was matched for up to `qty`.
    pub open spec fn unmatched(self, taker: Taker, qty: u64) -> u64 {
        sweep(self.orders, self.side(taker.side.spec_opposite()), taker, qty).left
    }

    /// The book after `order` was put to rest at the back of the queue at its
    /// price on its side.
    pub open spec fn rested(self, order: LimitOrder) -> BookView {
        let levels = self.side(order.side);
        BookView {
            orders: self.orders.insert(order.order_id, order),
            ..self.with_side(
                order.side,
                levels.insert(order.price, queue_at(levels, order.price).push(order.order_id)),
            )
        }
    }

    /// The book after the limit order `order`, arriving at `timestamp`, was
    /// matched and what was left of it, if anything, put to rest.
    pub open spec fn added(self, order: LimitOrder, timestamp: Timestamp) -> BookView {
        let taker = limit_taker(order, timestamp);
        let left = self.unmatched(taker, order.qty);
        if left == 0 {
            self.matched(taker, order.qty)
        } else {
            self.matched(taker, order.qty).rested(LimitOrder { qty: left, ..order })
        }
    }
}

/// The taker that a limit order makes.
pub open spec fn limit_taker(order: LimitOrder, timestamp: Timestamp) -> Taker {
    Taker { order_id: order.order_id, side: order.side, timestamp, limit: Some(order.price) }
}

/// The taker that a market order makes.
pub open spec fn market_taker(order_id: OrderId, side: OrderSide, timestamp: Timestamp) -> Taker {
    Taker { order_id, side, timestamp, limit: None }
}

} // verus!
