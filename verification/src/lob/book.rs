//! The order book: resting orders by id, and a ladder of price levels on each
//! side.

use crate::lob::ladder::{ladder_view, pruned_is_tail, settle, sweep_side};
use crate::lob::lemmas::{
    cancelled_wf, ids_stay_known, is_tail, matched_wf, only_popped, wf_by_sides,
};
use crate::lob::level::{pruned, PriceLevel};
use crate::lob::model::{
    is_best_live, limit_taker, market_taker, queue_at, settled, BookView, Taker,
};
use crate::lob::order::{
    LimitOrder, Order, OrderId, OrderSide, OrderStatus, OrderType, Price, Timestamp, Trade,
};
use std::collections::{BTreeMap, HashMap};
use vstd::prelude::*;

verus! {

/// A limit order book with price-time priority. Cancelled and filled orders
/// are dropped lazily: their ids stay queued until matching or a best-price
/// query reaches them.
pub struct OrderBook {
    orders: HashMap<OrderId, LimitOrder>,
    bid_orders: BTreeMap<Price, PriceLevel>,
    ask_orders: BTreeMap<Price, PriceLevel>,
    trades: Vec<Trade>,
}

impl View for OrderBook {
    type V = BookView;

    closed spec fn view(&self) -> BookView {
        BookView {
            orders: self.orders@,
            bids: ladder_view(self.bid_orders@),
            asks: ladder_view(self.ask_orders@),
            trades: self.trades@,
        }
    }
}

impl BookView {
    /// The book after a best-price query on `side` that found `best`.
    pub open spec fn queried(self, side: OrderSide, best: Option<Price>) -> BookView {
        self.with_side(side, settled(self.orders, self.side(side), side, best))
    }

    /// The limit order that an incoming order of kind `Limit` or `Update` asks
    /// to place.
    pub open spec fn limit_of(order: Order, qty: u64, price: Price) -> LimitOrder {
        LimitOrder {
            order_id: order.order_id,
            side: order.side,
            status: OrderStatus::Active,
            qty,
            price,
        }
    }

    /// The book after `order` was processed.
    pub open spec fn processed(self, order: Order) -> BookView {
        match order.kind {
            OrderType::Limit { qty, price } => self.added(
                Self::limit_of(order, qty, price),
                order.timestamp,
            ),
            OrderType::Market { qty } => self.matched(
                market_taker(order.order_id, order.side, order.timestamp),
                qty,
            ),
            OrderType::Cancel => self.cancelled(order.order_id),
            OrderType::Update { old_id, qty, price } => if self.orders.contains_key(old_id) {
                self.cancelled(old_id).added(Self::limit_of(order, qty, price), order.timestamp)
            } else {
                self
            },
        }
    }

    /// What processing `order` reports: for a limit order, the order with the
    /// quantity that was not matched; for a market order, the same with price
    /// zero; for a cancel, the cancelled order, or nothing where the id is not
    /// known; for an update, the new order with the quantity that was not
    /// matched, or nothing where the old id is not known.
    pub open spec fn outcome(self, order: Order) -> Option<LimitOrder> {
        match order.kind {
            OrderType::Limit { qty, price } => Some(
                LimitOrder {
                    qty: self.unmatched(
                        limit_taker(Self::limit_of(order, qty, price), order.timestamp),
                        qty,
                    ),
                    ..Self::limit_of(order, qty, price)
                },
            ),
            OrderType::Market { qty } => Some(
                LimitOrder {
                    qty: self.unmatched(
                        market_taker(order.order_id, order.side, order.timestamp),
                        qty,
                    ),
                    ..Self::limit_of(order, qty, 0)
                },
            ),
            OrderType::Cancel => if self.orders.contains_key(order.order_id) {
                Some(LimitOrder { status: OrderStatus::Canceled, ..self.orders[order.order_id] })
            } else {
                None
            },
            OrderType::Update { old_id, qty, price } => if self.orders.contains_key(old_id) {
                Some(
                    LimitOrder {
                        qty: self.cancelled(old_id).unmatched(
                            limit_taker(Self::limit_of(order, qty, price), order.timestamp),
                            qty,
                        ),
                        ..Self::limit_of(order, qty, price)
                    },
                )
            } else {
                None
            },
        }
    }
}

/// A best-price query keeps the invariant of the book.
pub proof fn queried_wf(book: BookView, side: OrderSide, best: Option<Price>)
    requires
        book.wf(),
        is_best_live(book.orders, book.side(side), side, best),
    ensures
        book.queried(side, best).wf(),
{
    let levels = book.side(side);
    let found = settled(book.orders, levels, side, best);
    wf_by_sides(book);
    assert(only_popped(levels, found)) by {
        assert forall|price: Price| #[trigger] found.contains_key(price) implies levels.contains_key(
            price,
        ) && is_tail(found[price], levels[price]) by {
            pruned_is_tail(book.orders, levels[price]);
            assert(levels[price].skip(0) =~= levels[price]);
        }
    }
    ids_stay_known(book.orders, levels, book.orders, found);
    assert(found.dom().finite()) by {
        assert(found.dom().subset_of(levels.dom()));
        vstd::set_lib::lemma_len_subset(found.dom(), levels.dom());
    }
    wf_by_sides(book.queried(side, best));
}

impl OrderBook {
    /// The invariant of the book.
    pub open spec fn wf(&self) -> bool {
        self@.wf()
    }

    /// An empty book.
    pub fn new() -> (book: Self)
        ensures
            book.wf(),
            book@ == (BookView {
                orders: Map::empty(),
                bids: Map::empty(),
                asks: Map::empty(),
                trades: Seq::empty(),
            }),
    {
        let book = OrderBook {
            orders: HashMap::new(),
            bid_orders: BTreeMap::new(),
            ask_orders: BTreeMap::new(),
            trades: Vec::new(),
        };
        assert(book@.bids =~= Map::<Price, Seq<OrderId>>::empty());
        assert(book@.asks =~= Map::<Price, Seq<OrderId>>::empty());
        book
    }

    /// Matches `taker` for up to `qty` against the side opposite to it and
    /// returns what it still wants.
    fn take(&mut self, taker: &Taker, qty: u64) -> (left: u64)
        requires
            old(self).wf(),
        ensures
            final(self).wf(),
            final(self)@ == old(self)@.matched(*taker, qty),
            left == old(self)@.unmatched(*taker, qty),
            left <= qty,
    {
        proof {
            matched_wf(self@, *taker, qty);
        }
        match taker.side {
            OrderSide::Bid => sweep_side(
                &mut self.ask_orders,
                &mut self.orders,
                &mut self.trades,
                taker,
                qty,
            ),
            OrderSide::Ask => sweep_side(
                &mut self.bid_orders,
                &mut self.orders,
                &mut self.trades,
                taker,
                qty,
            ),
        }
    }

    /// Matches the limit order `order`, arriving at `timestamp`, against the
    /// opposite side: best price first, oldest order first within a price, and
    /// only at prices that `order.price` allows. Every execution is at the
    /// resting order's price. On return `order.qty` is what was not matched.
    pub fn match_order(&mut self, order: &mut LimitOrder, timestamp: Timestamp)
        requires
            old(self).wf(),
        ensures
            final(self).wf(),
            final(self)@ == old(self)@.matched(limit_taker(*old(order), timestamp), old(order).qty),
            *final(order) == (LimitOrder {
                qty: old(self)@.unmatched(limit_taker(*old(order), timestamp), old(order).qty),
                ..*old(order)
            }),
            final(order).qty <= old(order).qty,
    {
        let taker = Taker {
            order_id: order.order_id,
            side: order.side,
            timestamp,
            limit: Some(order.price),
        };
        let left = self.take(&taker, order.qty);
        order.qty = left;
    }

    /// Matches a market order of `side` for up to `qty` against the opposite
    /// side, at any price. On return `qty` is what was not matched.
    pub fn market_order(
        &mut self,
        qty: &mut u64,
        side: OrderSide,
        taker_id: OrderId,
        timestamp: Timestamp,
    )
        requires
            old(self).wf(),
        ensures
            final(self).wf(),
            final(self)@ == old(self)@.matched(market_taker(taker_id, side, timestamp), *old(qty)),
            *final(qty) == old(self)@.unmatched(market_taker(taker_id, side, timestamp), *old(qty)),
            *final(qty) <= *old(qty),
    {
        let taker = Taker { order_id: taker_id, side, timestamp, limit: None };
        let left = self.take(&taker, *qty);
        *qty = left;
    }

    /// Puts `order` to rest at the back of the queue at its price.
    fn rest(&mut self, order: LimitOrder)
        requires
            old(self).wf(),
            order.price > 0,
        ensures
            final(self).wf(),
            final(self)@ == old(self)@.rested(order),
    {
        broadcast use vstd::std_specs::btree::group_btree_axioms;
        broadcast use vstd::std_specs::hash::group_hash_axioms;

        proof {
            crate::lob::lemmas::rested_wf(self@, order);
        }
        let ghost before = self@;
        match order.side {
            OrderSide::Bid => {
                let ghost levels = self.bid_orders@;
                let mut level = match self.bid_orders.remove(&order.price) {
                    Some(l) => l,
                    None => PriceLevel::new(),
                };
                assert(level@ == queue_at(ladder_view(levels), order.price));
                level.push(&order);
                self.bid_orders.insert(order.price, level);
                assert(ladder_view(self.bid_orders@) =~= before.bids.insert(
                    order.price,
                    queue_at(before.bids, order.price).push(order.order_id),
                ));
            },
            OrderSide::Ask => {
                let ghost levels = self.ask_orders@;
                let mut level = match self.ask_orders.remove(&order.price) {
                    Some(l) => l,
                    None => PriceLevel::new(),
                };
                assert(level@ == queue_at(ladder_view(levels), order.price));
                level.push(&order);
                self.ask_orders.insert(order.price, level);
                assert(ladder_view(self.ask_orders@) =~= before.asks.insert(
                    order.price,
                    queue_at(before.asks, order.price).push(order.order_id),
                ));
            },
        }
        self.orders.insert(order.order_id, order);
    }

    /// Matches a limit order and, where anything of it is left, puts the rest
    /// into the book: at the back of the queue at its price on its side, filed
    /// under its id as an active order. Returns the order with the quantity
    /// that was not matched.
    pub fn add_order(&mut self, order: LimitOrder, timestamp: Timestamp) -> (rest: LimitOrder)
        requires
            old(self).wf(),
            order.price > 0,
        ensures
            final(self).wf(),
            final(self)@ == old(self)@.added(order, timestamp),
            rest == (LimitOrder {
                qty: old(self)@.unmatched(limit_taker(order, timestamp), order.qty),
                ..order
            }),
    {
        let mut order = order;
        self.match_order(&mut order, timestamp);
        if order.qty == 0 {
            return order;
        }
        self.rest(order);
        order
    }

    /// Cancels the order `order_id`: where the book knows it, its status
    /// becomes cancelled and the order is returned as it then stands; where it
    /// does not, nothing changes. The id stays where it is queued.
    pub fn cancel_order(&mut self, order_id: OrderId) -> (cancelled: Option<LimitOrder>)
        requires
            old(self).wf(),
        ensures
            final(self).wf(),
            final(self)@ == old(self)@.cancelled(order_id),
            old(self)@.orders.contains_key(order_id) ==> cancelled == Some(
                LimitOrder { status: OrderStatus::Canceled, ..old(self)@.orders[order_id] },
            ),
            !old(self)@.orders.contains_key(order_id) ==> cancelled is None,
    {
        broadcast use vstd::std_specs::hash::group_hash_axioms;

        proof {
            cancelled_wf(self@, order_id);
        }
        let mut found: Option<LimitOrder> = None;
        match self.orders.get(&order_id) {
            Some(order) => {
                found = Some(*order);
            },
            None => {},
        }
        match found {
            Some(order) => {
                let cancelled = LimitOrder {
                    order_id: order.order_id,
                    side: order.side,
                    status: OrderStatus::Canceled,
                    qty: order.qty,
                    price: order.price,
                };
                self.orders.insert(order_id, cancelled);
                Some(cancelled)
            },
            None => None,
        }
    }

    /// Replaces the order `old_order_id` by `order`: cancels the old one and,
    /// only where the book knew it, adds the new one as `add_order` does.
    pub fn update_order(
        &mut self,
        order: LimitOrder,
        old_order_id: OrderId,
        timestamp: Timestamp,
    ) -> (rest: Option<LimitOrder>)
        requires
            old(self).wf(),
            order.price > 0,
        ensures
            final(self).wf(),
            old(self)@.orders.contains_key(old_order_id) ==> final(self)@ == old(self)@.cancelled(
                old_order_id,
            ).added(order, timestamp) && rest == Some(
                LimitOrder {
                    qty: old(self)@.cancelled(old_order_id).unmatched(
                        limit_taker(order, timestamp),
                        order.qty,
                    ),
                    ..order
                },
            ),
            !old(self)@.orders.contains_key(old_order_id) ==> final(self)@ == old(self)@
                && rest is None,
    {
        match self.cancel_order(old_order_id) {
            Some(_) => Some(self.add_order(order, timestamp)),
            None => None,
        }
    }

    /// Processes one incoming order according to its kind.
    pub fn process_order(&mut self, order: Order) -> (outcome: Option<LimitOrder>)
        requires
            old(self).wf(),
            order.well_formed(),
        ensures
            final(self).wf(),
            final(self)@ == old(self)@.processed(order),
            outcome == old(self)@.outcome(order),
    {
        match order.kind {
            OrderType::Limit { qty, price } => Some(
                self.add_order(LimitOrder::new(order, qty, price), order.timestamp),
            ),
            OrderType::Market { qty } => {
                let mut qty = qty;
                self.market_order(&mut qty, order.side, order.order_id, order.timestamp);
                Some(LimitOrder::new(order, qty, 0))
            },
            OrderType::Cancel => self.cancel_order(order.order_id),
            OrderType::Update { old_id, qty, price } => self.update_order(
                LimitOrder::new(order, qty, price),
                old_id,
                order.timestamp,
            ),
        }
    }

    /// The highest price at which a bid can trade, if there is one. Bid levels
    /// above it, at which nothing can trade, are removed, and the level at the
    /// price found is pruned.
    pub fn best_bid(&mut self) -> (best: Option<Price>)
        requires
            old(self).wf(),
        ensures
            final(self).wf(),
            is_best_live(old(self)@.orders, old(self)@.bids, OrderSide::Bid, best),
            final(self)@ == old(self)@.queried(OrderSide::Bid, best),
    {
        let best = settle(&mut self.bid_orders, &mut self.orders, OrderSide::Bid);
        proof {
            queried_wf(old(self)@, OrderSide::Bid, best);
        }
        best
    }

    /// The lowest price at which an ask can trade, if there is one. Ask levels
    /// below it, at which nothing can trade, are removed, and the level at the
    /// price found is pruned.
    pub fn best_ask(&mut self) -> (best: Option<Price>)
        requires
            old(self).wf(),
        ensures
            final(self).wf(),
            is_best_live(old(self)@.orders, old(self)@.asks, OrderSide::Ask, best),
            final(self)@ == old(self)@.queried(OrderSide::Ask, best),
    {
        let best = settle(&mut self.ask_orders, &mut self.orders, OrderSide::Ask);
        proof {
            queried_wf(old(self)@, OrderSide::Ask, best);
        }
        best
    }

    /// The order filed under `order_id`, as it stands.
    pub fn order(&self, order_id: OrderId) -> (found: Option<LimitOrder>)
        ensures
            self@.orders.contains_key(order_id) ==> found == Some(self@.orders[order_id]),
            !self@.orders.contains_key(order_id) ==> found is None,
    {
        broadcast use vstd::std_specs::hash::group_hash_axioms;

        match self.orders.get(&order_id) {
            Some(order) => Some(*order),
            None => None,
        }
    }

    /// Every execution so far, oldest first.
    pub fn trades(&self) -> (trades: &Vec<Trade>)
        ensures
            trades@ == self@.trades,
    {
        &self.trades
    }

    /// Hands out the executions so far and starts a new record.
    pub fn take_trades(&mut self) -> (trades: Vec<Trade>)
        requires
            old(self).wf(),
        ensures
            final(self).wf(),
            trades@ == old(self)@.trades,
            final(self)@ == (BookView { trades: Seq::empty(), ..old(self)@ }),
    {
        let mut trades: Vec<Trade> = Vec::new();
        std::mem::swap(&mut trades, &mut self.trades);
        trades
    }
}

} // verus!
