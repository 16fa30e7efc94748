//! What matching keeps: the facts about `fill_queue` and `sweep` from which the
//! book's invariant and its laws follow.

use crate::lob::level::is_live;
use crate::lob::model::{
    crosses, fill_queue, front_price, queue_at, reduced, sweep, trade_of, BookView, Ladder, Orders,
    Taker,
};
use crate::lob::order::{LimitOrder, OrderId, Price, Trade};
use vstd::prelude::*;

verus! {

/// Whether `after` holds the orders of `before`, each as it was but for a
/// quantity that may have gone down.
pub open spec fn only_filled(before: Orders, after: Orders) -> bool {
    &&& after.dom() == before.dom()
    &&& forall|id: OrderId| #[trigger]
        before.contains_key(id) ==> {
            &&& after[id].order_id == before[id].order_id
            &&& after[id].side == before[id].side
            &&& after[id].status == before[id].status
            &&& after[id].price == before[id].price
            &&& after[id].qty <= before[id].qty
        }
}

/// Whether `tail` is what is left of `queue` after some of its first entries
/// were dropped.
pub open spec fn is_tail(tail: Seq<OrderId>, queue: Seq<OrderId>) -> bool {
    exists|k: int| 0 <= k <= queue.len() && tail == #[trigger] queue.skip(k)
}

/// Whether every level of `after` is a level of `before` whose queue lost
/// nothing but some of its first entries.
pub open spec fn only_popped(before: Ladder, after: Ladder) -> bool {
    forall|price: Price| #[trigger]
        after.contains_key(price) ==> before.contains_key(price) && is_tail(
            after[price],
            before[price],
        )
}

/// Whether every id in a queue of `levels` names an order of `orders`.
pub open spec fn ids_known(orders: Orders, levels: Ladder) -> bool {
    forall|price: Price, i: int|
        levels.contains_key(price) && 0 <= i < levels[price].len() ==> orders.contains_key(
            #[trigger] levels[price][i],
        )
}

/// The sum of the quantities of some trades.
pub open spec fn traded(trades: Seq<Trade>) -> nat
    decreases trades.len(),
{
    if trades.len() == 0 {
        0
    } else {
        traded(trades.drop_last()) + trades.last().qty as nat
    }
}

/// The quantity of trades made one after the other adds up.
pub proof fn traded_concat(a: Seq<Trade>, b: Seq<Trade>)
    ensures
        traded(a + b) == traded(a) + traded(b),
    decreases b.len(),
{
    if b.len() == 0 {
        assert(a + b =~= a);
    } else {
        assert((a + b).drop_last() =~= a + b.drop_last());
        traded_concat(a, b.drop_last());
    }
}

/// One trade executes its own quantity.
pub proof fn traded_one(trade: Trade)
    ensures
        traded(seq![trade]) == trade.qty,
{
    assert(seq![trade].drop_last() =~= Seq::<Trade>::empty());
    assert(traded(Seq::<Trade>::empty()) == 0);
    assert(seq![trade].last() == trade);
}

/// Matching within a level changes no order but in its quantity, drops entries
/// only from the front of the queue, stops early only when the taker is
/// satisfied, and executes exactly what the taker no longer wants.
pub proof fn fill_keeps(orders: Orders, queue: Seq<OrderId>, taker: Taker, left: u64)
    ensures
        only_filled(orders, fill_queue(orders, queue, taker, left).orders),
        is_tail(fill_queue(orders, queue, taker, left).queue, queue),
        fill_queue(orders, queue, taker, left).queue.len() > 0 ==> fill_queue(
            orders,
            queue,
            taker,
            left,
        ).left == 0,
        fill_queue(orders, queue, taker, left).left + traded(
            fill_queue(orders, queue, taker, left).trades,
        ) == left,
    decreases queue.len(),
{
    let f = fill_queue(orders, queue, taker, left);
    if left == 0 || queue.len() == 0 {
        assert(queue.skip(0) =~= queue);
    } else if !is_live(orders, queue[0]) {
        let tail = queue.drop_first();
        fill_keeps(orders, tail, taker, left);
        let k = choose|k: int| 0 <= k <= tail.len() && f.queue == #[trigger] tail.skip(k);
        assert(tail.skip(k) =~= queue.skip(k + 1));
    } else {
        let maker = orders[queue[0]];
        let trade = trade_of(queue[0], maker, taker, left);
        let after = orders.insert(queue[0], reduced(maker, trade.qty));
        assert(after.dom() =~= orders.dom());
        if trade.qty == maker.qty {
            let tail = queue.drop_first();
            let rest = fill_queue(after, tail, taker, (left - trade.qty) as u64);
            fill_keeps(after, tail, taker, (left - trade.qty) as u64);
            let k = choose|k: int| 0 <= k <= tail.len() && rest.queue == #[trigger] tail.skip(k);
            assert(tail.skip(k) =~= queue.skip(k + 1));
            traded_concat(seq![trade], rest.trades);
            traded_one(trade);
            assert(only_filled(orders, f.orders)) by {
                assert forall|id: OrderId| #[trigger] orders.contains_key(id) implies {
                    &&& f.orders[id].order_id == orders[id].order_id
                    &&& f.orders[id].side == orders[id].side
                    &&& f.orders[id].status == orders[id].status
                    &&& f.orders[id].price == orders[id].price
                    &&& f.orders[id].qty <= orders[id].qty
                } by {
                    assert(after.contains_key(id));
                }
            }
        } else {
            assert(queue.skip(0) =~= queue);
            traded_one(trade);
        }
    }
}

/// Matching against a side changes no order but in its quantity, takes entries
/// only from the front of queues, and executes exactly what the taker no longer
/// wants.
pub proof fn sweep_keeps(orders: Orders, levels: Ladder, taker: Taker, left: u64)
    requires
        levels.dom().finite(),
    ensures
        only_filled(orders, sweep(orders, levels, taker, left).orders),
        only_popped(levels, sweep(orders, levels, taker, left).levels),
        sweep(orders, levels, taker, left).levels.dom().finite(),
        sweep(orders, levels, taker, left).left + traded(sweep(orders, levels, taker, left).trades)
            == left,
    decreases levels.dom().len(),
{
    let s = sweep(orders, levels, taker, left);
    let side = taker.side.spec_opposite();
    assert forall|price: Price| #[trigger] levels.contains_key(price) implies is_tail(
        levels[price],
        levels[price],
    ) by {
        assert(levels[price].skip(0) =~= levels[price]);
    }
    if left == 0 || levels.dom().len() == 0 {
    } else {
        let price = front_price(levels, side);
        if !levels.contains_key(price) || !crosses(taker, price) {
        } else {
            let fill = fill_queue(orders, levels[price], taker, left);
            fill_keeps(orders, levels[price], taker, left);
            if fill.queue.len() > 0 {
            } else {
                levels.lemma_remove_key_len(price);
                let rest = sweep(fill.orders, levels.remove(price), taker, fill.left);
                sweep_keeps(fill.orders, levels.remove(price), taker, fill.left);
                traded_concat(fill.trades, rest.trades);
                assert(only_filled(orders, s.orders)) by {
                    assert forall|id: OrderId| #[trigger] orders.contains_key(id) implies {
                        &&& s.orders[id].order_id == orders[id].order_id
                        &&& s.orders[id].side == orders[id].side
                        &&& s.orders[id].status == orders[id].status
                        &&& s.orders[id].price == orders[id].price
                        &&& s.orders[id].qty <= orders[id].qty
                    } by {
                        assert(fill.orders.contains_key(id));
                    }
                }
                assert(only_popped(levels, s.levels)) by {
                    assert forall|p: Price| #[trigger] s.levels.contains_key(p) implies levels.contains_key(
                        p,
                    ) && is_tail(s.levels[p], levels[p]) by {
                        assert(levels.remove(price).contains_key(p));
                    }
                }
            }
        }
    }
}

/// The entries of a tail are entries of the queue.
pub proof fn tail_entries(tail: Seq<OrderId>, queue: Seq<OrderId>, i: int)
    requires
        is_tail(tail, queue),
        0 <= i < tail.len(),
    ensures
        exists|j: int| 0 <= j < queue.len() && #[trigger] queue[j] == tail[i],
{
    let k = choose|k: int| 0 <= k <= queue.len() && tail == #[trigger] queue.skip(k);
    assert(queue[k + i] == tail[i]);
}

/// Ids stay known when orders only lose quantity and queues only lose entries.
pub proof fn ids_stay_known(orders: Orders, levels: Ladder, after: Orders, popped: Ladder)
    requires
        ids_known(orders, levels),
        after.dom() == orders.dom(),
        only_popped(levels, popped),
    ensures
        ids_known(after, popped),
{
    assert forall|price: Price, i: int|
        popped.contains_key(price) && 0 <= i < popped[price].len() implies after.contains_key(
        #[trigger] popped[price][i],
    ) by {
        tail_entries(popped[price], levels[price], i);
        let j = choose|j: int|
            0 <= j < levels[price].len() && #[trigger] levels[price][j] == popped[price][i];
        assert(orders.contains_key(levels[price][j]));
    }
}

/// A ladder is what is left of itself.
pub proof fn only_popped_same(levels: Ladder)
    ensures
        only_popped(levels, levels),
{
    assert forall|price: Price| #[trigger] levels.contains_key(price) implies is_tail(
        levels[price],
        levels[price],
    ) by {
        assert(levels[price].skip(0) =~= levels[price]);
    }
}

/// The invariant restated over the two sides.
pub proof fn wf_by_sides(book: BookView)
    ensures
        book.wf() <==> {
            &&& book.orders.dom().finite()
            &&& book.bids.dom().finite()
            &&& book.asks.dom().finite()
            &&& ids_known(book.orders, book.bids)
            &&& ids_known(book.orders, book.asks)
            &&& forall|id: OrderId| #[trigger]
                book.orders.contains_key(id) ==> book.orders[id].order_id == id
                    && book.orders[id].price > 0
        },
{
}

/// Matching keeps the invariant of the book.
pub proof fn matched_wf(book: BookView, taker: Taker, qty: u64)
    requires
        book.wf(),
    ensures
        book.matched(taker, qty).wf(),
        book.unmatched(taker, qty) <= qty,
        only_filled(book.orders, book.matched(taker, qty).orders),
{
    let opposite = taker.side.spec_opposite();
    let s = sweep(book.orders, book.side(opposite), taker, qty);
    let after = book.matched(taker, qty);
    wf_by_sides(book);
    sweep_keeps(book.orders, book.side(opposite), taker, qty);
    ids_stay_known(book.orders, book.side(opposite), s.orders, s.levels);
    only_popped_same(book.side(taker.side));
    ids_stay_known(book.orders, book.side(taker.side), s.orders, book.side(taker.side));
    wf_by_sides(after);
}

/// Cancelling keeps the invariant of the book.
pub proof fn cancelled_wf(book: BookView, id: OrderId)
    requires
        book.wf(),
    ensures
        book.cancelled(id).wf(),
{
    let after = book.cancelled(id);
    if book.orders.contains_key(id) {
        assert(after.orders.dom() =~= book.orders.dom());
    }
}

/// Putting an order to rest under its own id keeps the invariant of the book.
pub proof fn rested_wf(book: BookView, order: LimitOrder)
    requires
        book.wf(),
        order.price > 0,
    ensures
        book.rested(order).wf(),
{
    let after = book.rested(order);
    let levels = book.side(order.side);
    let grown = levels.insert(order.price, queue_at(levels, order.price).push(order.order_id));
    wf_by_sides(book);
    assert(ids_known(after.orders, grown)) by {
        assert forall|price: Price, i: int|
            grown.contains_key(price) && 0 <= i < grown[price].len() implies after.orders.contains_key(
            #[trigger] grown[price][i],
        ) by {
            if price == order.price {
                if i < queue_at(levels, order.price).len() {
                    assert(levels.contains_key(price));
                    assert(grown[price][i] == levels[price][i]);
                    assert(book.orders.contains_key(levels[price][i]));
                }
            } else {
                assert(levels.contains_key(price));
                assert(grown[price][i] == levels[price][i]);
                assert(book.orders.contains_key(levels[price][i]));
            }
        }
    }
    let other = book.side(order.side.spec_opposite());
    assert(ids_known(after.orders, other)) by {
        assert forall|price: Price, i: int|
            other.contains_key(price) && 0 <= i < other[price].len() implies after.orders.contains_key(
            #[trigger] other[price][i],
        ) by {
            assert(book.orders.contains_key(other[price][i]));
        }
    }
    wf_by_sides(after);
}

/// Adding a limit order keeps the invariant of the book.
pub proof fn added_wf(book: BookView, order: LimitOrder, timestamp: u64)
    requires
        book.wf(),
        order.price > 0,
    ensures
        book.added(order, timestamp).wf(),
{
    let taker = crate::lob::model::limit_taker(order, timestamp);
    matched_wf(book, taker, order.qty);
    let left = book.unmatched(taker, order.qty);
    if left != 0 {
        rested_wf(book.matched(taker, order.qty), LimitOrder { qty: left, ..order });
    }
}

} // verus!
