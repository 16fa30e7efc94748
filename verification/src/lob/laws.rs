//! Laws of the order book: what holds of every book and every order.

use crate::lob::lemmas::{fill_keeps, only_filled, only_popped, sweep_keeps, tail_entries, traded};
use crate::lob::level::{is_live, pruned};
use crate::lob::model::{
    better, crosses, fill_queue, front_price, has_live, is_best_live, is_front, min_qty, queue_at,
    reduced, settled, sweep, trade_of, BookView, Ladder, Orders, Taker,
};
use crate::lob::order::{LimitOrder, OrderId, OrderSide, Price};
use vstd::prelude::*;

verus! {

/// Whether the best price `after` is no better than the best price `before`:
/// no higher for bids, no lower for asks, and none at all where there was none.
pub open spec fn no_better(side: OrderSide, after: Option<Price>, before: Option<Price>) -> bool {
    match after {
        None => true,
        Some(a) => match before {
            None => false,
            Some(b) => !better(side, a, b),
        },
    }
}

/// Whether every id occurs at most once in the queues of a side.
pub open spec fn distinct(levels: Ladder) -> bool {
    forall|pa: Price, ia: int, pb: Price, ib: int|
        levels.contains_key(pa) && 0 <= ia < levels[pa].len() && levels.contains_key(pb) && 0 <= ib
            < levels[pb].len() && #[trigger] levels[pa][ia] == #[trigger] levels[pb][ib] ==> pa
            == pb && ia == ib
}

/// Whether `id` stands in a queue of the side.
pub open spec fn queued(levels: Ladder, id: OrderId) -> bool {
    exists|price: Price, i: int|
        levels.contains_key(price) && 0 <= i < levels[price].len() && #[trigger] levels[price][i]
            == id
}

/// Conservation in one execution: the quantity that changes hands is the
/// smaller of what the resting order has and what the taker wants, so it
/// exceeds neither; the resting order and the taker both go down by exactly
/// that quantity; and the price is the resting order's.
pub proof fn execution_conserves(maker_id: OrderId, maker: LimitOrder, taker: Taker, left: u64)
    ensures
        trade_of(maker_id, maker, taker, left).qty == min_qty(maker.qty, left),
        trade_of(maker_id, maker, taker, left).qty <= maker.qty,
        trade_of(maker_id, maker, taker, left).qty <= left,
        reduced(maker, trade_of(maker_id, maker, taker, left).qty).qty == maker.qty - trade_of(
            maker_id,
            maker,
            taker,
            left,
        ).qty,
        trade_of(maker_id, maker, taker, left).price == maker.price,
{
}

/// Conservation in a whole match: the executions add up to exactly what the
/// taker no longer wants, the record of trades only grows, and no resting order
/// changes but by losing quantity.
pub proof fn matching_conserves(book: BookView, taker: Taker, qty: u64)
    requires
        book.wf(),
    ensures
        book.matched(taker, qty).trades.len() >= book.trades.len(),
        book.matched(taker, qty).trades.subrange(0, book.trades.len() as int) == book.trades,
        book.unmatched(taker, qty) + traded(
            book.matched(taker, qty).trades.skip(book.trades.len() as int),
        ) == qty,
        only_filled(book.orders, book.matched(taker, qty).orders),
{
    let s = sweep(book.orders, book.side(taker.side.spec_opposite()), taker, qty);
    sweep_keeps(book.orders, book.side(taker.side.spec_opposite()), taker, qty);
    assert((book.trades + s.trades).skip(book.trades.len() as int) =~= s.trades);
    assert((book.trades + s.trades).subrange(0, book.trades.len() as int) =~= book.trades);
}

/// A state has one best price.
pub proof fn best_is_unique(
    orders: Orders,
    levels: Ladder,
    side: OrderSide,
    a: Option<Price>,
    b: Option<Price>,
)
    requires
        is_best_live(orders, levels, side, a),
        is_best_live(orders, levels, side, b),
    ensures
        a == b,
{
}

/// Where everything that can trade afterwards could trade before, the best
/// price afterwards is no better than before.
pub proof fn fewer_live_no_better(
    orders: Orders,
    levels: Ladder,
    orders_after: Orders,
    levels_after: Ladder,
    side: OrderSide,
    before: Option<Price>,
    after: Option<Price>,
)
    requires
        is_best_live(orders, levels, side, before),
        is_best_live(orders_after, levels_after, side, after),
        forall|price: Price|
            levels_after.contains_key(price) && has_live(orders_after, levels_after[price])
                ==> levels.contains_key(price) && has_live(orders, levels[price]),
    ensures
        no_better(side, after, before),
{
}

/// Price priority over cancels: cancelling an order improves no best price.
/// The best bid does not rise and the best ask does not fall.
pub proof fn cancel_improves_no_best(
    book: BookView,
    id: OrderId,
    side: OrderSide,
    before: Option<Price>,
    after: Option<Price>,
)
    requires
        is_best_live(book.orders, book.side(side), side, before),
        is_best_live(book.cancelled(id).orders, book.cancelled(id).side(side), side, after),
    ensures
        no_better(side, after, before),
{
    let levels = book.side(side);
    let orders_after = book.cancelled(id).orders;
    assert forall|price: Price|
        levels.contains_key(price) && has_live(orders_after, levels[price]) implies has_live(
        book.orders,
        levels[price],
    ) by {
        let i = choose|i: int|
            0 <= i < levels[price].len() && is_live(orders_after, #[trigger] levels[price][i]);
        assert(is_live(book.orders, levels[price][i]));
    }
    fewer_live_no_better(book.orders, levels, orders_after, levels, side, before, after);
}

/// An order that can trade after some orders lost quantity and some queues lost
/// entries at the front could trade before.
proof fn live_after_was_live(
    orders: Orders,
    levels: Ladder,
    orders_after: Orders,
    levels_after: Ladder,
    price: Price,
)
    requires
        only_filled(orders, orders_after),
        only_popped(levels, levels_after),
        levels_after.contains_key(price),
        has_live(orders_after, levels_after[price]),
    ensures
        levels.contains_key(price),
        has_live(orders, levels[price]),
{
    let i = choose|i: int|
        0 <= i < levels_after[price].len() && is_live(
            orders_after,
            #[trigger] levels_after[price][i],
        );
    tail_entries(levels_after[price], levels[price], i);
    let j = choose|j: int|
        0 <= j < levels[price].len() && #[trigger] levels[price][j] == levels_after[price][i];
    assert(orders.contains_key(levels[price][j]));
    assert(is_live(orders, levels[price][j]));
}

/// Price priority over matches: matching improves no best price, on either
/// side. The best bid does not rise and the best ask does not fall.
pub proof fn match_improves_no_best(
    book: BookView,
    taker: Taker,
    qty: u64,
    side: OrderSide,
    before: Option<Price>,
    after: Option<Price>,
)
    requires
        book.wf(),
        is_best_live(book.orders, book.side(side), side, before),
        is_best_live(
            book.matched(taker, qty).orders,
            book.matched(taker, qty).side(side),
            side,
            after,
        ),
    ensures
        no_better(side, after, before),
{
    let opposite = taker.side.spec_opposite();
    let levels = book.side(side);
    let matched = book.matched(taker, qty);
    sweep_keeps(book.orders, book.side(opposite), taker, qty);
    crate::lob::lemmas::only_popped_same(levels);
    assert(only_popped(levels, matched.side(side)));
    assert forall|price: Price|
        matched.side(side).contains_key(price) && has_live(
            matched.orders,
            matched.side(side)[price],
        ) implies levels.contains_key(price) && has_live(book.orders, levels[price]) by {
        live_after_was_live(book.orders, levels, matched.orders, matched.side(side), price);
    }
    fewer_live_no_better(
        book.orders,
        levels,
        matched.orders,
        matched.side(side),
        side,
        before,
        after,
    );
}

/// Price priority over adds: after an order that can trade was put to rest, the
/// best price of its side is at least as good as the order's price and as the
/// best price before. So an add at a higher price raises the best bid to that
/// price or beyond, and none lowers it.
pub proof fn rest_worsens_no_best(
    book: BookView,
    order: LimitOrder,
    before: Option<Price>,
    after: Option<Price>,
)
    requires
        order.live(),
        is_best_live(book.orders, book.side(order.side), order.side, before),
        is_best_live(
            book.rested(order).orders,
            book.rested(order).side(order.side),
            order.side,
            after,
        ),
    ensures
        after is Some,
        !better(order.side, order.price, after->0),
        no_better(order.side, before, after),
{
    let side = order.side;
    let levels = book.side(side);
    let rested = book.rested(order);
    let grown = rested.side(side);
    let queue = queue_at(levels, order.price);
    assert(grown.contains_key(order.price));
    assert(grown[order.price] == queue.push(order.order_id));
    assert(grown[order.price][queue.len() as int] == order.order_id);
    assert(is_live(rested.orders, order.order_id));
    assert(has_live(rested.orders, grown[order.price]));
    assert forall|price: Price|
        levels.contains_key(price) && has_live(book.orders, levels[price]) implies grown.contains_key(
        price,
    ) && has_live(rested.orders, grown[price]) by {
        let i = choose|i: int|
            0 <= i < levels[price].len() && is_live(book.orders, #[trigger] levels[price][i]);
        assert(grown[price][i] == levels[price][i]);
        assert(is_live(rested.orders, grown[price][i]));
    }
    fewer_live_no_better(rested.orders, grown, book.orders, levels, side, after, before);
}

/// A best-price query changes no best price: asked again, each side gives the
/// answer it gave or would have given.
pub proof fn query_keeps_best(
    book: BookView,
    asked: OrderSide,
    found: Option<Price>,
    side: OrderSide,
    before: Option<Price>,
    after: Option<Price>,
)
    requires
        is_best_live(book.orders, book.side(asked), asked, found),
        is_best_live(book.orders, book.side(side), side, before),
        is_best_live(
            book.queried(asked, found).orders,
            book.queried(asked, found).side(side),
            side,
            after,
        ),
    ensures
        after == before,
{
    if side == asked {
        let levels = book.side(side);
        let kept = settled(book.orders, levels, side, found);
        assert forall|price: Price| #[trigger] levels.contains_key(price) implies (has_live(
            book.orders,
            pruned(book.orders, levels[price]),
        ) <==> has_live(book.orders, levels[price])) by {
            pruned_has_live(book.orders, levels[price]);
        }
        match found {
            None => {},
            Some(p) => {
                assert(kept.contains_key(p));
                assert(has_live(book.orders, kept[p]));
            },
        }
        best_is_unique(book.orders, kept, side, after, found);
    }
}

/// Pruning takes away no order that can trade.
pub proof fn pruned_has_live(orders: Orders, queue: Seq<OrderId>)
    ensures
        has_live(orders, pruned(orders, queue)) <==> has_live(orders, queue),
    decreases queue.len(),
{
    if queue.len() == 0 || is_live(orders, queue[0]) {
    } else {
        let tail = queue.drop_first();
        pruned_has_live(orders, tail);
        if has_live(orders, tail) {
            let i = choose|i: int| 0 <= i < tail.len() && is_live(orders, #[trigger] tail[i]);
            assert(queue[i + 1] == tail[i]);
        }
        if has_live(orders, queue) {
            let i = choose|i: int| 0 <= i < queue.len() && is_live(orders, #[trigger] queue[i]);
            assert(tail[i - 1] == queue[i]);
        }
    }
}

/// Matching within a level touches only orders of its queue.
pub proof fn fill_touches_queue(
    orders: Orders,
    queue: Seq<OrderId>,
    taker: Taker,
    left: u64,
    id: OrderId,
)
    requires
        forall|i: int| 0 <= i < queue.len() ==> queue[i] != id,
    ensures
        fill_queue(orders, queue, taker, left).orders.contains_key(id) == orders.contains_key(id),
        fill_queue(orders, queue, taker, left).orders[id] == orders[id],
    decreases queue.len(),
{
    if left == 0 || queue.len() == 0 {
    } else {
        let tail = queue.drop_first();
        assert forall|i: int| 0 <= i < tail.len() implies tail[i] != id by {
            assert(tail[i] == queue[i + 1]);
        }
        if !is_live(orders, queue[0]) {
            fill_touches_queue(orders, tail, taker, left, id);
        } else {
            let maker = orders[queue[0]];
            let trade = trade_of(queue[0], maker, taker, left);
            let after = orders.insert(queue[0], reduced(maker, trade.qty));
            assert(queue[0] != id);
            if trade.qty == maker.qty {
                fill_touches_queue(after, tail, taker, (left - trade.qty) as u64, id);
            }
        }
    }
}

/// Time priority within a level: of two orders in a queue in which no id
/// occurs twice, the later one loses quantity only once nothing is left of the
/// earlier one.
pub proof fn fifo_within_level(
    orders: Orders,
    queue: Seq<OrderId>,
    taker: Taker,
    left: u64,
    i: int,
    j: int,
)
    requires
        queue.no_duplicates(),
        0 <= i < j < queue.len(),
        is_live(orders, queue[i]),
        orders.contains_key(queue[j]),
    ensures
        fill_queue(orders, queue, taker, left).orders[queue[j]].qty < orders[queue[j]].qty
            ==> fill_queue(orders, queue, taker, left).orders[queue[i]].qty == 0,
    decreases queue.len(),
{
    let f = fill_queue(orders, queue, taker, left);
    if left == 0 || queue.len() == 0 {
    } else {
        let tail = queue.drop_first();
        assert(tail.no_duplicates()) by {
            assert forall|a: int, b: int|
                0 <= a < tail.len() && 0 <= b < tail.len() && a != b implies tail[a] != tail[b] by {
                assert(tail[a] == queue[a + 1] && tail[b] == queue[b + 1]);
            }
        }
        if !is_live(orders, queue[0]) {
            assert(i > 0);
            assert(tail[i - 1] == queue[i] && tail[j - 1] == queue[j]);
            fifo_within_level(orders, tail, taker, left, i - 1, j - 1);
        } else {
            let maker = orders[queue[0]];
            let trade = trade_of(queue[0], maker, taker, left);
            let after = orders.insert(queue[0], reduced(maker, trade.qty));
            assert(queue[j] != queue[0]);
            if trade.qty == maker.qty {
                let rest_left = (left - trade.qty) as u64;
                fill_keeps(after, tail, taker, rest_left);
                if i == 0 {
                    assert(after[queue[0]].qty == 0);
                    assert(after.contains_key(queue[0]));
                } else {
                    assert(queue[i] != queue[0]);
                    assert(tail[i - 1] == queue[i] && tail[j - 1] == queue[j]);
                    fifo_within_level(after, tail, taker, rest_left, i - 1, j - 1);
                }
            }
        }
    }
}

/// Matching against a side touches only orders that are queued on it.
pub proof fn sweep_touches_queued(
    orders: Orders,
    levels: Ladder,
    taker: Taker,
    left: u64,
    id: OrderId,
)
    requires
        levels.dom().finite(),
        !queued(levels, id),
    ensures
        sweep(orders, levels, taker, left).orders.contains_key(id) == orders.contains_key(id),
        sweep(orders, levels, taker, left).orders[id] == orders[id],
    decreases levels.dom().len(),
{
    let side = taker.side.spec_opposite();
    if left == 0 || levels.dom().len() == 0 {
    } else {
        let price = front_price(levels, side);
        if !levels.contains_key(price) || !crosses(taker, price) {
        } else {
            let fill = fill_queue(orders, levels[price], taker, left);
            assert forall|i: int| 0 <= i < levels[price].len() implies levels[price][i] != id by {
                if levels[price][i] == id {
                    assert(queued(levels, id));
                }
            }
            fill_touches_queue(orders, levels[price], taker, left, id);
            if fill.queue.len() == 0 {
                levels.lemma_remove_key_len(price);
                let fewer = levels.remove(price);
                if queued(fewer, id) {
                    let (p, i) = choose|p: Price, i: int|
                        fewer.contains_key(p) && 0 <= i < fewer[p].len() && #[trigger] fewer[p][i]
                            == id;
                    assert(levels.contains_key(p) && levels[p][i] == id);
                    assert(queued(levels, id));
                }
                sweep_touches_queued(fill.orders, fewer, taker, fill.left, id);
            }
        }
    }
}

/// An id that stands in one queue of a side with distinct ids stands in no
/// other.
proof fn not_queued_elsewhere(levels: Ladder, price: Price, i: int)
    requires
        distinct(levels),
        levels.contains_key(price),
        0 <= i < levels[price].len(),
    ensures
        !queued(levels.remove(price), levels[price][i]),
{
    let fewer = levels.remove(price);
    let id = levels[price][i];
    if queued(fewer, id) {
        let (p, k) = choose|p: Price, k: int|
            fewer.contains_key(p) && 0 <= k < fewer[p].len() && #[trigger] fewer[p][k] == id;
        assert(levels.contains_key(p));
        assert(levels[p][k] == levels[price][i]);
    }
}

/// Time priority (FIFO): where no id is queued twice on a side, of two orders
/// that rest at the same price the later one loses quantity to an incoming
/// order only once nothing is left of the earlier one.
pub proof fn fifo_within_price(
    orders: Orders,
    levels: Ladder,
    taker: Taker,
    left: u64,
    price: Price,
    i: int,
    j: int,
)
    requires
        levels.dom().finite(),
        distinct(levels),
        levels.contains_key(price),
        0 <= i < j < levels[price].len(),
        is_live(orders, levels[price][i]),
        orders.contains_key(levels[price][j]),
    ensures
        sweep(orders, levels, taker, left).orders[levels[price][j]].qty
            < orders[levels[price][j]].qty ==> sweep(
            orders,
            levels,
            taker,
            left,
        ).orders[levels[price][i]].qty == 0,
    decreases levels.dom().len(),
{
    let side = taker.side.spec_opposite();
    let first = levels[price][i];
    let second = levels[price][j];
    if left == 0 || levels.dom().len() == 0 {
    } else {
        let front = front_price(levels, side);
        if !levels.contains_key(front) || !crosses(taker, front) {
        } else {
            let fill = fill_queue(orders, levels[front], taker, left);
            let fewer = levels.remove(front);
            levels.lemma_remove_key_len(front);
            if front == price {
                assert(levels[price].no_duplicates()) by {
                    assert forall|a: int, b: int|
                        0 <= a < levels[price].len() && 0 <= b < levels[price].len() && a
                            != b implies levels[price][a] != levels[price][b] by {
                        if levels[price][a] == levels[price][b] {
                            assert(a == b);
                        }
                    }
                }
                fifo_within_level(orders, levels[price], taker, left, i, j);
                if fill.queue.len() == 0 {
                    not_queued_elsewhere(levels, price, i);
                    not_queued_elsewhere(levels, price, j);
                    sweep_touches_queued(fill.orders, fewer, taker, fill.left, first);
                    sweep_touches_queued(fill.orders, fewer, taker, fill.left, second);
                }
            } else {
                assert forall|k: int| 0 <= k < levels[front].len() implies levels[front][k]
                    != first && levels[front][k] != second by {
                    if levels[front][k] == first {
                        assert(levels[front][k] == levels[price][i]);
                    }
                    if levels[front][k] == second {
                        assert(levels[front][k] == levels[price][j]);
                    }
                }
                fill_touches_queue(orders, levels[front], taker, left, first);
                fill_touches_queue(orders, levels[front], taker, left, second);
                if fill.queue.len() == 0 {
                    assert(distinct(fewer)) by {
                        assert forall|pa: Price, ia: int, pb: Price, ib: int|
                            fewer.contains_key(pa) && 0 <= ia < fewer[pa].len()
                                && fewer.contains_key(pb) && 0 <= ib < fewer[pb].len()
                                && #[trigger] fewer[pa][ia] == #[trigger] fewer[pb][ib] implies pa
                            == pb && ia == ib by {
                            assert(levels[pa][ia] == levels[pb][ib]);
                        }
                    }
                    assert(fewer[price] == levels[price]);
                    fifo_within_price(fill.orders, fewer, taker, fill.left, price, i, j);
                }
            }
        }
    }
}

/// A side with finitely many levels, and at least one, has a first price.
pub proof fn front_exists(levels: Ladder, side: OrderSide)
    requires
        levels.dom().finite(),
        levels.dom().len() > 0,
    ensures
        is_front(levels, side, front_price(levels, side)),
    decreases levels.dom().len(),
{
    let some = levels.dom().choose();
    vstd::set::axiom_set_choose_len(levels.dom());
    let fewer = levels.remove(some);
    levels.lemma_remove_key_len(some);
    if fewer.dom().len() == 0 {
        fewer.dom().lemma_len0_is_empty();
        assert forall|other: Price| levels.contains_key(other) implies !better(side, other, some) by {
            if other != some {
                assert(fewer.contains_key(other));
            }
        }
        assert(is_front(levels, side, some));
    } else {
        front_exists(fewer, side);
        let front = front_price(fewer, side);
        let best = if better(side, some, front) {
            some
        } else {
            front
        };
        assert forall|other: Price| levels.contains_key(other) implies !better(side, other, best) by {
            if other != some {
                assert(fewer.contains_key(other));
            }
        }
        assert(is_front(levels, side, best));
    }
}

/// A queue that matching leaves empty held no order that can still trade: every
/// order of it that could trade was filled completely.
pub proof fn fill_exhausts(orders: Orders, queue: Seq<OrderId>, taker: Taker, left: u64, i: int)
    requires
        queue.no_duplicates(),
        0 <= i < queue.len(),
        is_live(orders, queue[i]),
        fill_queue(orders, queue, taker, left).queue.len() == 0,
    ensures
        fill_queue(orders, queue, taker, left).orders[queue[i]].qty == 0,
    decreases queue.len(),
{
    if left == 0 || queue.len() == 0 {
    } else {
        let tail = queue.drop_first();
        assert(tail.no_duplicates()) by {
            assert forall|a: int, b: int|
                0 <= a < tail.len() && 0 <= b < tail.len() && a != b implies tail[a] != tail[b] by {
                assert(tail[a] == queue[a + 1] && tail[b] == queue[b + 1]);
            }
        }
        if !is_live(orders, queue[0]) {
            assert(tail[i - 1] == queue[i]);
            fill_exhausts(orders, tail, taker, left, i - 1);
        } else {
            let maker = orders[queue[0]];
            let trade = trade_of(queue[0], maker, taker, left);
            let after = orders.insert(queue[0], reduced(maker, trade.qty));
            if trade.qty == maker.qty {
                let rest_left = (left - trade.qty) as u64;
                fill_keeps(after, tail, taker, rest_left);
                if i == 0 {
                    assert(after.contains_key(queue[0]));
                } else {
                    assert(queue[i] != queue[0]);
                    assert(tail[i - 1] == queue[i]);
                    fill_exhausts(after, tail, taker, rest_left, i - 1);
                }
            }
        }
    }
}

/// Price priority on one side: where no id is queued twice, an order at a worse
/// price loses quantity to an incoming order only once nothing is left of any
/// order that could trade at a better price.
pub proof fn better_price_first(
    orders: Orders,
    levels: Ladder,
    taker: Taker,
    left: u64,
    near: Price,
    i: int,
    far: Price,
    j: int,
)
    requires
        levels.dom().finite(),
        distinct(levels),
        levels.contains_key(near),
        0 <= i < levels[near].len(),
        is_live(orders, levels[near][i]),
        levels.contains_key(far),
        0 <= j < levels[far].len(),
        orders.contains_key(levels[far][j]),
        better(taker.side.spec_opposite(), near, far),
    ensures
        sweep(orders, levels, taker, left).orders[levels[far][j]].qty < orders[levels[far][j]].qty
            ==> sweep(orders, levels, taker, left).orders[levels[near][i]].qty == 0,
    decreases levels.dom().len(),
{
    let side = taker.side.spec_opposite();
    let first = levels[near][i];
    let second = levels[far][j];
    if left == 0 || levels.dom().len() == 0 {
    } else {
        front_exists(levels, side);
        let front = front_price(levels, side);
        if !crosses(taker, front) {
        } else {
            let fill = fill_queue(orders, levels[front], taker, left);
            let fewer = levels.remove(front);
            levels.lemma_remove_key_len(front);
            assert(front != far);
            assert forall|k: int| 0 <= k < levels[front].len() implies levels[front][k]
                != second by {
                if levels[front][k] == second {
                    assert(levels[front][k] == levels[far][j]);
                }
            }
            fill_touches_queue(orders, levels[front], taker, left, second);
            if front == near {
                if fill.queue.len() == 0 {
                    assert(levels[near].no_duplicates()) by {
                        assert forall|a: int, b: int|
                            0 <= a < levels[near].len() && 0 <= b < levels[near].len() && a
                                != b implies levels[near][a] != levels[near][b] by {
                            if levels[near][a] == levels[near][b] {
                                assert(a == b);
                            }
                        }
                    }
                    fill_exhausts(orders, levels[near], taker, left, i);
                    not_queued_elsewhere(levels, near, i);
                    sweep_touches_queued(fill.orders, fewer, taker, fill.left, first);
                }
            } else {
                assert forall|k: int| 0 <= k < levels[front].len() implies levels[front][k]
                    != first by {
                    if levels[front][k] == first {
                        assert(levels[front][k] == levels[near][i]);
                    }
                }
                fill_touches_queue(orders, levels[front], taker, left, first);
                if fill.queue.len() == 0 {
                    assert(distinct(fewer)) by {
                        assert forall|pa: Price, ia: int, pb: Price, ib: int|
                            fewer.contains_key(pa) && 0 <= ia < fewer[pa].len()
                                && fewer.contains_key(pb) && 0 <= ib < fewer[pb].len()
                                && #[trigger] fewer[pa][ia] == #[trigger] fewer[pb][ib] implies pa
                            == pb && ia == ib by {
                            assert(levels[pa][ia] == levels[pb][ib]);
                        }
                    }
                    assert(fewer[near] == levels[near] && fewer[far] == levels[far]);
                    better_price_first(fill.orders, fewer, taker, fill.left, near, i, far, j);
                }
            }
        }
    }
}

/// Price-time priority of the book: where no id is queued twice on the side
/// that an incoming order trades against, a resting order loses quantity only
/// once nothing is left of any order that rested at a better price, or at the
/// same price before it, and could trade.
pub proof fn price_time_priority(
    book: BookView,
    taker: Taker,
    qty: u64,
    near: Price,
    i: int,
    far: Price,
    j: int,
)
    requires
        book.wf(),
        distinct(book.side(taker.side.spec_opposite())),
        book.side(taker.side.spec_opposite()).contains_key(near),
        0 <= i < book.side(taker.side.spec_opposite())[near].len(),
        is_live(book.orders, book.side(taker.side.spec_opposite())[near][i]),
        book.side(taker.side.spec_opposite()).contains_key(far),
        0 <= j < book.side(taker.side.spec_opposite())[far].len(),
        better(taker.side.spec_opposite(), near, far) || (near == far && i < j),
    ensures
        book.matched(taker, qty).orders[book.side(taker.side.spec_opposite())[far][j]].qty
            < book.orders[book.side(taker.side.spec_opposite())[far][j]].qty ==> book.matched(
            taker,
            qty,
        ).orders[book.side(taker.side.spec_opposite())[near][i]].qty == 0,
{
    let levels = book.side(taker.side.spec_opposite());
    assert(book.orders.contains_key(levels[far][j]));
    if near == far {
        fifo_within_price(book.orders, levels, taker, qty, near, i, j);
    } else {
        better_price_first(book.orders, levels, taker, qty, near, i, far, j);
    }
}

/// Putting an order with an id that the book does not know to rest on a side
/// on which no id is queued twice leaves no id queued twice.
pub proof fn fresh_id_keeps_distinct(book: BookView, order: LimitOrder)
    requires
        book.wf(),
        distinct(book.side(order.side)),
        !book.orders.contains_key(order.order_id),
    ensures
        distinct(book.rested(order).side(order.side)),
{
    let levels = book.side(order.side);
    let grown = book.rested(order).side(order.side);
    let queue = queue_at(levels, order.price);
    assert forall|pa: Price, ia: int, pb: Price, ib: int|
        grown.contains_key(pa) && 0 <= ia < grown[pa].len() && grown.contains_key(pb) && 0 <= ib
            < grown[pb].len() && #[trigger] grown[pa][ia] == #[trigger] grown[pb][ib] implies pa
        == pb && ia == ib by {
        let new_a = pa == order.price && ia == queue.len();
        let new_b = pb == order.price && ib == queue.len();
        if !new_a {
            assert(levels.contains_key(pa) && levels[pa][ia] == grown[pa][ia]);
            assert(book.orders.contains_key(levels[pa][ia]));
        }
        if !new_b {
            assert(levels.contains_key(pb) && levels[pb][ib] == grown[pb][ib]);
            assert(book.orders.contains_key(levels[pb][ib]));
        }
        if !new_a && !new_b {
            assert(levels[pa][ia] == levels[pb][ib]);
        }
    }
}

/// Matching leaves no id queued twice on a side on which none was.
pub proof fn match_keeps_distinct(book: BookView, taker: Taker, qty: u64, side: OrderSide)
    requires
        book.wf(),
        distinct(book.side(side)),
    ensures
        distinct(book.matched(taker, qty).side(side)),
{
    let levels = book.side(side);
    let after = book.matched(taker, qty).side(side);
    sweep_keeps(book.orders, book.side(taker.side.spec_opposite()), taker, qty);
    crate::lob::lemmas::only_popped_same(levels);
    assert(only_popped(levels, after));
    assert forall|pa: Price, ia: int, pb: Price, ib: int|
        after.contains_key(pa) && 0 <= ia < after[pa].len() && after.contains_key(pb) && 0 <= ib
            < after[pb].len() && #[trigger] after[pa][ia] == #[trigger] after[pb][ib] implies pa
        == pb && ia == ib by {
        let ka = choose|k: int| 0 <= k <= levels[pa].len() && after[pa] == #[trigger] levels[pa].skip(k);
        let kb = choose|k: int| 0 <= k <= levels[pb].len() && after[pb] == #[trigger] levels[pb].skip(k);
        assert(levels[pa][ka + ia] == after[pa][ia]);
        assert(levels[pb][kb + ib] == after[pb][ib]);
        assert(levels[pa][ka + ia] == levels[pb][kb + ib]);
    }
}

} // verus!
