//! One side of the book as an ordered map from price to level, and how it is
//! walked from its best price.

use crate::lob::level::{is_live, pruned, PriceLevel};
use crate::lob::model::{
    better, crosses, fill_queue, front_price, has_live, is_best_live, is_front, reduced, settled,
    sweep, trade_of, Fill, Ladder, Orders, Sweep, Taker,
};
use crate::lob::order::{LimitOrder, OrderId, OrderSide, Price, Trade};
use std::collections::{BTreeMap, HashMap};
use vstd::prelude::*;

verus! {

/// The queues of the levels of a side, by price.
pub open spec fn ladder_view(levels: Map<Price, PriceLevel>) -> Ladder {
    levels.map_values(|level: PriceLevel| level@)
}

/// `BTreeMap::first_key_value`: the smallest key of the map, `None` where the
/// map is empty.
#[verifier::external_body]
pub(crate) fn lowest_price(levels: &BTreeMap<Price, PriceLevel>) -> (price: Option<Price>)
    ensures
        price is None ==> forall|k: Price| !levels@.contains_key(k),
        price matches Some(p) ==> levels@.contains_key(p) && forall|k: Price|
            levels@.contains_key(k) ==> p <= k,
{
    match levels.first_key_value() {
        Some(entry) => Some(*entry.0),
        None => None,
    }
}

/// `BTreeMap::last_key_value`: the largest key of the map, `None` where the map
/// is empty.
#[verifier::external_body]
pub(crate) fn highest_price(levels: &BTreeMap<Price, PriceLevel>) -> (price: Option<Price>)
    ensures
        price is None ==> forall|k: Price| !levels@.contains_key(k),
        price matches Some(p) ==> levels@.contains_key(p) && forall|k: Price|
            levels@.contains_key(k) ==> p >= k,
{
    match levels.last_key_value() {
        Some(entry) => Some(*entry.0),
        None => None,
    }
}

/// A side has at most one first price.
pub proof fn front_is_unique(levels: Ladder, side: OrderSide, price: Price)
    requires
        is_front(levels, side, price),
    ensures
        front_price(levels, side) == price,
{
    let chosen = front_price(levels, side);
    assert(is_front(levels, side, chosen));
    assert(!better(side, price, chosen));
    assert(!better(side, chosen, price));
}

/// The first price of a side, `None` where the side has no level.
pub fn first_price(levels: &BTreeMap<Price, PriceLevel>, side: OrderSide) -> (price: Option<Price>)
    ensures
        price is None ==> ladder_view(levels@).dom().len() == 0,
        price matches Some(p) ==> is_front(ladder_view(levels@), side, p) && front_price(
            ladder_view(levels@),
            side,
        ) == p && ladder_view(levels@).dom().len() > 0,
{
    broadcast use vstd::std_specs::btree::group_btree_axioms;

    let price = match side {
        OrderSide::Bid => highest_price(levels),
        OrderSide::Ask => lowest_price(levels),
    };
    proof {
        let ladder = ladder_view(levels@);
        assert(ladder.dom() =~= levels@.dom());
        match price {
            None => {
                assert(ladder.dom() =~= Set::<Price>::empty());
            },
            Some(p) => {
                assert(ladder.dom().contains(p));
                assert(ladder.dom().finite());
                if ladder.dom().len() == 0 {
                    ladder.dom().lemma_len0_is_empty();
                }
                front_is_unique(ladder, side, p);
            },
        }
    }
    price
}

/// Whether `taker` may trade at `price`.
pub fn taker_crosses(taker: &Taker, price: Price) -> (ok: bool)
    ensures
        ok == crosses(*taker, price),
{
    match taker.limit {
        None => true,
        Some(limit) => match taker.side {
            OrderSide::Bid => price <= limit,
            OrderSide::Ask => price >= limit,
        },
    }
}

/// Matches `taker`, which still wants `left`, against the queue of one level,
/// oldest order first. Returns what the taker still wants afterwards. Each
/// execution is appended to `trades`.
pub fn fill_level(
    level: &mut PriceLevel,
    orders: &mut HashMap<OrderId, LimitOrder>,
    trades: &mut Vec<Trade>,
    taker: &Taker,
    left: u64,
) -> (rest: u64)
    ensures
        final(orders)@ == fill_queue(old(orders)@, old(level)@, *taker, left).orders,
        final(level)@ == fill_queue(old(orders)@, old(level)@, *taker, left).queue,
        rest == fill_queue(old(orders)@, old(level)@, *taker, left).left,
        final(trades)@ == old(trades)@ + fill_queue(old(orders)@, old(level)@, *taker, left).trades,
{
    broadcast use vstd::std_specs::hash::group_hash_axioms;

    let ghost goal = fill_queue(orders@, level@, *taker, left);
    let ghost mut done: Seq<Trade> = Seq::empty();
    let mut left = left;
    assert(trades@ =~= old(trades)@ + done);
    while left > 0 && level.orders.len() > 0
        invariant
            trades@ == old(trades)@ + done,
            goal == (Fill {
                trades: done + fill_queue(orders@, level@, *taker, left).trades,
                ..fill_queue(orders@, level@, *taker, left)
            }),
        decreases level@.len(), left,
    {
        let id = level.orders[0];
        let mut live_maker: Option<LimitOrder> = None;
        match orders.get(&id) {
            Some(order) => {
                if order.is_live() {
                    live_maker = Some(*order);
                }
            },
            None => {},
        }
        let ghost queue = level@;
        match live_maker {
            None => {
                assert(!is_live(orders@, id));
                level.orders.pop_front();
                assert(level@ =~= queue.drop_first());
            },
            Some(maker) => {
                assert(is_live(orders@, id) && orders@[id] == maker);
                let qty = if maker.qty <= left {
                    maker.qty
                } else {
                    left
                };
                let trade = Trade {
                    maker_id: id,
                    taker_id: taker.order_id,
                    price: maker.price,
                    qty,
                    timestamp: taker.timestamp,
                };
                assert(trade == trade_of(id, maker, *taker, left));
                let after = LimitOrder {
                    order_id: maker.order_id,
                    side: maker.side,
                    status: maker.status,
                    qty: maker.qty - qty,
                    price: maker.price,
                };
                assert(after == reduced(maker, qty));
                let ghost before_orders = orders@;
                let ghost before_done = done;
                orders.insert(id, after);
                trades.push(trade);
                proof {
                    done = done.push(trade);
                    assert(trades@ =~= old(trades)@ + done);
                }
                if qty == maker.qty {
                    level.orders.pop_front();
                    left = left - qty;
                    proof {
                        assert(level@ =~= queue.drop_first());
                        let rest = fill_queue(orders@, level@, *taker, left);
                        assert(done + rest.trades =~= before_done + (seq![trade] + rest.trades));
                    }
                } else {
                    left = 0;
                    proof {
                        let rest = fill_queue(orders@, level@, *taker, left);
                        assert(done + rest.trades =~= before_done + seq![trade]);
                    }
                }
            },
        }
    }
    proof {
        let rest = fill_queue(orders@, level@, *taker, left);
        assert(done + rest.trades =~= done);
    }
    left
}

/// A pruned queue is empty exactly where no order of the queue can trade, and
/// what it keeps is a tail of the queue.
pub proof fn pruned_is_tail(orders: Orders, queue: Seq<OrderId>)
    ensures
        pruned(orders, queue).len() > 0 <==> has_live(orders, queue),
        pruned(orders, queue).len() > 0 ==> is_live(orders, pruned(orders, queue)[0]),
        exists|k: int| 0 <= k <= queue.len() && pruned(orders, queue) == #[trigger] queue.skip(k),
    decreases queue.len(),
{
    if queue.len() == 0 {
        assert(queue.skip(0) =~= queue);
    } else if is_live(orders, queue[0]) {
        assert(queue.skip(0) =~= queue);
        assert(is_live(orders, queue[0]));
    } else {
        let tail = queue.drop_first();
        pruned_is_tail(orders, tail);
        let k = choose|k: int| 0 <= k <= tail.len() && pruned(orders, tail) == #[trigger] tail.skip(k);
        assert(tail.skip(k) =~= queue.skip(k + 1));
        if has_live(orders, tail) {
            let i = choose|i: int| 0 <= i < tail.len() && is_live(orders, #[trigger] tail[i]);
            assert(tail[i] == queue[i + 1]);
        }
        if has_live(orders, queue) {
            let i = choose|i: int| 0 <= i < queue.len() && is_live(orders, #[trigger] queue[i]);
            assert(i > 0);
            assert(tail[i - 1] == queue[i]);
        }
    }
}

/// Matches `taker` for up to `qty` against the levels of the side opposite to
/// it, best price first, and returns what the taker still wants. A level whose
/// queue runs empty is removed. Each execution is appended to `trades`.
pub fn sweep_side(
    levels: &mut BTreeMap<Price, PriceLevel>,
    orders: &mut HashMap<OrderId, LimitOrder>,
    trades: &mut Vec<Trade>,
    taker: &Taker,
    qty: u64,
) -> (rest: u64)
    ensures
        final(orders)@ == sweep(old(orders)@, ladder_view(old(levels)@), *taker, qty).orders,
        ladder_view(final(levels)@) == sweep(
            old(orders)@,
            ladder_view(old(levels)@),
            *taker,
            qty,
        ).levels,
        rest == sweep(old(orders)@, ladder_view(old(levels)@), *taker, qty).left,
        final(trades)@ == old(trades)@ + sweep(
            old(orders)@,
            ladder_view(old(levels)@),
            *taker,
            qty,
        ).trades,
{
    broadcast use vstd::std_specs::btree::group_btree_axioms;

    let ghost goal = sweep(orders@, ladder_view(levels@), *taker, qty);
    let ghost mut done: Seq<Trade> = Seq::empty();
    let side = taker.side.opposite();
    let mut left = qty;
    assert(trades@ =~= old(trades)@ + done);
    assert(ladder_view(levels@).dom() =~= levels@.dom());
    loop
        invariant_except_break
            goal == (Sweep {
                trades: done + sweep(orders@, ladder_view(levels@), *taker, left).trades,
                ..sweep(orders@, ladder_view(levels@), *taker, left)
            }),
        invariant
            side == taker.side.spec_opposite(),
            trades@ == old(trades)@ + done,
            levels@.dom().finite(),
        ensures
            goal == (Sweep { orders: orders@, levels: ladder_view(levels@), left, trades: done }),
        decreases levels@.dom().len(),
    {
        let ghost ladder = ladder_view(levels@);
        proof {
            assert(ladder.dom() =~= levels@.dom());
            assert(done + Seq::<Trade>::empty() =~= done);
        }
        if left == 0 {
            break;
        }
        let price = match first_price(levels, side) {
            None => {
                break;
            },
            Some(p) => p,
        };
        if !taker_crosses(taker, price) {
            break;
        }
        let ghost before_levels = levels@;
        let mut level = levels.remove(&price).unwrap();
        assert(level == before_levels[price]);
        assert(ladder[price] == level@);
        let ghost before_done = done;
        let ghost fill = fill_queue(orders@, level@, *taker, left);
        left = fill_level(&mut level, orders, trades, taker, left);
        proof {
            done = done + fill.trades;
            assert(trades@ =~= old(trades)@ + done);
            before_levels.lemma_remove_key_len(price);
        }
        if !level.is_empty() {
            levels.insert(price, level);
            proof {
                assert(ladder_view(levels@) =~= ladder.insert(price, fill.queue));
            }
            break;
        }
        proof {
            assert(ladder_view(levels@) =~= ladder.remove(price));
            let rest = sweep(orders@, ladder_view(levels@), *taker, left);
            assert(done + rest.trades =~= before_done + (fill.trades + rest.trades));
        }
    }
    left
}

/// Finds the best price of a side at which an order can trade. On the way,
/// levels at which nothing can trade are removed, and the level that is found
/// is pruned. The orders are not changed.
pub fn settle(
    levels: &mut BTreeMap<Price, PriceLevel>,
    orders: &mut HashMap<OrderId, LimitOrder>,
    side: OrderSide,
) -> (best: Option<Price>)
    ensures
        final(orders)@ == old(orders)@,
        is_best_live(old(orders)@, ladder_view(old(levels)@), side, best),
        ladder_view(final(levels)@) == settled(
            old(orders)@,
            ladder_view(old(levels)@),
            side,
            best,
        ),
{
    broadcast use vstd::std_specs::btree::group_btree_axioms;

    let ghost start = ladder_view(levels@);
    assert(start.dom() =~= levels@.dom());
    loop
        invariant
            orders@ == old(orders)@,
            start == ladder_view(old(levels)@),
            levels@.dom().finite(),
            forall|q: Price| #[trigger]
                ladder_view(levels@).contains_key(q) ==> start.contains_key(q) && ladder_view(
                    levels@,
                )[q] == start[q],
            forall|q: Price, r: Price|
                start.contains_key(q) && !ladder_view(levels@).contains_key(q) && ladder_view(
                    levels@,
                ).contains_key(r) ==> better(side, q, r),
            forall|q: Price|
                #![trigger start.contains_key(q)]
                start.contains_key(q) && !ladder_view(levels@).contains_key(q) ==> !has_live(
                    orders@,
                    start[q],
                ),
        decreases levels@.dom().len(),
    {
        let ghost ladder = ladder_view(levels@);
        proof {
            assert(ladder.dom() =~= levels@.dom());
        }
        let price = match first_price(levels, side) {
            None => {
                proof {
                    ladder.dom().lemma_len0_is_empty();
                    assert(ladder =~= Map::<Price, Seq<OrderId>>::empty());
                    assert(forall|q: Price| !ladder.contains_key(q));
                }
                return None;
            },
            Some(p) => p,
        };
        let ghost before_levels = levels@;
        let mut level = levels.remove(&price).unwrap();
        assert(level == before_levels[price]);
        assert(ladder[price] == level@);
        proof {
            pruned_is_tail(orders@, level@);
            before_levels.lemma_remove_key_len(price);
        }
        let front = level.prune(orders);
        if front.is_some() {
            levels.insert(price, level);
            proof {
                let found = ladder_view(levels@);
                assert(found =~= ladder.insert(price, pruned(orders@, start[price])));
                assert(found =~= settled(orders@, start, side, Some(price)));
            }
            return Some(price);
        }
        proof {
            assert(ladder_view(levels@) =~= ladder.remove(price));
        }
    }
}

} // verus!
