use moldudp64::lob::book::OrderBook;
use moldudp64::lob::level::PriceLevel;
use moldudp64::lob::order::{
    LimitOrder, Order, OrderSide, OrderStatus, OrderType, Trade,
};
use std::collections::HashMap;

fn limit(id: u64, side: OrderSide, price: u64, qty: u64) -> Order {
    Order::new(id, side, 1_000 + id, OrderType::Limit { qty, price })
}

fn market(id: u64, side: OrderSide, qty: u64) -> Order {
    Order::new(id, side, 1_000 + id, OrderType::Market { qty })
}

fn qty_of(book: &OrderBook, id: u64) -> u64 {
    book.order(id).expect("the book knows the order").qty
}

#[test]
fn bid_then_smaller_ask_at_the_same_price() {
    let mut book = OrderBook::new();
    book.process_order(limit(1, OrderSide::Bid, 100, 5));
    let rest = book.process_order(limit(2, OrderSide::Ask, 100, 3)).unwrap();
    assert_eq!(rest.qty, 0);
    assert_eq!(book.best_bid(), Some(100));
    assert_eq!(qty_of(&book, 1), 2);
    assert_eq!(book.best_ask(), None);
    assert_eq!(book.order(2), None);
    assert_eq!(
        book.trades().as_slice(),
        &[Trade { maker_id: 1, taker_id: 2, price: 100, qty: 3, timestamp: 1_002 }]
    );
}

#[test]
fn cancelled_bid_leaves_no_best_bid() {
    let mut book = OrderBook::new();
    book.process_order(limit(1, OrderSide::Bid, 100, 5));
    let cancelled = book.cancel_order(1).unwrap();
    assert_eq!(
        cancelled,
        LimitOrder {
            order_id: 1,
            side: OrderSide::Bid,
            status: OrderStatus::Canceled,
            qty: 5,
            price: 100
        }
    );
    assert_eq!(book.best_bid(), None);
    assert_eq!(book.order(1), Some(cancelled));
}

#[test]
fn earlier_ask_is_filled_first() {
    let mut book = OrderBook::new();
    book.process_order(limit(1, OrderSide::Ask, 100, 5));
    book.process_order(limit(2, OrderSide::Ask, 100, 5));
    let rest = book.process_order(limit(3, OrderSide::Bid, 100, 6)).unwrap();
    assert_eq!(rest.qty, 0);
    assert_eq!(qty_of(&book, 1), 0);
    assert_eq!(qty_of(&book, 2), 4);
    assert_eq!(book.best_ask(), Some(100));
    assert_eq!(book.best_bid(), None);
    assert_eq!(
        book.trades().as_slice(),
        &[
            Trade { maker_id: 1, taker_id: 3, price: 100, qty: 5, timestamp: 1_003 },
            Trade { maker_id: 2, taker_id: 3, price: 100, qty: 1, timestamp: 1_003 },
        ]
    );
}

#[test]
fn bid_sweeps_two_ask_levels() {
    let mut book = OrderBook::new();
    book.process_order(limit(1, OrderSide::Ask, 100, 5));
    book.process_order(limit(2, OrderSide::Ask, 105, 5));
    let rest = book.process_order(limit(3, OrderSide::Bid, 105, 8)).unwrap();
    assert_eq!(rest.qty, 0);
    assert_eq!(qty_of(&book, 1), 0);
    assert_eq!(qty_of(&book, 2), 2);
    assert_eq!(book.best_ask(), Some(105));
    assert_eq!(
        book.trades().as_slice(),
        &[
            Trade { maker_id: 1, taker_id: 3, price: 100, qty: 5, timestamp: 1_003 },
            Trade { maker_id: 2, taker_id: 3, price: 105, qty: 3, timestamp: 1_003 },
        ]
    );
}

#[test]
fn trades_print_at_the_resting_price() {
    let mut book = OrderBook::new();
    book.process_order(limit(1, OrderSide::Bid, 120, 4));
    let rest = book.process_order(limit(2, OrderSide::Ask, 100, 10)).unwrap();
    assert_eq!(rest.qty, 6);
    assert_eq!(rest.price, 100);
    assert_eq!(book.trades()[0].price, 120);
    assert_eq!(book.best_ask(), Some(100));
    assert_eq!(book.best_bid(), None);
    assert_eq!(qty_of(&book, 2), 6);
}

#[test]
fn limit_does_not_trade_beyond_its_price() {
    let mut book = OrderBook::new();
    book.process_order(limit(1, OrderSide::Ask, 101, 5));
    book.process_order(limit(2, OrderSide::Ask, 103, 5));
    let rest = book.process_order(limit(3, OrderSide::Bid, 102, 9)).unwrap();
    assert_eq!(rest.qty, 4);
    assert_eq!(qty_of(&book, 2), 5);
    assert_eq!(book.best_bid(), Some(102));
    assert_eq!(book.best_ask(), Some(103));
    let rest = book.process_order(limit(4, OrderSide::Ask, 103, 1)).unwrap();
    assert_eq!(rest.qty, 1);
    assert_eq!(book.trades().len(), 1);
}

#[test]
fn higher_bid_trades_before_lower_bid() {
    let mut book = OrderBook::new();
    book.process_order(limit(1, OrderSide::Bid, 100, 5));
    book.process_order(limit(2, OrderSide::Bid, 110, 5));
    book.process_order(limit(3, OrderSide::Bid, 105, 5));
    book.process_order(market(4, OrderSide::Ask, 11));
    let makers: Vec<(u64, u64, u64)> =
        book.trades().iter().map(|t| (t.maker_id, t.price, t.qty)).collect();
    assert_eq!(makers, vec![(2, 110, 5), (3, 105, 5), (1, 100, 1)]);
    assert_eq!(book.best_bid(), Some(100));
    assert_eq!(qty_of(&book, 1), 4);
}

#[test]
fn market_order_reports_what_was_not_filled() {
    let mut book = OrderBook::new();
    book.process_order(limit(1, OrderSide::Ask, 100, 5));
    book.process_order(limit(2, OrderSide::Ask, 150, 5));
    let rest = book.process_order(market(3, OrderSide::Bid, 15)).unwrap();
    assert_eq!(
        rest,
        LimitOrder {
            order_id: 3,
            side: OrderSide::Bid,
            status: OrderStatus::Active,
            qty: 5,
            price: 0
        }
    );
    assert_eq!(book.order(3), None);
    assert_eq!(book.best_bid(), None);
    let filled: u64 = book.trades().iter().map(|t| t.qty).sum();
    assert_eq!(filled, 10);
}

#[test]
fn executions_add_up_to_what_the_taker_lost() {
    let mut book = OrderBook::new();
    for i in 0..10u64 {
        book.process_order(limit(i + 1, OrderSide::Ask, 100 + i, 1 + i));
    }
    let before: Vec<u64> = (1..=10).map(|id| qty_of(&book, id)).collect();
    let rest = book.process_order(limit(99, OrderSide::Bid, 104, 12)).unwrap();
    let trades = book.take_trades();
    assert!(book.trades().is_empty());
    let filled: u64 = trades.iter().map(|t| t.qty).sum();
    assert_eq!(filled + rest.qty, 12);
    for t in &trades {
        let maker_before = before[(t.maker_id - 1) as usize];
        let maker_after = qty_of(&book, t.maker_id);
        assert!(t.qty <= maker_before);
        assert_eq!(maker_after, maker_before - t.qty);
        assert_eq!(t.taker_id, 99);
        assert!(t.price <= 104);
    }
    let makers: Vec<u64> = trades.iter().map(|t| t.maker_id).collect();
    assert_eq!(makers, vec![1, 2, 3, 4, 5]);
    assert_eq!(trades[4].qty, 2);
    assert_eq!(qty_of(&book, 5), 3);
}

#[test]
fn best_prices_move_only_as_allowed() {
    let mut book = OrderBook::new();
    book.process_order(limit(1, OrderSide::Bid, 100, 5));
    assert_eq!(book.best_bid(), Some(100));
    book.process_order(limit(2, OrderSide::Bid, 105, 5));
    assert_eq!(book.best_bid(), Some(105));
    book.process_order(limit(3, OrderSide::Bid, 103, 5));
    assert_eq!(book.best_bid(), Some(105));
    book.process_order(market(4, OrderSide::Ask, 2));
    assert_eq!(book.best_bid(), Some(105));
    book.process_order(market(5, OrderSide::Ask, 3));
    assert_eq!(book.best_bid(), Some(103));
    book.cancel_order(3);
    assert_eq!(book.best_bid(), Some(100));
    book.cancel_order(1);
    assert_eq!(book.best_bid(), None);

    book.process_order(limit(6, OrderSide::Ask, 200, 5));
    assert_eq!(book.best_ask(), Some(200));
    book.process_order(limit(7, OrderSide::Ask, 190, 5));
    assert_eq!(book.best_ask(), Some(190));
    book.cancel_order(7);
    assert_eq!(book.best_ask(), Some(200));
    book.process_order(market(8, OrderSide::Bid, 5));
    assert_eq!(book.best_ask(), None);
}

#[test]
fn asking_twice_gives_the_same_answer() {
    let mut book = OrderBook::new();
    for i in 0..5u64 {
        book.process_order(limit(i, OrderSide::Bid, 100 + i, 5));
    }
    book.cancel_order(4);
    book.cancel_order(3);
    assert_eq!(book.best_bid(), Some(102));
    assert_eq!(book.best_bid(), Some(102));
    assert_eq!(book.best_ask(), None);
    assert_eq!(book.best_bid(), Some(102));
}

#[test]
fn cancel_is_idempotent() {
    let mut book = OrderBook::new();
    book.process_order(limit(1, OrderSide::Bid, 100, 5));
    let first = book.cancel_order(1);
    let second = book.cancel_order(1);
    assert_eq!(first, second);
    assert_eq!(book.cancel_order(2), None);
    assert_eq!(book.best_bid(), None);
}

#[test]
fn cancelled_order_does_not_trade() {
    let mut book = OrderBook::new();
    book.process_order(limit(1, OrderSide::Ask, 100, 5));
    book.process_order(limit(2, OrderSide::Ask, 100, 5));
    book.cancel_order(1);
    let rest = book.process_order(limit(3, OrderSide::Bid, 100, 7)).unwrap();
    assert_eq!(rest.qty, 2);
    assert_eq!(
        book.trades().as_slice(),
        &[Trade { maker_id: 2, taker_id: 3, price: 100, qty: 5, timestamp: 1_003 }]
    );
    assert_eq!(qty_of(&book, 1), 5);
    assert_eq!(book.best_bid(), Some(100));
    assert_eq!(book.best_ask(), None);
}

#[test]
fn update_replaces_and_matches() {
    let mut book = OrderBook::new();
    book.process_order(limit(1, OrderSide::Bid, 100, 5));
    book.process_order(limit(2, OrderSide::Ask, 110, 4));
    let rest = book
        .process_order(Order::new(
            3,
            OrderSide::Bid,
            9,
            OrderType::Update { old_id: 1, qty: 6, price: 110 },
        ))
        .unwrap();
    assert_eq!(rest.order_id, 3);
    assert_eq!(rest.qty, 2);
    assert_eq!(book.order(1).unwrap().status, OrderStatus::Canceled);
    assert_eq!(book.best_bid(), Some(110));
    assert_eq!(book.best_ask(), None);
    assert_eq!(book.trades()[0].timestamp, 9);
    let none = book.process_order(Order::new(
        4,
        OrderSide::Bid,
        10,
        OrderType::Update { old_id: 77, qty: 6, price: 500 },
    ));
    assert_eq!(none, None);
    assert_eq!(book.order(4), None);
    assert_eq!(book.best_bid(), Some(110));
}

#[test]
fn match_order_and_market_order_report_the_rest() {
    let mut book = OrderBook::new();
    book.process_order(limit(1, OrderSide::Ask, 100, 5));
    let mut taker = LimitOrder::new(limit(2, OrderSide::Bid, 100, 8), 8, 100);
    book.match_order(&mut taker, 55);
    assert_eq!(taker.qty, 3);
    assert_eq!(book.order(2), None);
    assert_eq!(book.trades()[0].timestamp, 55);
    book.process_order(limit(3, OrderSide::Bid, 90, 5));
    let mut qty = 2;
    book.market_order(&mut qty, OrderSide::Ask, 4, 56);
    assert_eq!(qty, 0);
    assert_eq!(qty_of(&book, 3), 3);
    let rest = book.add_order(LimitOrder::new(limit(5, OrderSide::Ask, 90, 4), 4, 90), 57);
    assert_eq!(rest.qty, 1);
    assert_eq!(book.best_ask(), Some(90));
    let out = book.update_order(LimitOrder::new(limit(6, OrderSide::Ask, 95, 4), 4, 95), 5, 58);
    assert_eq!(out.unwrap().qty, 4);
    assert_eq!(book.best_ask(), Some(95));
}

#[test]
fn order_helpers() {
    let o = limit(1, OrderSide::Bid, 100, 5);
    assert_eq!(o.order_id, 1);
    assert_eq!(o.timestamp, 1_001);
    assert!(o.is_well_formed());
    assert!(!limit(1, OrderSide::Bid, 0, 5).is_well_formed());
    assert!(!limit(1, OrderSide::Bid, 100, 0).is_well_formed());
    assert!(!market(1, OrderSide::Bid, 0).is_well_formed());
    assert!(Order::new(1, OrderSide::Ask, 0, OrderType::Cancel).is_well_formed());
    assert!(!Order::new(1, OrderSide::Ask, 0, OrderType::Update { old_id: 0, qty: 0, price: 1 })
        .is_well_formed());
    assert_eq!(OrderSide::Bid.opposite(), OrderSide::Ask);
    assert_eq!(OrderSide::Ask.opposite(), OrderSide::Bid);
    let resting = LimitOrder::new(o, 5, 100);
    assert!(resting.is_live());
    assert!(!LimitOrder { qty: 0, ..resting }.is_live());
    assert!(!LimitOrder { status: OrderStatus::Canceled, ..resting }.is_live());
}

fn resting(id: u64, qty: u64, status: OrderStatus) -> LimitOrder {
    LimitOrder { order_id: id, side: OrderSide::Bid, status, qty, price: 100 }
}

#[test]
fn price_level_prunes_from_the_front() {
    let mut orders: HashMap<u64, LimitOrder> = HashMap::new();
    orders.insert(1, resting(1, 5, OrderStatus::Canceled));
    orders.insert(2, resting(2, 0, OrderStatus::Active));
    orders.insert(3, resting(3, 7, OrderStatus::Active));
    orders.insert(4, resting(4, 9, OrderStatus::Canceled));
    orders.insert(5, resting(5, 2, OrderStatus::Active));
    let mut level = PriceLevel::new();
    assert!(level.is_empty());
    assert_eq!(level.front(), None);
    assert_eq!(level.prune(&mut orders), None);
    for id in [1u64, 2, 42, 3, 4, 5] {
        level.push(&resting(id, 1, OrderStatus::Active));
    }
    assert_eq!(level.front(), Some(1));
    assert_eq!(level.total_qty(&orders), 9);
    assert_eq!(level.prune(&mut orders), Some(3));
    assert_eq!(level.front(), Some(3));
    assert_eq!(level.orders.len(), 3);
    assert_eq!(level.total_qty(&orders), 9);
    assert_eq!(level.pop_front(), Some(3));
    assert_eq!(level.prune(&mut orders), Some(5));
    assert_eq!(level.pop_front(), Some(5));
    assert_eq!(level.pop_front(), None);
    assert_eq!(level.total_qty(&orders), 0);
    assert_eq!(orders.len(), 5);
}

#[test]
fn total_qty_does_not_overflow() {
    let mut orders: HashMap<u64, LimitOrder> = HashMap::new();
    orders.insert(1, resting(1, u64::MAX, OrderStatus::Active));
    orders.insert(2, resting(2, u64::MAX, OrderStatus::Active));
    let mut level = PriceLevel::new();
    level.push(&resting(1, 1, OrderStatus::Active));
    level.push(&resting(2, 1, OrderStatus::Active));
    level.push(&resting(1, 1, OrderStatus::Active));
    assert_eq!(level.total_qty(&orders), 3 * (u64::MAX as u128));
}
