use moldudp64::lob::book::OrderBook;
use moldudp64::lob::order::{Order, OrderSide, OrderType};

#[test]
fn empty_book_has_no_best_prices() {
    let mut book = OrderBook::new();
    assert!(book.best_bid().is_none());
    assert!(book.best_ask().is_none());
}

#[test]
fn add_bid_without_crossing() {
    let mut book = OrderBook::new();
    book.process_order(Order::new(0, OrderSide::Bid, 1, OrderType::Limit { qty: 1, price: 100 }));
    book.process_order(Order::new(0, OrderSide::Ask, 1, OrderType::Limit { qty: 1, price: 200 }));
    assert_eq!(book.best_bid(), Some(100));
    assert_eq!(book.best_ask(), Some(200));
}

#[test]
fn cancel_removes_order() {
    let mut book = OrderBook::new();

    book.process_order(Order::new(0, OrderSide::Bid, 1, OrderType::Limit { qty: 5, price: 100 }));
    assert!(book
        .process_order(Order::new(0, OrderSide::Bid, 1, OrderType::Cancel))
        .is_some());
    assert!(book.best_bid().is_none());
}

#[test]
fn pruning_multiple_price_levels() {
    let mut book = OrderBook::new();

    for i in 0..=2 {
        book.process_order(Order::new(
            i,
            OrderSide::Bid,
            i,
            OrderType::Limit { qty: 5, price: 100 + 5 * i },
        ));
    }
    assert_eq!(book.best_bid(), Some(110));
    assert!(book.cancel_order(1).is_some());
    assert!(book.cancel_order(2).is_some());
    assert_eq!(book.best_bid(), Some(100));
}

#[test]
fn cancel_nonexistent_returns_none() {
    let mut book = OrderBook::new();
    assert!(book
        .process_order(Order::new(0, OrderSide::Bid, 1, OrderType::Cancel))
        .is_none());
}

#[test]
fn update_order_updates_order() {
    let mut book = OrderBook::new();
    book.process_order(Order::new(0, OrderSide::Bid, 1, OrderType::Limit { qty: 5, price: 100 }));
    assert_eq!(book.best_bid(), Some(100));
    book.process_order(Order::new(
        1,
        OrderSide::Bid,
        1,
        OrderType::Update { old_id: 0, qty: 5, price: 500 },
    ));
    assert_eq!(book.best_bid(), Some(500));
}

#[test]
fn update_nonexistent_order_has_no_effect() {
    let mut book = OrderBook::new();
    book.process_order(Order::new(0, OrderSide::Bid, 1, OrderType::Limit { qty: 5, price: 100 }));
    assert_eq!(book.best_bid(), Some(100));
    book.process_order(Order::new(
        1,
        OrderSide::Bid,
        1,
        OrderType::Update { old_id: 1, qty: 5, price: 500 },
    ));
    assert_eq!(book.best_bid(), Some(100));
}

#[test]
fn best_bid_is_highest_price() {
    let mut book = OrderBook::new();

    for i in 0..=2 {
        book.process_order(Order::new(
            i,
            OrderSide::Bid,
            i,
            OrderType::Limit { qty: 5, price: 100 + 5 * i },
        ));
    }
    assert_eq!(book.best_bid(), Some(110));
}

#[test]
fn many_orders_do_not_panic() {
    let mut book = OrderBook::new();

    for i in 0..1_000_000 {
        book.process_order(Order::new(
            i,
            OrderSide::Bid,
            i,
            OrderType::Limit { qty: 10, price: 100 + (i % 10) },
        ));
    }

    assert!(book.best_bid().is_some());
}

#[test]
fn fifo_within_price_level() {
    let mut book = OrderBook::new();

    for i in 0..2 {
        book.process_order(Order::new(i, OrderSide::Ask, i, OrderType::Limit { qty: 5, price: 100 }));
    }

    book.process_order(Order::new(2, OrderSide::Bid, 2, OrderType::Limit { qty: 6, price: 100 }));

    assert_eq!(book.best_bid(), None);
    assert_eq!(book.best_ask(), Some(100));
}

#[test]
fn simple_full_match() {
    let mut book = OrderBook::new();

    book.process_order(Order::new(0, OrderSide::Bid, 0, OrderType::Limit { qty: 5, price: 100 }));
    book.process_order(Order::new(1, OrderSide::Ask, 1, OrderType::Limit { qty: 5, price: 100 }));

    assert!(book.best_bid().is_none());
    assert!(book.best_ask().is_none());
}

#[test]
fn partial_match_leaves_resting_qty() {
    let mut book = OrderBook::new();

    book.process_order(Order::new(0, OrderSide::Bid, 0, OrderType::Limit { qty: 5, price: 100 }));
    book.process_order(Order::new(1, OrderSide::Ask, 1, OrderType::Limit { qty: 6, price: 100 }));

    assert_eq!(book.best_ask(), Some(100));
}

#[test]
fn multi_level_sweep() {
    let mut book = OrderBook::new();

    book.process_order(Order::new(0, OrderSide::Ask, 0, OrderType::Limit { qty: 5, price: 100 }));
    book.process_order(Order::new(1, OrderSide::Ask, 1, OrderType::Limit { qty: 5, price: 105 }));
    book.process_order(Order::new(2, OrderSide::Bid, 2, OrderType::Limit { qty: 6, price: 105 }));

    assert_eq!(book.best_ask(), Some(105));
}

#[test]
fn market_order_single_level() {
    let mut book = OrderBook::new();

    book.process_order(Order::new(0, OrderSide::Ask, 0, OrderType::Limit { qty: 5, price: 100 }));
    assert_eq!(book.best_ask(), Some(100));
    book.process_order(Order::new(0, OrderSide::Bid, 0, OrderType::Market { qty: 5 }));
    assert!(book.best_ask().is_none());
}

#[test]
fn market_order_multi_level() {
    let mut book = OrderBook::new();

    book.process_order(Order::new(0, OrderSide::Ask, 0, OrderType::Limit { qty: 5, price: 100 }));
    book.process_order(Order::new(0, OrderSide::Ask, 0, OrderType::Limit { qty: 5, price: 150 }));
    assert_eq!(book.best_ask(), Some(100));
    book.process_order(Order::new(0, OrderSide::Bid, 0, OrderType::Market { qty: 10 }));
    assert!(book.best_ask().is_none());
}

#[test]
fn market_order_partial_fill() {
    let mut book = OrderBook::new();

    book.process_order(Order::new(0, OrderSide::Ask, 0, OrderType::Limit { qty: 5, price: 100 }));
    book.process_order(Order::new(0, OrderSide::Ask, 0, OrderType::Limit { qty: 5, price: 150 }));
    assert_eq!(book.best_ask(), Some(100));
    book.process_order(Order::new(0, OrderSide::Bid, 0, OrderType::Market { qty: 15 }));
    assert!(book.best_ask().is_none());
}

#[test]
fn market_order_no_fill() {
    let mut book = OrderBook::new();

    book.process_order(Order::new(0, OrderSide::Bid, 0, OrderType::Market { qty: 15 }));
    assert!(book.best_ask().is_none());
}
