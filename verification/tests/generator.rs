use moldudp64::generator::orders::{
    GaussianOrderGenerator, OrderGenerator, PriceSource, QUANTITIES,
};
use moldudp64::generator::ring::ACTIVE_ORDER_BUFFER_SIZE;
use moldudp64::generator::router::{EventRouter, VectorStorageRouter};
use moldudp64::generator::source::{EventSource, PoissonSource, RateController, TypeSelector};
use moldudp64::lob::book::OrderBook;
use moldudp64::lob::order::{Order, OrderSide, OrderType};
use rand::SeedableRng;
use rand_chacha::ChaCha8Rng;
use rand_distr::{Distribution, Exp, Normal, Uniform};
use std::cell::RefCell;
use std::rc::Rc;

type SharedRng = Rc<RefCell<ChaCha8Rng>>;

struct GaussianPrices {
    dist: Normal<f64>,
    rng: SharedRng,
}

impl PriceSource for GaussianPrices {
    fn next_price(&mut self) -> u64 {
        (self.dist.sample(&mut *self.rng.borrow_mut()).abs() * 100.0) as u64
    }
}

struct ConstantPoissonRate {
    exp: Exp<f64>,
    rng: SharedRng,
}

impl RateController for ConstantPoissonRate {
    fn next_dt(&mut self) -> u64 {
        let dt_seconds = self.exp.sample(&mut *self.rng.borrow_mut());
        (dt_seconds * 1_000_000_000f64) as u64
    }
}

struct UniformTypeSelector {
    bid_proportion: f64,
    new_limit_cutoff: f64,
    new_market_cutoff: f64,
    cancel_cutoff: f64,
    side_dist: Uniform<f64>,
    type_dist: Uniform<f64>,
    rng: SharedRng,
}

impl UniformTypeSelector {
    fn new(bid: f64, limit: f64, market: f64, cancel: f64, update: f64, rng: SharedRng) -> Self {
        Self {
            bid_proportion: bid,
            new_limit_cutoff: limit,
            new_market_cutoff: limit + market,
            cancel_cutoff: limit + market + cancel,
            side_dist: Uniform::new_inclusive(0.0, 1.0).unwrap(),
            type_dist: Uniform::new_inclusive(0.0, limit + cancel + market + update).unwrap(),
            rng,
        }
    }
}

impl TypeSelector for UniformTypeSelector {
    fn sample(&mut self) -> (OrderSide, OrderType) {
        let rng = &mut *self.rng.borrow_mut();
        let side = if self.side_dist.sample(rng) <= self.bid_proportion {
            OrderSide::Bid
        } else {
            OrderSide::Ask
        };
        let sample = self.type_dist.sample(rng);
        if sample < self.new_limit_cutoff {
            (side, OrderType::Limit { qty: 0, price: 0 })
        } else if sample < self.new_market_cutoff {
            (side, OrderType::Market { qty: 0 })
        } else if sample < self.cancel_cutoff {
            (side, OrderType::Cancel)
        } else {
            (side, OrderType::Update { old_id: 0, qty: 0, price: 0 })
        }
    }
}

fn shared(seed: u64) -> SharedRng {
    Rc::new(RefCell::new(ChaCha8Rng::seed_from_u64(seed)))
}

fn gaussian_generator(mean: f64, deviation: f64, rng: SharedRng) -> GaussianOrderGenerator<GaussianPrices> {
    GaussianOrderGenerator::new(GaussianPrices { dist: Normal::new(mean, deviation).unwrap(), rng })
}

#[test]
fn orders_are_monotonic_in_time() {
    let rng = shared(0);
    let mut generator = PoissonSource::new(
        ConstantPoissonRate { exp: Exp::new(1_000_000.0).unwrap(), rng: rng.clone() },
        UniformTypeSelector::new(0.5, 0.4, 0.3, 0.2, 0.1, rng.clone()),
        gaussian_generator(15.0, 1.0, rng),
        VectorStorageRouter::new(),
    );
    for _ in 0..1_000_000 {
        generator.next_event();
    }
    assert!(generator
        .event_router()
        .events
        .windows(2)
        .all(|e| e[0].timestamp <= e[1].timestamp));
    assert_eq!(generator.event_router().events.len(), 1_000_000);
}

#[test]
fn test_no_panic() {
    let mut order_gen = gaussian_generator(50.0, 1.0, shared(0));
    for i in 0..1_000_000 {
        order_gen.generate(4 * i + 0, (OrderSide::Bid, OrderType::Limit { qty: 0, price: 0 }));
        order_gen.generate(4 * i + 1, (OrderSide::Ask, OrderType::Market { qty: 0 }));
        order_gen.generate(4 * i + 2, (OrderSide::Bid, OrderType::Cancel));
        order_gen.generate(
            4 * i + 3,
            (OrderSide::Ask, OrderType::Update { old_id: 0, qty: 0, price: 0 }),
        );
    }
}

struct FixedPrice(u64);

impl PriceSource for FixedPrice {
    fn next_price(&mut self) -> u64 {
        self.0
    }
}

#[test]
fn compose_makes_the_order_of_the_draws() {
    let mut g = GaussianOrderGenerator::new(FixedPrice(1));
    assert_eq!(g.order_counter(), 0);
    let last = ACTIVE_ORDER_BUFFER_SIZE - 1;
    let o = g.compose(10, (OrderSide::Bid, OrderType::Limit { qty: 0, price: 0 }), 4999, 2, 0);
    assert_eq!(o, Order::new(1, OrderSide::Bid, 10, OrderType::Limit { qty: 5, price: 4999 }));
    let o = g.compose(11, (OrderSide::Ask, OrderType::Market { qty: 0 }), 1, 4, 0);
    assert_eq!(o, Order::new(2, OrderSide::Ask, 11, OrderType::Market { qty: 20 }));
    let o = g.compose(12, (OrderSide::Ask, OrderType::Limit { qty: 9, price: 9 }), 5001, 0, 0);
    assert_eq!(o, Order::new(3, OrderSide::Ask, 12, OrderType::Limit { qty: 1, price: 5001 }));
    assert_eq!(g.get_active_order(OrderSide::Bid, last), 1);
    assert_eq!(g.get_active_order(OrderSide::Ask, last), 3);
    assert_eq!(g.get_active_order(OrderSide::Bid, last - 1), 0);
    assert_eq!(g.get_active_order(OrderSide::Bid, 0), 0);
    let o = g.compose(13, (OrderSide::Bid, OrderType::Cancel), 7, 1, last);
    assert_eq!(o, Order::new(1, OrderSide::Bid, 13, OrderType::Cancel));
    let o = g.compose(14, (OrderSide::Bid, OrderType::Cancel), 7, 1, 5);
    assert_eq!(o, Order::new(0, OrderSide::Bid, 14, OrderType::Cancel));
    let o = g.compose(
        15,
        (OrderSide::Ask, OrderType::Update { old_id: 0, qty: 0, price: 0 }),
        5100,
        3,
        last,
    );
    assert_eq!(
        o,
        Order::new(6, OrderSide::Ask, 15, OrderType::Update { old_id: 3, qty: 10, price: 5100 })
    );
    assert_eq!(g.order_counter(), 6);
    assert_eq!(g.get_active_order(OrderSide::Ask, last), 3);
}

#[test]
fn memory_drops_its_oldest_id() {
    let mut g = GaussianOrderGenerator::new(FixedPrice(1));
    let last = ACTIVE_ORDER_BUFFER_SIZE - 1;
    for i in 0..3u64 {
        g.compose(i, (OrderSide::Bid, OrderType::Limit { qty: 0, price: 0 }), 100, 0, 0);
    }
    assert_eq!(g.get_active_order(OrderSide::Bid, last), 3);
    assert_eq!(g.get_active_order(OrderSide::Bid, last - 1), 2);
    assert_eq!(g.get_active_order(OrderSide::Bid, last - 2), 1);
    assert_eq!(g.get_active_order(OrderSide::Bid, last - 3), 0);
    assert_eq!(g.get_active_order(OrderSide::Ask, last), 0);
}

#[test]
fn generated_orders_use_the_drawn_price_and_a_listed_quantity() {
    let mut g = GaussianOrderGenerator::new(FixedPrice(4242));
    let mut seen = [false; 5];
    for i in 0..2_000u64 {
        let o = g.generate(i, (OrderSide::Bid, OrderType::Limit { qty: 0, price: 0 }));
        assert_eq!(o.order_id, i + 1);
        assert_eq!(o.timestamp, i);
        assert_eq!(o.side, OrderSide::Bid);
        match o.kind {
            OrderType::Limit { qty, price } => {
                assert_eq!(price, 4242);
                let at = QUANTITIES.iter().position(|q| *q == qty).expect("a listed quantity");
                seen[at] = true;
            }
            other => panic!("not a limit order: {:?}", other),
        }
    }
    assert!(seen.iter().all(|s| *s));
    let mut targets = std::collections::HashSet::new();
    for i in 0..50u64 {
        let o = g.generate(i, (OrderSide::Bid, OrderType::Cancel));
        assert_eq!(o.kind, OrderType::Cancel);
        assert!(o.order_id <= 2_000);
        targets.insert(o.order_id);
        let o = g.generate(i, (OrderSide::Ask, OrderType::Update { old_id: 9, qty: 0, price: 0 }));
        match o.kind {
            OrderType::Update { old_id, qty, price } => {
                assert_eq!(old_id, 0);
                assert_eq!(price, 4242);
                assert!(QUANTITIES.contains(&qty));
            }
            other => panic!("not an update: {:?}", other),
        }
    }
    assert_eq!(g.order_counter(), 2_100);
    assert!(targets.len() <= 50);
}

struct Delays(Vec<u64>);

impl RateController for Delays {
    fn next_dt(&mut self) -> u64 {
        self.0.remove(0)
    }
}

struct Alternate(bool);

impl TypeSelector for Alternate {
    fn sample(&mut self) -> (OrderSide, OrderType) {
        self.0 = !self.0;
        if self.0 {
            (OrderSide::Bid, OrderType::Limit { qty: 0, price: 0 })
        } else {
            (OrderSide::Ask, OrderType::Market { qty: 0 })
        }
    }
}

#[test]
fn timestamps_are_the_running_sum_of_the_delays() {
    let mut source = PoissonSource::new(
        Delays(vec![5, 0, 7, u64::MAX, 3]),
        Alternate(false),
        GaussianOrderGenerator::new(FixedPrice(100)),
        VectorStorageRouter::new(),
    );
    for _ in 0..5 {
        source.next_event();
    }
    source.emit(9, (OrderSide::Ask, OrderType::Cancel));
    let router = source.into_router();
    let stamps: Vec<u64> = router.events.iter().map(|o| o.timestamp).collect();
    assert_eq!(stamps, vec![5, 5, 12, u64::MAX, u64::MAX, u64::MAX]);
    let sides: Vec<OrderSide> = router.events.iter().map(|o| o.side).collect();
    assert_eq!(
        sides,
        vec![
            OrderSide::Bid,
            OrderSide::Ask,
            OrderSide::Bid,
            OrderSide::Ask,
            OrderSide::Bid,
            OrderSide::Ask
        ]
    );
    let ids: Vec<u64> = router.events.iter().map(|o| o.order_id).collect();
    assert_eq!(ids[..5], [1, 2, 3, 4, 5]);
}

#[test]
fn router_keeps_arrival_order() {
    let mut router = VectorStorageRouter::new();
    assert!(router.events.is_empty());
    let a = Order::new(1, OrderSide::Bid, 3, OrderType::Cancel);
    let b = Order::new(2, OrderSide::Ask, 1, OrderType::Market { qty: 4 });
    router.route_event(a);
    router.route_event(b);
    assert_eq!(router.events, vec![a, b]);
}

#[test]
fn source_keeps_what_the_router_already_held() {
    let mut router = VectorStorageRouter::new();
    router.route_event(Order::new(9, OrderSide::Bid, 1_000, OrderType::Cancel));
    let mut source = PoissonSource::new(
        Delays(vec![1, 2]),
        Alternate(false),
        GaussianOrderGenerator::new(FixedPrice(100)),
        router,
    );
    source.next_event();
    source.next_event();
    let stamps: Vec<u64> = source.event_router().events.iter().map(|o| o.timestamp).collect();
    assert_eq!(stamps, vec![1_000, 1, 3]);
}

struct BookRouter {
    book: OrderBook,
    processed: u64,
    skipped: u64,
}

impl EventRouter for BookRouter {
    fn route_event(&mut self, order: Order) {
        if order.is_well_formed() {
            self.book.process_order(order);
            self.processed += 1;
        } else {
            self.skipped += 1;
        }
    }
}

#[test]
fn source_drives_a_book() {
    let rng = shared(7);
    let mut source = PoissonSource::new(
        ConstantPoissonRate { exp: Exp::new(1_000_000.0).unwrap(), rng: rng.clone() },
        UniformTypeSelector::new(0.5, 0.4, 0.3, 0.2, 0.1, rng.clone()),
        gaussian_generator(50.0, 1.0, rng),
        BookRouter { book: OrderBook::new(), processed: 0, skipped: 0 },
    );
    for _ in 0..20_000 {
        source.next_event();
    }
    let mut router = source.into_router();
    assert_eq!(router.processed + router.skipped, 20_000);
    assert!(router.processed > 19_000);
    let bid = router.book.best_bid();
    let ask = router.book.best_ask();
    if let (Some(b), Some(a)) = (bid, ask) {
        assert!(b < a);
    }
    let trades = router.book.take_trades();
    assert!(!trades.is_empty());
    assert!(trades.iter().all(|t| t.qty > 0 && t.price > 0));
    assert!(trades.windows(2).all(|t| t[0].timestamp <= t[1].timestamp));
}
