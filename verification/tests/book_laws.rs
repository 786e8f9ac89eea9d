use std::collections::BTreeMap;

use unified_order_book::errors::OrderBookError;
use unified_order_book::model::LevelEntry;
use unified_order_book::order_book::{SideOrderBook, WorkerAction, WorkerEvent};
use unified_order_book::sweep::Quote;
use unified_order_book::types::{Exchanges, OBOrder, OrderRequest, OrderSide, Symbol};

const VENUES: [Exchanges; 3] = [Exchanges::Alpaca, Exchanges::Kraken, Exchanges::Bybit];

fn update(venue: Exchanges, side: OrderSide, price: u64, volume: u64) -> OBOrder {
    OBOrder::new(venue, side, volume, price)
}

fn entry(exchange: Exchanges, volume: u64) -> LevelEntry {
    LevelEntry { exchange, volume }
}

fn request(side: OrderSide, volume: u64) -> OrderRequest {
    OrderRequest { symbol: Symbol::ETH, side, volume }
}

/// Everything that can be observed of a book: its prices with their queues.
fn contents(book: &SideOrderBook) -> Vec<(u64, Vec<LevelEntry>)> {
    book.prices().into_iter().map(|p| (p, book.queue_at(p))).collect()
}

fn assert_invariants(book: &SideOrderBook) {
    let prices = book.prices();
    assert_eq!(prices.len(), book.level_count());
    for pair in prices.windows(2) {
        assert!(pair[0] < pair[1]);
    }
    for p in prices {
        let queue = book.queue_at(p);
        assert!(!queue.is_empty());
        for (i, e) in queue.iter().enumerate() {
            assert!(e.volume > 0);
            for other in &queue[i + 1..] {
                assert_ne!(e.exchange, other.exchange);
            }
        }
    }
}

/// A small deterministic generator, so that the streams below are the same
/// on every run.
struct Lcg(u64);

impl Lcg {
    fn next(&mut self) -> u64 {
        self.0 = self.0.wrapping_mul(6364136223846793005).wrapping_add(1442695040888963407);
        self.0 >> 33
    }
}

#[test]
fn new_book_is_empty_and_active() {
    let buy = SideOrderBook::new(true);
    assert_eq!(buy.get_side(), OrderSide::Buy);
    assert!(buy.active());
    assert_eq!(buy.level_count(), 0);
    assert_eq!(buy.best_price(), None);
    assert!(buy.prices().is_empty());
    assert!(buy.queue_at(100).is_empty());
    let sell = SideOrderBook::new(false);
    assert_eq!(sell.get_side(), OrderSide::Sell);
}

#[test]
fn first_update_creates_the_level() {
    let mut book = SideOrderBook::new(false);
    book.process_order(update(Exchanges::Kraken, OrderSide::Sell, 2_000, 7));
    assert_eq!(contents(&book), vec![(2_000, vec![entry(Exchanges::Kraken, 7)])]);
}

#[test]
fn later_venue_joins_the_end_of_the_queue() {
    let mut book = SideOrderBook::new(false);
    book.process_order(update(Exchanges::Kraken, OrderSide::Sell, 2_000, 7));
    book.process_order(update(Exchanges::Alpaca, OrderSide::Sell, 2_000, 3));
    book.process_order(update(Exchanges::Bybit, OrderSide::Sell, 2_000, 9));
    assert_eq!(
        book.queue_at(2_000),
        vec![entry(Exchanges::Kraken, 7), entry(Exchanges::Alpaca, 3), entry(Exchanges::Bybit, 9)]
    );
    assert_eq!(book.level_count(), 1);
}

#[test]
fn replacement_keeps_the_place_in_the_queue() {
    let mut book = SideOrderBook::new(false);
    book.process_order(update(Exchanges::Kraken, OrderSide::Sell, 2_000, 7));
    book.process_order(update(Exchanges::Alpaca, OrderSide::Sell, 2_000, 3));
    book.process_order(update(Exchanges::Kraken, OrderSide::Sell, 2_000, 1));
    assert_eq!(
        book.queue_at(2_000),
        vec![entry(Exchanges::Kraken, 1), entry(Exchanges::Alpaca, 3)]
    );
}

#[test]
fn zero_volume_removes_only_that_venue() {
    let mut book = SideOrderBook::new(true);
    book.process_order(update(Exchanges::Kraken, OrderSide::Buy, 500, 7));
    book.process_order(update(Exchanges::Alpaca, OrderSide::Buy, 500, 3));
    book.process_order(update(Exchanges::Bybit, OrderSide::Buy, 500, 4));
    book.process_order(update(Exchanges::Alpaca, OrderSide::Buy, 500, 0));
    assert_eq!(book.queue_at(500), vec![entry(Exchanges::Kraken, 7), entry(Exchanges::Bybit, 4)]);
    assert!(book.queue_at(500).iter().all(|e| e.exchange != Exchanges::Alpaca));
}

#[test]
fn removing_the_last_entry_removes_the_level() {
    let mut book = SideOrderBook::new(true);
    book.process_order(update(Exchanges::Kraken, OrderSide::Buy, 500, 7));
    book.process_order(update(Exchanges::Kraken, OrderSide::Buy, 600, 2));
    book.process_order(update(Exchanges::Kraken, OrderSide::Buy, 500, 0));
    assert_eq!(book.prices(), vec![600]);
    assert_eq!(book.level_count(), 1);
    assert!(book.queue_at(500).is_empty());
}

#[test]
fn zero_volume_for_an_absent_entry_changes_nothing() {
    let mut book = SideOrderBook::new(true);
    book.process_order(update(Exchanges::Kraken, OrderSide::Buy, 500, 0));
    assert_eq!(book.level_count(), 0);
    book.process_order(update(Exchanges::Kraken, OrderSide::Buy, 500, 7));
    let before = contents(&book);
    book.process_order(update(Exchanges::Alpaca, OrderSide::Buy, 500, 0));
    book.process_order(update(Exchanges::Alpaca, OrderSide::Buy, 400, 0));
    assert_eq!(contents(&book), before);
}

#[test]
fn same_update_twice_is_the_same_as_once() {
    let stream = [
        update(Exchanges::Kraken, OrderSide::Buy, 500, 7),
        update(Exchanges::Alpaca, OrderSide::Buy, 500, 3),
        update(Exchanges::Kraken, OrderSide::Buy, 510, 1),
    ];
    let repeats = [
        update(Exchanges::Alpaca, OrderSide::Buy, 500, 9),
        update(Exchanges::Bybit, OrderSide::Buy, 500, 9),
        update(Exchanges::Bybit, OrderSide::Buy, 520, 9),
        update(Exchanges::Kraken, OrderSide::Buy, 510, 0),
        update(Exchanges::Bybit, OrderSide::Buy, 510, 0),
    ];
    for repeated in repeats {
        let mut once = SideOrderBook::new(true);
        let mut twice = SideOrderBook::new(true);
        for u in stream {
            once.process_order(u);
            twice.process_order(u);
        }
        once.process_order(repeated);
        twice.process_order(repeated);
        twice.process_order(repeated);
        assert_eq!(contents(&once), contents(&twice));
    }
}

#[test]
fn levels_are_kept_in_ascending_price() {
    let mut book = SideOrderBook::new(false);
    for price in [700u64, 100, 400, 900, 300, 800, 200, 600, 500] {
        book.process_order(update(Exchanges::Bybit, OrderSide::Sell, price, price));
    }
    assert_eq!(book.prices(), vec![100, 200, 300, 400, 500, 600, 700, 800, 900]);
    assert_eq!(book.best_price(), Some(100));
    let mut bids = SideOrderBook::new(true);
    for price in [700u64, 100, 400] {
        bids.process_order(update(Exchanges::Bybit, OrderSide::Buy, price, price));
    }
    assert_eq!(bids.best_price(), Some(700));
}

#[test]
fn extreme_prices_and_volumes_are_stored() {
    let mut book = SideOrderBook::new(false);
    book.process_order(update(Exchanges::Bybit, OrderSide::Sell, u64::MAX, u64::MAX));
    book.process_order(update(Exchanges::Kraken, OrderSide::Sell, 0, u64::MAX));
    assert_eq!(book.prices(), vec![0, u64::MAX]);
    let fill = book.sweep(u64::MAX);
    assert_eq!(fill.total_volume, u64::MAX);
    assert_eq!(fill.kraken_volume, u64::MAX);
    assert_eq!(fill.bybit_volume, 0);
    assert_eq!(fill.weighted_price_sum, 0);
    book.process_order(update(Exchanges::Kraken, OrderSide::Sell, 0, 0));
    let fill = book.sweep(u64::MAX);
    assert_eq!(fill.total_volume, u64::MAX);
    assert_eq!(fill.bybit_volume, u64::MAX);
    assert_eq!(fill.weighted_price_sum, (u64::MAX as u128) * (u64::MAX as u128));
    let answer = book.get_best_quote(request(OrderSide::Sell, u64::MAX)).unwrap();
    assert_eq!(answer.vwap, u64::MAX);
}

#[test]
fn sweep_conserves_volume_across_venues() {
    let mut book = SideOrderBook::new(false);
    let mut rng = Lcg(7);
    for _ in 0..500 {
        let venue = VENUES[(rng.next() % 3) as usize];
        book.process_order(update(venue, OrderSide::Sell, 1_000 + rng.next() % 40, rng.next() % 50));
    }
    for target in [0u64, 1, 17, 250, 1_000, 5_000, 1_000_000] {
        let fill = book.sweep(target);
        assert_eq!(fill.alpaca_volume + fill.kraken_volume + fill.bybit_volume, fill.total_volume);
        assert!(fill.total_volume <= target);
    }
}

#[test]
fn doubling_the_target_never_fills_less() {
    let mut book = SideOrderBook::new(true);
    let mut rng = Lcg(11);
    for _ in 0..300 {
        let venue = VENUES[(rng.next() % 3) as usize];
        book.process_order(update(venue, OrderSide::Buy, 1_000 + rng.next() % 25, rng.next() % 30));
    }
    let all = book.sweep(u64::MAX).total_volume;
    for target in [0u64, 1, 2, 3, 64, 500, 2_000, 1 << 40] {
        let once = book.sweep(target).total_volume;
        let doubled = book.sweep(2 * target).total_volume;
        assert!(once <= doubled);
        assert_eq!(once, target.min(all));
    }
}

#[test]
fn average_price_lies_between_best_and_worst_consumed() {
    let mut bids = SideOrderBook::new(true);
    let mut asks = SideOrderBook::new(false);
    for (i, price) in [1_050u64, 1_040, 1_030, 1_020].into_iter().enumerate() {
        bids.process_order(update(VENUES[i % 3], OrderSide::Buy, price, 10));
        asks.process_order(update(VENUES[i % 3], OrderSide::Sell, price + 100, 10));
    }
    // 25 units reach into the third level on either side.
    let bid = bids.get_best_quote(request(OrderSide::Buy, 25)).unwrap();
    assert_eq!(bid.vwap, (1_050 * 10 + 1_040 * 10 + 1_030 * 5) / 25);
    assert!(1_030 <= bid.vwap && bid.vwap <= 1_050);
    let ask = asks.get_best_quote(request(OrderSide::Sell, 25)).unwrap();
    assert_eq!(ask.vwap, (1_120 * 10 + 1_130 * 10 + 1_140 * 5) / 25);
    assert!(1_120 <= ask.vwap && ask.vwap <= 1_140);
}

#[test]
fn average_price_is_rounded_down() {
    let mut asks = SideOrderBook::new(false);
    asks.process_order(update(Exchanges::Alpaca, OrderSide::Sell, 10, 1));
    asks.process_order(update(Exchanges::Alpaca, OrderSide::Sell, 11, 2));
    let answer = asks.get_best_quote(request(OrderSide::Sell, 3)).unwrap();
    // (10 + 22) / 3 = 10.66..
    assert_eq!(answer.vwap, 10);
    assert_eq!(asks.sweep(3).weighted_price_sum, 32);
}

#[test]
fn sweep_and_quote_leave_the_book_unchanged() {
    let mut book = SideOrderBook::new(true);
    for (i, price) in [1_050u64, 1_040, 1_030].into_iter().enumerate() {
        book.process_order(update(VENUES[i], OrderSide::Buy, price, 10));
        book.process_order(update(VENUES[(i + 1) % 3], OrderSide::Buy, price, 4));
    }
    let before = contents(&book);
    let first = book.sweep(33);
    let _ = book.get_best_quote(request(OrderSide::Buy, 33));
    let _ = book.get_best_quote(request(OrderSide::Buy, 1_000));
    let action = book.handle(WorkerEvent::Query(request(OrderSide::Buy, 12)));
    assert!(matches!(action, WorkerAction::Reply(Ok(_))));
    assert_eq!(contents(&book), before);
    assert_eq!(book.sweep(33), first);
}

#[test]
fn quote_on_an_empty_book_is_insufficient() {
    let book = SideOrderBook::new(true);
    assert_eq!(
        book.get_best_quote(request(OrderSide::Buy, 1)),
        Err(OrderBookError::InsufficientVolume("Not enough volume available".to_string()))
    );
    assert_eq!(book.sweep(1).total_volume, 0);
}

#[test]
fn quote_for_zero_volume_is_insufficient() {
    let mut book = SideOrderBook::new(true);
    book.process_order(update(Exchanges::Alpaca, OrderSide::Buy, 10, 5));
    assert!(matches!(
        book.get_best_quote(request(OrderSide::Buy, 0)),
        Err(OrderBookError::InsufficientVolume(_))
    ));
}

#[test]
fn quote_for_exactly_what_is_on_offer_succeeds() {
    let mut book = SideOrderBook::new(true);
    book.process_order(update(Exchanges::Alpaca, OrderSide::Buy, 10, 5));
    book.process_order(update(Exchanges::Kraken, OrderSide::Buy, 9, 5));
    let answer = book.get_best_quote(request(OrderSide::Buy, 10)).unwrap();
    assert_eq!(answer.total_volume, 10);
    assert_eq!(answer.symbol, Symbol::ETH);
    assert!(book.get_best_quote(request(OrderSide::Buy, 11)).is_err());
}

#[test]
fn drained_book_answers_inactive() {
    let mut book = SideOrderBook::new(true);
    book.process_order(update(Exchanges::Alpaca, OrderSide::Buy, 10, 5));
    book.deactivate();
    assert!(!book.active());
    assert_eq!(
        book.get_best_quote(request(OrderSide::Buy, 1)),
        Err(OrderBookError::InactiveOrderBook)
    );
    assert_eq!(book.queue_at(10), vec![entry(Exchanges::Alpaca, 5)]);
}

#[test]
fn worker_applies_updates_answers_queries_and_winds_down() {
    let mut worker = SideOrderBook::new(false);
    let a = worker.handle(WorkerEvent::Update(update(Exchanges::Bybit, OrderSide::Sell, 77, 4)));
    assert_eq!(a, WorkerAction::Continue);
    assert_eq!(worker.queue_at(77), vec![entry(Exchanges::Bybit, 4)]);
    match worker.handle(WorkerEvent::Query(request(OrderSide::Sell, 3))) {
        WorkerAction::Reply(Ok(answer)) => {
            assert_eq!(answer.total_volume, 3);
            assert_eq!(answer.bybit_volume, 3);
            assert_eq!(answer.vwap, 77);
            assert_eq!(answer.side, OrderSide::Sell);
        }
        other => panic!("unexpected action {:?}", other),
    }
    match worker.handle(WorkerEvent::Query(request(OrderSide::Sell, 5))) {
        WorkerAction::Reply(Err(OrderBookError::InsufficientVolume(_))) => {}
        other => panic!("unexpected action {:?}", other),
    }
    assert_eq!(worker.handle(WorkerEvent::Closed), WorkerAction::Exit);
    assert!(!worker.active());
    let before = contents(&worker);
    let late = worker.handle(WorkerEvent::Update(update(Exchanges::Bybit, OrderSide::Sell, 78, 4)));
    assert_eq!(late, WorkerAction::Exit);
    assert_eq!(worker.handle(WorkerEvent::Query(request(OrderSide::Sell, 1))), WorkerAction::Exit);
    assert_eq!(contents(&worker), before);
}

/// The stream of one producer: it alone writes the prices that leave its
/// number as remainder, so no two producers touch the same level.
fn producer_stream(producer: u64, len: usize) -> Vec<OBOrder> {
    let mut rng = Lcg(1_000 + producer);
    (0..len)
        .map(|_| {
            let side = if rng.next() % 2 == 0 { OrderSide::Buy } else { OrderSide::Sell };
            let price = 95_000 + 10 * (rng.next() % 100) + producer;
            let volume = if rng.next() % 8 == 0 { 0 } else { 100 + rng.next() % 9_901 };
            update(VENUES[(producer % 3) as usize], side, price, volume)
        })
        .collect()
}

fn run_streams(streams: &[Vec<OBOrder>], order: &[usize]) -> (SideOrderBook, SideOrderBook) {
    let mut buy = SideOrderBook::new(true);
    let mut sell = SideOrderBook::new(false);
    let mut next = vec![0usize; streams.len()];
    let mut remaining: usize = streams.iter().map(|s| s.len()).sum();
    let mut turn = 0usize;
    while remaining > 0 {
        let p = order[turn % order.len()];
        turn += 1;
        if next[p] < streams[p].len() {
            let u = streams[p][next[p]];
            next[p] += 1;
            remaining -= 1;
            match u.side {
                OrderSide::Buy => buy.process_order(u),
                OrderSide::Sell => sell.process_order(u),
            }
        }
    }
    (buy, sell)
}

#[test]
fn fan_in_of_ten_producers_keeps_the_invariants() {
    let streams: Vec<Vec<OBOrder>> = (0..10).map(|p| producer_stream(p, 10_000)).collect();
    let round_robin: Vec<usize> = (0..10).collect();
    let skewed: Vec<usize> = vec![9, 9, 9, 3, 0, 7, 7, 1, 5, 2, 8, 4, 6, 6, 0];
    let (buy, sell) = run_streams(&streams, &round_robin);
    let (buy2, sell2) = run_streams(&streams, &skewed);
    assert_invariants(&buy);
    assert_invariants(&sell);
    assert_eq!(contents(&buy), contents(&buy2));
    assert_eq!(contents(&sell), contents(&sell2));

    // What each producer left at each level, computed apart from the book.
    let mut expected: BTreeMap<u64, LevelEntry> = BTreeMap::new();
    for stream in &streams {
        for u in stream.iter().filter(|u| u.side == OrderSide::Buy) {
            if u.volume == 0 {
                expected.remove(&u.price);
            } else {
                expected.insert(u.price, entry(u.exchange, u.volume));
            }
        }
    }
    let expected: Vec<(u64, Vec<LevelEntry>)> =
        expected.into_iter().map(|(p, e)| (p, vec![e])).collect();
    assert_eq!(contents(&buy), expected);

    let target = 250_000u64;
    let answer = buy.get_best_quote(request(OrderSide::Buy, target)).unwrap();
    assert_eq!(answer, buy2.get_best_quote(request(OrderSide::Buy, target)).unwrap());
    let mut left = target;
    let mut cost = 0u128;
    let mut by_venue = [0u64; 3];
    for (price, queue) in expected.iter().rev() {
        for e in queue {
            let take = e.volume.min(left);
            left -= take;
            cost += (*price as u128) * (take as u128);
            by_venue[VENUES.iter().position(|v| *v == e.exchange).unwrap()] += take;
        }
    }
    assert_eq!(left, 0);
    assert_eq!(answer.total_volume, target);
    assert_eq!(answer.alpaca_volume, by_venue[0]);
    assert_eq!(answer.kraken_volume, by_venue[1]);
    assert_eq!(answer.bybit_volume, by_venue[2]);
    assert_eq!(answer.vwap as u128, cost / target as u128);
}

#[test]
fn random_stream_matches_a_plain_map_of_queues() {
    let mut book = SideOrderBook::new(false);
    let mut model: BTreeMap<u64, Vec<LevelEntry>> = BTreeMap::new();
    let mut rng = Lcg(99);
    for step in 0..5_000 {
        let venue = VENUES[(rng.next() % 3) as usize];
        let price = 10 + rng.next() % 12;
        let volume = if rng.next() % 3 == 0 { 0 } else { 1 + rng.next() % 20 };
        book.process_order(update(venue, OrderSide::Sell, price, volume));
        let queue = model.entry(price).or_default();
        match queue.iter().position(|e| e.exchange == venue) {
            Some(i) if volume == 0 => {
                queue.remove(i);
            }
            Some(i) => queue[i].volume = volume,
            None if volume != 0 => queue.push(entry(venue, volume)),
            None => {}
        }
        if queue.is_empty() {
            model.remove(&price);
        }
        if step % 97 == 0 {
            let expected: Vec<(u64, Vec<LevelEntry>)> =
                model.iter().map(|(p, q)| (*p, q.clone())).collect();
            assert_eq!(contents(&book), expected);
            assert_invariants(&book);
        }
    }
}

#[test]
fn entries_come_in_sweep_order() {
    let quotes = [
        (Exchanges::Alpaca, 10u64, 1u64),
        (Exchanges::Kraken, 12, 2),
        (Exchanges::Bybit, 10, 3),
        (Exchanges::Kraken, 11, 4),
    ];
    let mut bids = SideOrderBook::new(true);
    let mut asks = SideOrderBook::new(false);
    for (venue, price, volume) in quotes {
        bids.process_order(update(venue, OrderSide::Buy, price, volume));
        asks.process_order(update(venue, OrderSide::Sell, price, volume));
    }
    let quote = |exchange, price, volume| Quote { price, exchange, volume };
    assert_eq!(
        bids.entries(),
        vec![
            quote(Exchanges::Kraken, 12, 2),
            quote(Exchanges::Kraken, 11, 4),
            quote(Exchanges::Alpaca, 10, 1),
            quote(Exchanges::Bybit, 10, 3),
        ]
    );
    assert_eq!(
        asks.entries(),
        vec![
            quote(Exchanges::Alpaca, 10, 1),
            quote(Exchanges::Bybit, 10, 3),
            quote(Exchanges::Kraken, 11, 4),
            quote(Exchanges::Kraken, 12, 2),
        ]
    );
    assert!(SideOrderBook::new(true).entries().is_empty());
}

#[test]
fn benchmark_process_1m_orders_from_10_tasks() {
    let total_orders = 1_000_000usize;
    let num_tasks = 10usize;
    let orders_per_task = total_orders / num_tasks;
    let mut producers: Vec<Lcg> = (0..num_tasks).map(|p| Lcg(42 + p as u64)).collect();
    let mut buy = SideOrderBook::new(true);
    let mut sell = SideOrderBook::new(false);
    for _ in 0..orders_per_task {
        for (p, rng) in producers.iter_mut().enumerate() {
            let side = if rng.next() % 2 == 0 { OrderSide::Buy } else { OrderSide::Sell };
            let price = 950 + rng.next() % 101;
            let volume = 100 + rng.next() % 9_901;
            let order = update(VENUES[p % 3], side, price, volume);
            match side {
                OrderSide::Buy => buy.process_order(order),
                OrderSide::Sell => sell.process_order(order),
            }
        }
    }
    for book in [&buy, &sell] {
        assert_invariants(book);
        assert_eq!(book.level_count(), 101);
        assert_eq!(book.entries().len(), 303);
        assert_eq!(book.prices(), (950..=1050).collect::<Vec<u64>>());
    }
}
