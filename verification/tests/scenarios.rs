use unified_order_book::errors::OrderBookError;
use unified_order_book::order_book::{Fill, SideOrderBook};
use unified_order_book::types::{Exchanges, OBOrder, OrderRequest, OrderSide, PriceResponse, Symbol};

const A: Exchanges = Exchanges::Alpaca;
const B: Exchanges = Exchanges::Bybit;
const C: Exchanges = Exchanges::Kraken;

fn ticks(dollars: u64) -> u64 {
    dollars * 100
}

fn units(coins: u64) -> u64 {
    coins * 1_000_000
}

fn load(book: &mut SideOrderBook, side: OrderSide, quotes: &[(Exchanges, u64, u64)]) {
    for &(venue, price, size) in quotes {
        book.process_order(OBOrder::new(venue, side, units(size), ticks(price)));
    }
}

fn request(side: OrderSide, coins: u64) -> OrderRequest {
    OrderRequest { symbol: Symbol::BTC, side, volume: units(coins) }
}

#[test]
fn single_venue_sweep_on_buy() {
    let mut buy = SideOrderBook::new(true);
    load(&mut buy, OrderSide::Buy, &[(A, 1050, 2), (A, 1040, 3), (A, 1030, 5)]);
    let response = buy.get_best_quote(request(OrderSide::Buy, 4)).unwrap();
    assert_eq!(
        response,
        PriceResponse {
            symbol: Symbol::BTC,
            total_volume: units(4),
            side: OrderSide::Buy,
            alpaca_volume: units(4),
            kraken_volume: 0,
            bybit_volume: 0,
            vwap: 104_500,
        }
    );
}

#[test]
fn tie_at_same_price_is_first_seen_first() {
    let mut buy = SideOrderBook::new(true);
    load(&mut buy, OrderSide::Buy, &[(A, 1000, 5), (B, 1000, 5)]);
    let response = buy.get_best_quote(request(OrderSide::Buy, 7)).unwrap();
    assert_eq!(response.alpaca_volume, units(5));
    assert_eq!(response.bybit_volume, units(2));
    assert_eq!(response.kraken_volume, 0);
    assert_eq!(response.total_volume, units(7));
    assert_eq!(response.vwap, 100_000);
}

#[test]
fn zero_volume_deletes_the_entry() {
    let mut buy = SideOrderBook::new(true);
    load(&mut buy, OrderSide::Buy, &[(A, 1000, 5), (B, 1000, 5), (A, 1000, 0)]);
    let fill = buy.sweep(units(6));
    assert_eq!(
        fill,
        Fill {
            total_volume: units(5),
            alpaca_volume: 0,
            kraken_volume: 0,
            bybit_volume: units(5),
            weighted_price_sum: 100_000u128 * 5_000_000u128,
        }
    );
    let answer = buy.get_best_quote(request(OrderSide::Buy, 6));
    assert_eq!(
        answer,
        Err(OrderBookError::InsufficientVolume("Not enough volume available".to_string()))
    );
}

#[test]
fn cross_venue_merge_on_sell() {
    let mut sell = SideOrderBook::new(false);
    load(&mut sell, OrderSide::Sell, &[(A, 2000, 1), (C, 2001, 10), (B, 2000, 2)]);
    let response = sell.get_best_quote(request(OrderSide::Sell, 5)).unwrap();
    assert_eq!(response.alpaca_volume, units(1));
    assert_eq!(response.bybit_volume, units(2));
    assert_eq!(response.kraken_volume, units(2));
    assert_eq!(response.total_volume, units(5));
    assert_eq!(response.vwap, 200_040);
    assert_eq!(response.side, OrderSide::Sell);
}

#[test]
fn replacement_keeps_one_entry_per_venue() {
    let mut buy = SideOrderBook::new(true);
    load(&mut buy, OrderSide::Buy, &[(A, 1000, 3), (A, 1000, 10)]);
    let response = buy.get_best_quote(request(OrderSide::Buy, 8)).unwrap();
    assert_eq!(response.alpaca_volume, units(8));
    assert_eq!(response.total_volume, units(8));
    assert_eq!(response.vwap, 100_000);
}
