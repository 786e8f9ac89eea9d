use unified_order_book::types::{Exchanges, OBOrder, OrderSide, Symbol};

#[test]
fn symbols_round_trip_through_their_tickers() {
    for symbol in [Symbol::BTC, Symbol::ETH, Symbol::SOL] {
        assert_eq!(Symbol::parse(symbol.name()), Some(symbol));
        assert_eq!(Symbol::from(symbol.name()), symbol);
        assert_eq!(symbol.to_string(), symbol.name());
    }
    assert_eq!(Symbol::BTC.name(), "BTC");
    assert_eq!(Symbol::ETH.name(), "ETH");
    assert_eq!(Symbol::SOL.name(), "SOL");
}

#[test]
fn unknown_tickers_name_no_symbol() {
    for text in ["", "btc", "BTC ", "XRP", "BTCETH", "B"] {
        assert_eq!(Symbol::parse(text), None);
    }
}

#[test]
fn venues_round_trip_through_their_names() {
    for venue in [Exchanges::Bybit, Exchanges::Kraken, Exchanges::Alpaca] {
        assert_eq!(Exchanges::parse(venue.name()), Some(venue));
    }
    assert_eq!(Exchanges::Bybit.name(), "Bybit");
    assert_eq!(Exchanges::Kraken.name(), "Kraken");
    assert_eq!(Exchanges::Alpaca.name(), "Alpaca");
    assert_eq!(Exchanges::parse("TestExchange"), None);
    assert_eq!(Exchanges::parse("kraken"), None);
}

#[test]
fn update_holds_what_it_was_made_with() {
    let order = OBOrder::new(Exchanges::Kraken, OrderSide::Sell, 1_500_000, 3_000_010);
    assert_eq!(order.exchange, Exchanges::Kraken);
    assert_eq!(order.side, OrderSide::Sell);
    assert_eq!(order.volume, 1_500_000);
    assert_eq!(order.price, 3_000_010);
}
