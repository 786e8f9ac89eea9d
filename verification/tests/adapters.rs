use unified_order_book::errors::{ExchangeError, OrderPlaceError};
use unified_order_book::orders::{check_order_symbol, placement_result, side_word};
use unified_order_book::exchanges::{
    alpaca_handshake, bybit_topic, bytes_contain, check_symbol, normalize, on_stream_event,
    unsubscribe_ob, usd_pair, usdt_pair, BookDelta, HandshakeAction, HandshakeFrame,
    HandshakeStage, OrderBookSubscribe, StreamAction, StreamEvent, VenueLevel, VenueStream,
};
use unified_order_book::order_book::SideOrderBook;
use unified_order_book::types::{
    Exchanges, OBOrder, OrderSide, Symbol, ORDER_BOOK_DEPTH, PRICE_SCALE, VOLUME_SCALE,
};

fn level(price: u64, volume: u64) -> VenueLevel {
    VenueLevel { price, volume }
}

fn two_deltas() -> Vec<BookDelta> {
    vec![
        BookDelta { bids: vec![level(100, 5), level(99, 0)], asks: vec![level(101, 7)] },
        BookDelta { bids: vec![], asks: vec![level(102, 0), level(103, 1)] },
    ]
}

fn expected_updates(venue: Exchanges) -> Vec<OBOrder> {
    vec![
        OBOrder::new(venue, OrderSide::Buy, 5, 100),
        OBOrder::new(venue, OrderSide::Buy, 0, 99),
        OBOrder::new(venue, OrderSide::Sell, 7, 101),
        OBOrder::new(venue, OrderSide::Sell, 0, 102),
        OBOrder::new(venue, OrderSide::Sell, 1, 103),
    ]
}

#[test]
fn scales_are_cents_and_micro_units() {
    assert_eq!(PRICE_SCALE, 100);
    assert_eq!(VOLUME_SCALE, 1_000_000);
    assert_eq!(ORDER_BOOK_DEPTH, 50);
}

#[test]
fn normalize_emits_one_update_per_level() {
    assert_eq!(normalize(Exchanges::Kraken, &two_deltas()), expected_updates(Exchanges::Kraken));
    assert!(normalize(Exchanges::Kraken, &Vec::new()).is_empty());
}

#[test]
fn book_frame_gives_updates_and_continues() {
    let (updates, action) = on_stream_event(Exchanges::Bybit, &StreamEvent::Book(two_deltas()), true);
    assert_eq!(updates, expected_updates(Exchanges::Bybit));
    assert_eq!(action, StreamAction::Continue);
}

#[test]
fn inactive_subscription_closes_after_the_frame() {
    let (updates, action) =
        on_stream_event(Exchanges::Bybit, &StreamEvent::Book(two_deltas()), false);
    assert_eq!(updates, expected_updates(Exchanges::Bybit));
    assert_eq!(action, StreamAction::CloseAndStop);
    let (updates, action) = on_stream_event(Exchanges::Bybit, &StreamEvent::Ignored, false);
    assert!(updates.is_empty());
    assert_eq!(action, StreamAction::CloseAndStop);
}

#[test]
fn closed_or_failed_stream_stops() {
    for active in [true, false] {
        let (updates, action) = on_stream_event(Exchanges::Alpaca, &StreamEvent::Closed, active);
        assert!(updates.is_empty());
        assert_eq!(action, StreamAction::Stop);
        let (updates, action) = on_stream_event(Exchanges::Alpaca, &StreamEvent::Failed, active);
        assert!(updates.is_empty());
        assert_eq!(action, StreamAction::Stop);
    }
    let (updates, action) = on_stream_event(Exchanges::Alpaca, &StreamEvent::Ignored, true);
    assert!(updates.is_empty());
    assert_eq!(action, StreamAction::Continue);
}

#[test]
fn unsubscribe_needs_an_active_subscription() {
    assert_eq!(unsubscribe_ob(true), Ok(()));
    assert_eq!(unsubscribe_ob(false), Err(ExchangeError::ConnectionClosed));
}

#[test]
fn only_the_tracked_symbol_is_served() {
    assert_eq!(check_symbol(Symbol::BTC, "BTC"), Ok(()));
    assert_eq!(
        check_symbol(Symbol::BTC, "ETH"),
        Err(ExchangeError::InvalidSymbol("ETH".to_string()))
    );
    assert_eq!(check_symbol(Symbol::SOL, ""), Err(ExchangeError::InvalidSymbol(String::new())));
    assert_eq!(
        check_symbol(Symbol::SOL, "sol"),
        Err(ExchangeError::InvalidSymbol("sol".to_string()))
    );
}

#[test]
fn pair_names_follow_the_venue() {
    assert_eq!(usd_pair(Symbol::BTC), "BTC/USD");
    assert_eq!(usd_pair(Symbol::SOL), "SOL/USD");
    assert_eq!(usdt_pair(Symbol::ETH), "ETHUSDT");
    assert_eq!(bybit_topic(Symbol::BTC), "orderbook.50.BTCUSDT");
}

#[test]
fn kraken_subscription_asks_for_book_updates() {
    let request = OrderBookSubscribe::new(Symbol::ETH);
    assert_eq!(request.method, "subscribe");
    assert_eq!(request.params.channel, "book");
    assert_eq!(request.params.symbol, vec!["ETH/USD".to_string()]);
    assert_eq!(request.params.depth, 50);
    assert!(!request.params.snapshot);
}

#[test]
fn bytes_contain_finds_a_word_anywhere() {
    assert!(bytes_contain(b"[{\"T\":\"success\",\"msg\":\"connected\"}]", b"success"));
    assert!(bytes_contain(b"success", b"success"));
    assert!(bytes_contain(b"xsuccess", b"success"));
    assert!(bytes_contain(b"successx", b"success"));
    assert!(bytes_contain(b"susuccess", b"success"));
    assert!(bytes_contain(b"anything", b""));
    assert!(bytes_contain(b"", b""));
    assert!(!bytes_contain(b"", b"s"));
    assert!(!bytes_contain(b"succes", b"success"));
    assert!(!bytes_contain(b"succe ss", b"success"));
    assert!(!bytes_contain(b"SUCCESS", b"success"));
}

#[test]
fn handshake_confirms_each_step_by_its_keyword() {
    let welcome = HandshakeFrame::Text("[{\"T\":\"success\",\"msg\":\"connected\"}]".to_string());
    let confirmed =
        HandshakeFrame::Text("[{\"T\":\"success\",\"msg\":\"authenticated\"}]".to_string());
    let refused = HandshakeFrame::Text("[{\"T\":\"error\",\"code\":402}]".to_string());
    assert_eq!(alpaca_handshake(HandshakeStage::Welcome, &welcome), Ok(HandshakeAction::SendAuth));
    assert_eq!(
        alpaca_handshake(HandshakeStage::Authenticated, &confirmed),
        Ok(HandshakeAction::SendSubscribe)
    );
    assert_eq!(
        alpaca_handshake(HandshakeStage::Authenticated, &welcome),
        Err(ExchangeError::SubscriptionFailed("Authentication failed".to_string()))
    );
    assert_eq!(
        alpaca_handshake(HandshakeStage::Welcome, &refused),
        Err(ExchangeError::SubscriptionFailed("Authentication failed".to_string()))
    );
    assert_eq!(HandshakeStage::Welcome.keyword(), "success");
    assert_eq!(HandshakeStage::Authenticated.keyword(), "authenticated");
}

#[test]
fn handshake_passes_on_closure_and_failure() {
    for stage in [HandshakeStage::Welcome, HandshakeStage::Authenticated] {
        assert_eq!(
            alpaca_handshake(stage, &HandshakeFrame::Close),
            Err(ExchangeError::ConnectionClosed)
        );
        assert_eq!(
            alpaca_handshake(stage, &HandshakeFrame::Error("reset by peer".to_string())),
            Err(ExchangeError::WebSocketError("reset by peer".to_string()))
        );
    }
    assert_eq!(
        alpaca_handshake(HandshakeStage::Welcome, &HandshakeFrame::Other),
        Ok(HandshakeAction::SendAuth)
    );
    assert_eq!(
        alpaca_handshake(HandshakeStage::Authenticated, &HandshakeFrame::Other),
        Ok(HandshakeAction::SendSubscribe)
    );
}

fn book_frame(bids: &[(u64, u64)], asks: &[(u64, u64)]) -> StreamEvent {
    StreamEvent::Book(vec![BookDelta {
        bids: bids.iter().map(|&(p, v)| level(p, v)).collect(),
        asks: asks.iter().map(|&(p, v)| level(p, v)).collect(),
    }])
}

#[test]
fn running_stream_passes_the_updates_on() {
    let mut stream = VenueStream::new(Exchanges::Kraken);
    let (updates, action) = stream.on_event(&StreamEvent::Book(two_deltas()), true);
    assert_eq!(updates, expected_updates(Exchanges::Kraken));
    assert_eq!(action, StreamAction::Continue);
    let (updates, action) = stream.on_event(&StreamEvent::Ignored, true);
    assert!(updates.is_empty());
    assert_eq!(action, StreamAction::Continue);
}

#[test]
fn ending_stream_vacates_what_the_venue_had_on_offer() {
    let venue = Exchanges::Bybit;
    let mut stream = VenueStream::new(venue);
    stream.on_event(&book_frame(&[(100, 5), (99, 2), (101, 1)], &[(105, 7), (103, 1)]), true);
    stream.on_event(&book_frame(&[(99, 0), (98, 4)], &[(103, 0), (104, 2)]), true);
    let (updates, action) = stream.on_event(&StreamEvent::Failed, true);
    assert_eq!(action, StreamAction::Stop);
    assert_eq!(
        updates,
        vec![
            OBOrder::new(venue, OrderSide::Buy, 0, 101),
            OBOrder::new(venue, OrderSide::Buy, 0, 100),
            OBOrder::new(venue, OrderSide::Buy, 0, 98),
            OBOrder::new(venue, OrderSide::Sell, 0, 104),
            OBOrder::new(venue, OrderSide::Sell, 0, 105),
        ]
    );
    // Nothing is left to vacate afterwards.
    let (updates, action) = stream.on_event(&StreamEvent::Closed, true);
    assert!(updates.is_empty());
    assert_eq!(action, StreamAction::Stop);
}

#[test]
fn last_frame_is_recorded_before_the_farewell() {
    let venue = Exchanges::Alpaca;
    let mut stream = VenueStream::new(venue);
    stream.on_event(&book_frame(&[(100, 5)], &[]), true);
    let (updates, action) = stream.on_event(&book_frame(&[(100, 0), (90, 1)], &[(110, 3)]), false);
    assert_eq!(action, StreamAction::CloseAndStop);
    assert_eq!(
        updates,
        vec![
            OBOrder::new(venue, OrderSide::Buy, 0, 100),
            OBOrder::new(venue, OrderSide::Buy, 1, 90),
            OBOrder::new(venue, OrderSide::Sell, 3, 110),
            OBOrder::new(venue, OrderSide::Buy, 0, 90),
            OBOrder::new(venue, OrderSide::Sell, 0, 110),
        ]
    );
}

#[test]
fn farewell_leaves_no_level_of_the_venue_in_the_book() {
    let mut buy = SideOrderBook::new(true);
    let mut sell = SideOrderBook::new(false);
    let mut gone = VenueStream::new(Exchanges::Kraken);
    let mut stays = VenueStream::new(Exchanges::Alpaca);
    let frames = [
        book_frame(&[(100, 5), (99, 2)], &[(105, 7), (103, 1)]),
        book_frame(&[(99, 3), (98, 4)], &[(103, 0), (104, 2)]),
    ];
    let mut apply = |updates: Vec<OBOrder>| {
        for u in updates {
            match u.side {
                OrderSide::Buy => buy.process_order(u),
                OrderSide::Sell => sell.process_order(u),
            }
        }
    };
    for frame in &frames {
        apply(gone.on_event(frame, true).0);
        apply(stays.on_event(frame, true).0);
    }
    apply(gone.on_event(&StreamEvent::Closed, true).0);
    for (book, levels) in [(&buy, 3), (&sell, 2)] {
        let entries = book.entries();
        assert_eq!(entries.len(), levels);
        assert!(entries.iter().all(|q| q.exchange == Exchanges::Alpaca));
    }
    assert_eq!(buy.prices(), vec![98, 99, 100]);
    assert_eq!(sell.prices(), vec![104, 105]);
}

#[test]
fn venues_word_the_side_their_own_way() {
    assert_eq!(side_word(Exchanges::Bybit, OrderSide::Buy), "Buy");
    assert_eq!(side_word(Exchanges::Bybit, OrderSide::Sell), "Sell");
    for venue in [Exchanges::Kraken, Exchanges::Alpaca] {
        assert_eq!(side_word(venue, OrderSide::Buy), "buy");
        assert_eq!(side_word(venue, OrderSide::Sell), "sell");
    }
}

#[test]
fn order_for_another_instrument_is_refused() {
    assert_eq!(check_order_symbol(Symbol::BTC, "BTC"), Ok(()));
    assert_eq!(
        check_order_symbol(Symbol::BTC, "SOL"),
        Err(OrderPlaceError::Other("Invalid symbol for Bybit exchange".to_string()))
    );
}

#[test]
fn refused_order_quotes_the_venue() {
    for venue in [Exchanges::Kraken, Exchanges::Alpaca, Exchanges::Bybit] {
        assert_eq!(placement_result(venue, true, "200 OK"), Ok(()));
    }
    assert_eq!(
        placement_result(Exchanges::Kraken, false, "{\"error\":[\"EOrder:Insufficient funds\"]}"),
        Err(OrderPlaceError::Other(
            "Failed to place order: {\"error\":[\"EOrder:Insufficient funds\"]}".to_string()
        ))
    );
    assert_eq!(
        placement_result(Exchanges::Bybit, false, "403 Forbidden"),
        Err(OrderPlaceError::Other(
            "Failed to place order, response code: 403 Forbidden".to_string()
        ))
    );
    assert_eq!(
        placement_result(Exchanges::Alpaca, false, ""),
        Err(OrderPlaceError::Other("Failed to place order, response code: ".to_string()))
    );
}
