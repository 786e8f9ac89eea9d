//! What follows from a venue's one-shot replies: its operating state, and
//! its snapshot as levels that carry the venue's name.
use vstd::prelude::*;
use crate::exchanges::VenueLevel;
use crate::snapshot::{OrderBook, OrderBookResponse, PriceLevel};
use crate::types::{str_eq, ExchangeStatus, ExchangeStatusResponse, Exchanges, Symbol};

verus! {

/// The state Kraken reports with the status word `status`.
pub open spec fn kraken_status_of(http_ok: bool, status: Seq<char>) -> ExchangeStatus {
    if !http_ok {
        ExchangeStatus::OFFLINE
    } else if status == "online"@ {
        ExchangeStatus::ONLINE
    } else if status == "maintenance"@ {
        ExchangeStatus::MAINTENANCE
    } else {
        ExchangeStatus::OFFLINE
    }
}

/// Kraken's operating state: online or in maintenance as its status word
/// says, and offline for any other word or a failed request.
pub fn kraken_status(http_ok: bool, status: &str) -> (r: ExchangeStatusResponse)
    ensures
        r.status == kraken_status_of(http_ok, status@),
{
    if !http_ok {
        ExchangeStatusResponse { status: ExchangeStatus::OFFLINE }
    } else if str_eq(status, "online") {
        ExchangeStatusResponse { status: ExchangeStatus::ONLINE }
    } else if str_eq(status, "maintenance") {
        ExchangeStatusResponse { status: ExchangeStatus::MAINTENANCE }
    } else {
        ExchangeStatusResponse { status: ExchangeStatus::OFFLINE }
    }
}

/// Alpaca's operating state: online exactly when the request succeeded
/// and the venue's clock says the market is open.
pub fn alpaca_status(http_ok: bool, is_open: bool) -> (r: ExchangeStatusResponse)
    ensures
        r.status == (if http_ok && is_open {
            ExchangeStatus::ONLINE
        } else {
            ExchangeStatus::OFFLINE
        }),
{
    if http_ok && is_open {
        ExchangeStatusResponse { status: ExchangeStatus::ONLINE }
    } else {
        ExchangeStatusResponse { status: ExchangeStatus::OFFLINE }
    }
}

/// Bybit's operating state: online exactly when the request succeeded.
pub fn bybit_status(http_ok: bool) -> (r: ExchangeStatusResponse)
    ensures
        r.status == (if http_ok {
            ExchangeStatus::ONLINE
        } else {
            ExchangeStatus::OFFLINE
        }),
{
    if http_ok {
        ExchangeStatusResponse { status: ExchangeStatus::ONLINE }
    } else {
        ExchangeStatusResponse { status: ExchangeStatus::OFFLINE }
    }
}

/// The levels as snapshot levels of `exchange`, in the same order.
pub open spec fn tagged(exchange: Exchanges, levels: Seq<VenueLevel>) -> Seq<PriceLevel> {
    Seq::new(
        levels.len(),
        |i: int| PriceLevel { price: levels[i].price, quantity: levels[i].volume, exchange },
    )
}

fn tag_levels(exchange: Exchanges, levels: &Vec<VenueLevel>) -> (r: Vec<PriceLevel>)
    ensures
        r@ == tagged(exchange, levels@),
{
    let mut out: Vec<PriceLevel> = Vec::new();
    let mut i: usize = 0;
    while i < levels.len()
        invariant
            i <= levels.len(),
            out@ == tagged(exchange, levels@.take(i as int)),
        decreases levels.len() - i,
    {
        let level = levels[i];
        out.push(PriceLevel { price: level.price, quantity: level.volume, exchange });
        proof {
            assert(tagged(exchange, levels@.take(i as int + 1)) =~= tagged(
                exchange,
                levels@.take(i as int),
            ).push(PriceLevel { price: level.price, quantity: level.volume, exchange }));
        }
        i = i + 1;
    }
    proof {
        assert(levels@.take(levels.len() as int) =~= levels@);
    }
    out
}

impl OrderBookResponse {
    /// The snapshot of `exchange` for `symbol` with the given levels.
    pub fn from_levels(
        symbol: Symbol,
        exchange: Exchanges,
        asks: &Vec<VenueLevel>,
        bids: &Vec<VenueLevel>,
    ) -> (r: Self)
        ensures
            r.symbol == symbol,
            r.book.asks@ == tagged(exchange, asks@),
            r.book.bids@ == tagged(exchange, bids@),
    {
        OrderBookResponse {
            symbol,
            book: OrderBook { asks: tag_levels(exchange, asks), bids: tag_levels(exchange, bids) },
        }
    }

    /// The snapshot of a venue that gave no book for `symbol`.
    pub fn empty(symbol: Symbol) -> (r: Self)
        ensures
            r.symbol == symbol,
            r.book.asks@.len() == 0,
            r.book.bids@.len() == 0,
    {
        OrderBookResponse { symbol, book: OrderBook { asks: Vec::new(), bids: Vec::new() } }
    }
}

} // verus!
