//! Canonical identifiers and plain records shared by every component.
//!
//! Prices are integer ticks (one tick is one cent) and volumes are integer
//! micro-units (one millionth of a coin), so that ordering is total and
//! equality is exact inside the book.
use vstd::prelude::*;
use vstd::utf8::{decode_utf8, encode_utf8, encode_utf8_decode_utf8};

verus! {

/// Number of price ticks in one dollar.
pub const PRICE_SCALE: u64 = 100;

/// Number of volume units in one coin.
pub const VOLUME_SCALE: u64 = 1_000_000;

/// Book depth requested from every venue.
pub const ORDER_BOOK_DEPTH: usize = 50;

/// Side of the market an update or a query refers to.
#[derive(Clone, Copy, Debug, PartialEq, Eq, Structural)]
pub enum OrderSide {
    Buy,
    Sell,
}

/// The integrated trading venues.
#[derive(Clone, Copy, Debug, PartialEq, Eq, Hash, Structural)]
pub enum Exchanges {
    Bybit,
    Kraken,
    Alpaca,
}

/// The traded instruments.
#[derive(Clone, Copy, Debug, PartialEq, Eq, Structural)]
pub enum Symbol {
    BTC,
    ETH,
    SOL,
}

/// Whether two string slices hold the same characters.
pub(crate) fn str_eq(a: &str, b: &str) -> (r: bool)
    ensures
        r == (a@ == b@),
{
    let x = a.as_bytes();
    let y = b.as_bytes();
    proof {
        encode_utf8_decode_utf8(a@);
        encode_utf8_decode_utf8(b@);
    }
    if x.len() != y.len() {
        return false;
    }
    let mut i: usize = 0;
    while i < x.len()
        invariant
            i <= x.len(),
            x.len() == y.len(),
            x@ == encode_utf8(a@),
            y@ == encode_utf8(b@),
            decode_utf8(encode_utf8(a@)) == a@,
            decode_utf8(encode_utf8(b@)) == b@,
            forall|k: int| 0 <= k < i ==> x@[k] == y@[k],
        decreases x.len() - i,
    {
        if x[i] != y[i] {
            return false;
        }
        i = i + 1;
    }
    proof {
        assert(x@ =~= y@);
    }
    true
}

impl Exchanges {
    /// The venue's display name.
    pub open spec fn spec_name(self) -> Seq<char> {
        match self {
            Exchanges::Bybit => "Bybit"@,
            Exchanges::Kraken => "Kraken"@,
            Exchanges::Alpaca => "Alpaca"@,
        }
    }

    /// The venue's display name.
    pub fn name(self) -> (r: &'static str)
        ensures
            r@ == self.spec_name(),
    {
        match self {
            Exchanges::Bybit => "Bybit",
            Exchanges::Kraken => "Kraken",
            Exchanges::Alpaca => "Alpaca",
        }
    }

    /// The venue with the given display name, if there is one.
    pub fn parse(s: &str) -> (r: Option<Exchanges>)
        ensures
            match r {
                Some(x) => x.spec_name() == s@,
                None => forall|x: Exchanges| x.spec_name() != s@,
            },
    {
        if str_eq(s, "Bybit") {
            Some(Exchanges::Bybit)
        } else if str_eq(s, "Kraken") {
            Some(Exchanges::Kraken)
        } else if str_eq(s, "Alpaca") {
            Some(Exchanges::Alpaca)
        } else {
            None
        }
    }
}

impl Symbol {
    /// The instrument's ticker.
    pub open spec fn spec_name(self) -> Seq<char> {
        match self {
            Symbol::BTC => "BTC"@,
            Symbol::ETH => "ETH"@,
            Symbol::SOL => "SOL"@,
        }
    }

    /// The instrument's ticker.
    pub fn name(self) -> (r: &'static str)
        ensures
            r@ == self.spec_name(),
    {
        match self {
            Symbol::BTC => "BTC",
            Symbol::ETH => "ETH",
            Symbol::SOL => "SOL",
        }
    }

    /// The instrument's ticker as an owned string.
    pub fn to_string(self) -> (r: String)
        ensures
            r@ == self.spec_name(),
    {
        self.name().to_string()
    }

    /// The instrument with the given ticker, if there is one.
    pub fn parse(s: &str) -> (r: Option<Symbol>)
        ensures
            match r {
                Some(x) => x.spec_name() == s@,
                None => forall|x: Symbol| x.spec_name() != s@,
            },
    {
        if str_eq(s, "BTC") {
            Some(Symbol::BTC)
        } else if str_eq(s, "ETH") {
            Some(Symbol::ETH)
        } else if str_eq(s, "SOL") {
            Some(Symbol::SOL)
        } else {
            None
        }
    }

    /// The instrument with the given ticker, which must be a known one.
    pub fn from(s: &str) -> (r: Symbol)
        requires
            exists|x: Symbol| x.spec_name() == s@,
        ensures
            r.spec_name() == s@,
    {
        if str_eq(s, "BTC") {
            Symbol::BTC
        } else if str_eq(s, "ETH") {
            Symbol::ETH
        } else {
            Symbol::SOL
        }
    }
}

/// Distinct instruments have distinct tickers, so a ticker names at most
/// one instrument.
pub proof fn lemma_symbol_names_distinct(a: Symbol, b: Symbol)
    ensures
        a.spec_name() == b.spec_name() ==> a == b,
{
    reveal_strlit("BTC");
    reveal_strlit("ETH");
    reveal_strlit("SOL");
    assert("BTC"@[0] == 'B');
    assert("ETH"@[0] == 'E');
    assert("SOL"@[0] == 'S');
}

/// Distinct venues have distinct display names.
pub proof fn lemma_exchange_names_distinct(a: Exchanges, b: Exchanges)
    ensures
        a.spec_name() == b.spec_name() ==> a == b,
{
    reveal_strlit("Bybit");
    reveal_strlit("Kraken");
    reveal_strlit("Alpaca");
    assert("Bybit"@[0] == 'B');
    assert("Kraken"@[0] == 'K');
    assert("Alpaca"@[0] == 'A');
}

/// One canonical book update: the resting size at `price` on `exchange`
/// for `side` is now exactly `volume`. A volume of zero vacates the level
/// on that venue.
#[derive(Clone, Copy, Debug, PartialEq, Eq, Structural)]
pub struct OBOrder {
    pub exchange: Exchanges,
    pub side: OrderSide,
    pub volume: u64,
    pub price: u64,
}

impl OBOrder {
    pub fn new(exchange: Exchanges, side: OrderSide, volume: u64, price: u64) -> (r: Self)
        ensures
            r == (OBOrder { exchange, side, volume, price }),
    {
        OBOrder { exchange, side, volume, price }
    }
}

/// A quote query: sweep `volume` units on `side`.
#[derive(Clone, Copy, Debug, PartialEq, Eq, Structural)]
pub struct OrderRequest {
    pub symbol: Symbol,
    pub side: OrderSide,
    pub volume: u64,
}

/// Answer to a quote query: the volume filled, its split across venues and
/// the volume-weighted average price in ticks.
#[derive(Clone, Copy, Debug, PartialEq, Eq, Structural)]
pub struct PriceResponse {
    pub symbol: Symbol,
    pub total_volume: u64,
    pub side: OrderSide,
    pub alpaca_volume: u64,
    pub kraken_volume: u64,
    pub bybit_volume: u64,
    pub vwap: u64,
}

/// Operating state a venue reports for itself.
#[derive(Clone, Copy, Debug, PartialEq, Eq, Structural)]
pub enum ExchangeStatus {
    ONLINE,
    OFFLINE,
    MAINTENANCE,
}

#[derive(Clone, Copy, Debug, PartialEq, Eq, Structural)]
pub struct ExchangeStatusResponse {
    pub status: ExchangeStatus,
}

/// A subscription request as the adapters hand it on.
#[derive(Clone, Copy, Debug, PartialEq, Eq, Structural)]
pub enum WsMessage {
    SubscribeOrderBook(Symbol),
    UnsubscribeOrderBook(Symbol),
    SubscribeTicker(Symbol),
    UnsubscribeTicker(Symbol),
}

} // verus!
