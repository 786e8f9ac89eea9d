//! What the adapters decide when they place a market order: how a venue
//! words the side, which symbol it accepts, and what its reply means.
use vstd::prelude::*;
use vstd::string::StringExecFns;
use crate::errors::OrderPlaceError;
use crate::types::{str_eq, Exchanges, OrderSide, Symbol};

verus! {

/// The word for `side` in an order for `venue`: Bybit capitalises it, the
/// others do not.
pub open spec fn spec_side_word(venue: Exchanges, side: OrderSide) -> Seq<char> {
    match (venue, side) {
        (Exchanges::Bybit, OrderSide::Buy) => "Buy"@,
        (Exchanges::Bybit, OrderSide::Sell) => "Sell"@,
        (_, OrderSide::Buy) => "buy"@,
        (_, OrderSide::Sell) => "sell"@,
    }
}

/// The word for `side` in an order for `venue`.
pub fn side_word(venue: Exchanges, side: OrderSide) -> (word: &'static str)
    ensures
        word@ == spec_side_word(venue, side),
{
    match venue {
        Exchanges::Bybit => match side {
            OrderSide::Buy => "Buy",
            OrderSide::Sell => "Sell",
        },
        _ => match side {
            OrderSide::Buy => "buy",
            OrderSide::Sell => "sell",
        },
    }
}

/// The detail of the error for an order in an instrument other than the
/// tracked one.
pub open spec fn invalid_order_symbol_text() -> Seq<char> {
    "Invalid symbol for Bybit exchange"@
}

/// Accepts an order for the instrument the engine tracks and rejects any
/// other.
pub fn check_order_symbol(ticker: Symbol, symbol: &str) -> (r: Result<(), OrderPlaceError>)
    ensures
        symbol@ == ticker.spec_name() ==> r == Ok::<(), OrderPlaceError>(()),
        symbol@ != ticker.spec_name() ==> (r matches Err(OrderPlaceError::Other(s)) && s@
            == invalid_order_symbol_text()),
{
    if str_eq(symbol, ticker.name()) {
        Ok(())
    } else {
        Err(OrderPlaceError::Other("Invalid symbol for Bybit exchange".to_string()))
    }
}

/// How the error for a refused order starts: Kraken's reply text follows
/// the first form, the other venues' response code the second.
pub open spec fn refusal_prefix(venue: Exchanges) -> Seq<char> {
    match venue {
        Exchanges::Kraken => "Failed to place order: "@,
        _ => "Failed to place order, response code: "@,
    }
}

/// What a venue's reply to an order means: success when the venue
/// accepted it, else an error that quotes the venue's `detail`.
pub fn placement_result(venue: Exchanges, accepted: bool, detail: &str) -> (r: Result<
    (),
    OrderPlaceError,
>)
    ensures
        accepted ==> r == Ok::<(), OrderPlaceError>(()),
        !accepted ==> (r matches Err(OrderPlaceError::Other(s)) && s@ == refusal_prefix(venue)
            + detail@),
{
    if accepted {
        Ok(())
    } else {
        let prefix = match venue {
            Exchanges::Kraken => "Failed to place order: ",
            _ => "Failed to place order, response code: ",
        };
        Err(OrderPlaceError::Other(prefix.to_string().concat(detail)))
    }
}

} // verus!
