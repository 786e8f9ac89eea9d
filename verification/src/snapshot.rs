//! One-shot venue snapshots and the split of an order that is routed from
//! them, in the book's integer units.
use vstd::prelude::*;
use crate::types::{Exchanges, OrderSide, Symbol};

verus! {

/// One level of a venue snapshot: `quantity` units rest at `price` on
/// `exchange`.
#[derive(Clone, Copy, Debug, PartialEq, Eq, Structural)]
pub struct PriceLevel {
    pub price: u64,
    pub quantity: u64,
    pub exchange: Exchanges,
}

/// Both sides of one venue's snapshot.
#[derive(Debug)]
pub struct OrderBook {
    pub asks: Vec<PriceLevel>,
    pub bids: Vec<PriceLevel>,
}

/// A venue's snapshot for one instrument.
#[derive(Debug)]
pub struct OrderBookResponse {
    pub symbol: Symbol,
    pub book: OrderBook,
}

/// How a routed order is split across the venues.
#[derive(Clone, Copy, Debug, PartialEq, Eq, Structural)]
pub struct RoutedOrder {
    pub symbol: Symbol,
    pub side: OrderSide,
    pub bybit_volume: u64,
    pub kraken_volume: u64,
    pub alpaca_volume: u64,
}

} // verus!
