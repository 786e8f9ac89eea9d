//! A consolidated, cross-venue limit order book: per-side price-indexed
//! books fed by canonical updates, and volume sweeps over them that answer
//! quote and routing queries.
pub mod types;
pub mod model;
pub mod sweep;
mod ladder;
pub mod errors;
pub mod order_book;
pub mod unified;
pub mod snapshot;
pub mod execution;
pub mod priority;
pub mod exchanges;
pub mod ingestor;
pub mod signing;
pub mod orders;
