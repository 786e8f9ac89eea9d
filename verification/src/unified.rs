//! The ingest demultiplexer and query coordinator: which side worker a
//! message goes to, and the life cycle from running to stopped.
use vstd::prelude::*;
use crate::errors::OrderBookError;
use crate::types::{OBOrder, OrderRequest, OrderSide, PriceResponse};

verus! {

/// Where the demultiplexer stands in its life cycle.
#[derive(Clone, Copy, Debug, PartialEq, Eq, Structural)]
pub enum EngineState {
    /// Updates are forwarded and queries are accepted.
    Running,
    /// The ingest channel is closed; the worker inputs are being closed.
    Draining,
    /// Nothing is forwarded or accepted any more.
    Stopped,
}

/// What the demultiplexer does with what it received.
#[derive(Clone, Copy, Debug, PartialEq, Eq, Structural)]
pub enum DemuxAction {
    /// Hand the update, unchanged, to the worker of this side.
    Forward(OrderSide, OBOrder),
    /// Close the input channels of both workers and leave the loop.
    CloseWorkers,
    /// Nothing to do: the message is dropped.
    Idle,
}

/// How the attempt to put a query to a side worker ended.
#[derive(Debug, PartialEq, Eq)]
pub enum QuoteDelivery {
    /// The worker's query channel was closed.
    SendFailed,
    /// The worker went away before it replied.
    ReplyDropped,
    /// The worker replied.
    Replied(Result<PriceResponse, OrderBookError>),
}

/// The coordinator's state. The books themselves belong to the two side
/// workers; this value only decides where messages go.
pub struct UnifiedOrderBook {
    state: EngineState,
}

impl View for UnifiedOrderBook {
    type V = EngineState;

    closed spec fn view(&self) -> EngineState {
        self.state
    }
}

/// The state after the demultiplexer received `event`, where `None` stands
/// for the closed ingest channel.
pub open spec fn demux_next(state: EngineState, event: Option<OBOrder>) -> EngineState {
    match (state, event) {
        (EngineState::Running, None) => EngineState::Draining,
        _ => state,
    }
}

/// What the demultiplexer does on `event`: while running, an update goes
/// to the worker of its own side, whatever its price and volume, and the
/// end of the ingest channel closes the workers; otherwise nothing.
pub open spec fn demux_action(state: EngineState, event: Option<OBOrder>) -> DemuxAction {
    match (state, event) {
        (EngineState::Running, Some(order)) => DemuxAction::Forward(order.side, order),
        (EngineState::Running, None) => DemuxAction::CloseWorkers,
        _ => DemuxAction::Idle,
    }
}

impl UnifiedOrderBook {
    /// A running coordinator.
    pub fn new() -> (r: Self)
        ensures
            r@ == EngineState::Running,
    {
        UnifiedOrderBook { state: EngineState::Running }
    }

    /// The current life-cycle state.
    pub fn state(&self) -> (s: EngineState)
        ensures
            s == self@,
    {
        self.state
    }

    /// One turn of the demultiplexer loop on what the ingest channel gave:
    /// an update, or `None` when the channel is closed.
    pub fn run(&mut self, event: Option<OBOrder>) -> (action: DemuxAction)
        ensures
            action == demux_action(old(self)@, event),
            final(self)@ == demux_next(old(self)@, event),
    {
        match self.state {
            EngineState::Running => match event {
                Some(order) => DemuxAction::Forward(order.side, order),
                None => {
                    self.state = EngineState::Draining;
                    DemuxAction::CloseWorkers
                },
            },
            _ => DemuxAction::Idle,
        }
    }

    /// Signals shutdown: a running coordinator starts draining, and the
    /// caller then closes the worker inputs as on `CloseWorkers`.
    pub fn stop(&mut self) -> (action: DemuxAction)
        ensures
            action == demux_action(old(self)@, None),
            final(self)@ == demux_next(old(self)@, None),
    {
        self.run(None)
    }

    /// Records that both worker inputs are closed: a draining coordinator
    /// is stopped.
    pub fn workers_closed(&mut self)
        ensures
            final(self)@ == (if old(self)@ == EngineState::Draining {
                EngineState::Stopped
            } else {
                old(self)@
            }),
    {
        match self.state {
            EngineState::Draining => {
                self.state = EngineState::Stopped;
            },
            _ => {},
        }
    }

    /// The side worker that must answer `order`: the one of the request's
    /// side while the coordinator runs; afterwards the book is closed.
    pub fn get_quote(&self, order: &OrderRequest) -> (r: Result<OrderSide, OrderBookError>)
        ensures
            self@ == EngineState::Running ==> r == Ok::<OrderSide, OrderBookError>(order.side),
            self@ != EngineState::Running ==> r == Err::<OrderSide, OrderBookError>(
                OrderBookError::InactiveOrderBook,
            ),
    {
        match self.state {
            EngineState::Running => Ok(order.side),
            _ => Err(OrderBookError::InactiveOrderBook),
        }
    }
}

/// What the caller of a quote query gets: the worker's reply where there
/// is one, and a closed book where the worker could not be reached.
pub fn resolve_quote(delivery: QuoteDelivery) -> (r: Result<PriceResponse, OrderBookError>)
    ensures
        r == (match delivery {
            QuoteDelivery::Replied(reply) => reply,
            _ => Err(OrderBookError::InactiveOrderBook),
        }),
{
    match delivery {
        QuoteDelivery::Replied(reply) => reply,
        _ => Err(OrderBookError::InactiveOrderBook),
    }
}

} // verus!
