//! Error values of the book and of the venue adapters.
use vstd::prelude::*;

verus! {

/// Why the book could not serve a request.
#[derive(Debug, PartialEq, Eq)]
pub enum OrderBookError {
    ReceiveError(String),
    ProcessError(String),
    EmptyOrderBook,
    Unknown(String),
    /// A sweep exhausted the book before it met its target.
    InsufficientVolume(String),
    /// The coordinator could not reach the side worker.
    ChannelSendError,
    /// The worker has drained and no longer accepts queries.
    InactiveOrderBook,
}

/// Why a venue adapter could not subscribe, stream or unsubscribe.
#[derive(Debug, PartialEq, Eq)]
pub enum ExchangeError {
    /// The transport failed; the text is the transport's own description.
    WebSocketError(String),
    SubscriptionFailed(String),
    /// The adapter does not serve the instrument asked for.
    InvalidSymbol(String),
    ConnectionClosed,
    Unknown(String),
    SerializationError(String),
}

/// The detail carried by [`ExchangeError::SubscriptionFailed`] when a venue
/// does not confirm a step of the sign-in.
pub open spec fn authentication_failed_text() -> Seq<char> {
    "Authentication failed"@
}

impl ExchangeError {
    /// The error of a sign-in step that the venue did not confirm.
    pub fn authentication_failed() -> (e: ExchangeError)
        ensures
            e matches ExchangeError::SubscriptionFailed(s) && s@ == authentication_failed_text(),
    {
        ExchangeError::SubscriptionFailed("Authentication failed".to_string())
    }
}

/// Why an order could not be signed or placed.
#[derive(Debug, PartialEq, Eq)]
pub enum OrderPlaceError {
    Http(String),
    /// The API secret is no base64 text; the decoder's error says why.
    Base64Decode(base64::DecodeError),
    HmacError(String),
    Serialization(String),
    NetworkError(String),
    Other(String),
}

/// The detail carried by [`OrderBookError::InsufficientVolume`].
pub open spec fn insufficient_volume_text() -> Seq<char> {
    "Not enough volume available"@
}

/// The detail carried by [`OrderBookError::InsufficientVolume`] when the
/// venue snapshots cannot fill a routed order.
pub open spec fn unfillable_order_text() -> Seq<char> {
    "Not enough volume available to fill the order"@
}

impl OrderBookError {
    /// The error of a routed order that the snapshots cannot fill.
    pub fn unfillable_order() -> (e: OrderBookError)
        ensures
            e matches OrderBookError::InsufficientVolume(s) && s@ == unfillable_order_text(),
    {
        OrderBookError::InsufficientVolume(
            "Not enough volume available to fill the order".to_string(),
        )
    }

    /// The error of a sweep that the book cannot fill.
    pub fn insufficient_volume() -> (e: OrderBookError)
        ensures
            e matches OrderBookError::InsufficientVolume(s) && s@ == insufficient_volume_text(),
    {
        OrderBookError::InsufficientVolume("Not enough volume available".to_string())
    }
}

} // verus!
