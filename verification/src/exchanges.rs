//! What a venue adapter decides: which instrument it serves, what it asks
//! the venue for, how it reads the venue's replies while signing in, which
//! canonical updates a book message turns into, and when the stream ends.
use vstd::prelude::*;
use vstd::string::StringExecFns;
use vstd::utf8::encode_utf8;
use crate::errors::{authentication_failed_text, ExchangeError};
use crate::model::{
    apply_all, apply_update, book_invariant, has_venue, lemma_stream_preserves_invariant,
    lemma_zero_volume_adds_nothing, lemma_zero_volume_deletes, level_queue, Ladder, LevelEntry,
};
use crate::order_book::SideOrderBook;
use crate::sweep::{traversal, Quote};
use crate::types::{str_eq, Exchanges, OBOrder, OrderSide, Symbol, ORDER_BOOK_DEPTH};

verus! {

/// One level of a venue's book message, already scaled to ticks and units.
#[derive(Clone, Copy, Debug, PartialEq, Eq, Structural)]
pub struct VenueLevel {
    pub price: u64,
    pub volume: u64,
}

/// The changed levels of one book message.
#[derive(Debug)]
pub struct BookDelta {
    pub bids: Vec<VenueLevel>,
    pub asks: Vec<VenueLevel>,
}

/// The update that says: `level.volume` now rests at `level.price` on
/// `venue` for `side`.
pub open spec fn level_update(venue: Exchanges, side: OrderSide, level: VenueLevel) -> OBOrder {
    OBOrder { exchange: venue, side, volume: level.volume, price: level.price }
}

/// One update per level, in the order of the levels.
pub open spec fn side_updates(venue: Exchanges, side: OrderSide, levels: Seq<VenueLevel>) -> Seq<
    OBOrder,
> {
    Seq::new(levels.len(), |i: int| level_update(venue, side, levels[i]))
}

/// The updates of one book message: its bids as buy updates, then its asks
/// as sell updates.
pub open spec fn delta_updates(venue: Exchanges, delta: BookDelta) -> Seq<OBOrder> {
    side_updates(venue, OrderSide::Buy, delta.bids@) + side_updates(
        venue,
        OrderSide::Sell,
        delta.asks@,
    )
}

/// The updates of several book messages, one message after the other.
pub open spec fn normalized(venue: Exchanges, deltas: Seq<BookDelta>) -> Seq<OBOrder>
    decreases deltas.len(),
{
    if deltas.len() == 0 {
        Seq::empty()
    } else {
        normalized(venue, deltas.drop_last()) + delta_updates(venue, deltas.last())
    }
}

/// Appends one update per level to `out`.
fn push_side(out: &mut Vec<OBOrder>, venue: Exchanges, side: OrderSide, levels: &Vec<VenueLevel>)
    ensures
        final(out)@ == old(out)@ + side_updates(venue, side, levels@),
{
    let mut i: usize = 0;
    while i < levels.len()
        invariant
            i <= levels.len(),
            out@ == old(out)@ + side_updates(venue, side, levels@.take(i as int)),
        decreases levels.len() - i,
    {
        let level = levels[i];
        out.push(OBOrder::new(venue, side, level.volume, level.price));
        proof {
            assert(side_updates(venue, side, levels@.take(i as int + 1)) =~= side_updates(
                venue,
                side,
                levels@.take(i as int),
            ).push(level_update(venue, side, level)));
        }
        i = i + 1;
    }
    proof {
        assert(levels@.take(levels.len() as int) =~= levels@);
    }
}

/// Turns a venue's book messages into canonical updates: one update per
/// changed level, a level with volume zero included, since that is how a
/// venue says the level is gone.
pub fn normalize(venue: Exchanges, deltas: &Vec<BookDelta>) -> (updates: Vec<OBOrder>)
    ensures
        updates@ == normalized(venue, deltas@),
{
    let mut updates: Vec<OBOrder> = Vec::new();
    let mut i: usize = 0;
    while i < deltas.len()
        invariant
            i <= deltas.len(),
            updates@ == normalized(venue, deltas@.take(i as int)),
        decreases deltas.len() - i,
    {
        proof {
            assert(deltas@.take(i as int + 1).drop_last() =~= deltas@.take(i as int));
        }
        push_side(&mut updates, venue, OrderSide::Buy, &deltas[i].bids);
        push_side(&mut updates, venue, OrderSide::Sell, &deltas[i].asks);
        i = i + 1;
    }
    proof {
        assert(deltas@.take(deltas.len() as int) =~= deltas@);
    }
    updates
}

/// What the venue's stream gave.
#[derive(Debug)]
pub enum StreamEvent {
    /// A text frame that holds book messages.
    Book(Vec<BookDelta>),
    /// A frame that holds nothing for the book.
    Ignored,
    /// The venue closed the connection.
    Closed,
    /// The transport failed.
    Failed,
}

/// What the adapter does after a frame.
#[derive(Clone, Copy, Debug, PartialEq, Eq, Structural)]
pub enum StreamAction {
    /// Read the next frame.
    Continue,
    /// Leave the loop.
    Stop,
    /// Close the socket, then leave the loop.
    CloseAndStop,
}

/// The updates a frame gives rise to.
pub open spec fn stream_updates(venue: Exchanges, event: StreamEvent) -> Seq<OBOrder> {
    match event {
        StreamEvent::Book(deltas) => normalized(venue, deltas@),
        _ => Seq::empty(),
    }
}

/// What follows a frame: a closed or failed stream ends the loop; else the
/// loop goes on while the subscription is active, and closes the socket
/// once it is not.
pub open spec fn stream_action(event: StreamEvent, active: bool) -> StreamAction {
    match event {
        StreamEvent::Closed => StreamAction::Stop,
        StreamEvent::Failed => StreamAction::Stop,
        _ => if active {
            StreamAction::Continue
        } else {
            StreamAction::CloseAndStop
        },
    }
}

/// One turn of an adapter's read loop: the updates to push into the ingest
/// channel, in order, and what to do next. `active` is the subscription
/// flag as read after the frame arrived.
pub fn on_stream_event(venue: Exchanges, event: &StreamEvent, active: bool) -> (r: (
    Vec<OBOrder>,
    StreamAction,
))
    ensures
        r.0@ == stream_updates(venue, *event),
        r.1 == stream_action(*event, active),
{
    match event {
        StreamEvent::Book(deltas) => {
            let updates = normalize(venue, deltas);
            (
                updates,
                if active {
                    StreamAction::Continue
                } else {
                    StreamAction::CloseAndStop
                },
            )
        },
        StreamEvent::Ignored => (
            Vec::new(),
            if active {
                StreamAction::Continue
            } else {
                StreamAction::CloseAndStop
            },
        ),
        StreamEvent::Closed => (Vec::new(), StreamAction::Stop),
        StreamEvent::Failed => (Vec::new(), StreamAction::Stop),
    }
}

/// Ends a subscription: succeeds when one was active, and reports a closed
/// connection when none was.
pub fn unsubscribe_ob(was_active: bool) -> (r: Result<(), ExchangeError>)
    ensures
        was_active ==> r == Ok::<(), ExchangeError>(()),
        !was_active ==> r == Err::<(), ExchangeError>(ExchangeError::ConnectionClosed),
{
    if was_active {
        Ok(())
    } else {
        Err(ExchangeError::ConnectionClosed)
    }
}

/// Accepts a subscription request for the instrument the engine tracks and
/// rejects any other as an invalid symbol, naming it.
pub fn check_symbol(ticker: Symbol, symbol: &str) -> (r: Result<(), ExchangeError>)
    ensures
        symbol@ == ticker.spec_name() ==> r == Ok::<(), ExchangeError>(()),
        symbol@ != ticker.spec_name() ==> (r matches Err(ExchangeError::InvalidSymbol(s)) && s@
            == symbol@),
{
    if str_eq(symbol, ticker.name()) {
        Ok(())
    } else {
        Err(ExchangeError::InvalidSymbol(symbol.to_string()))
    }
}

/// The instrument's pair against the dollar, as Kraken and Alpaca name it.
pub fn usd_pair(symbol: Symbol) -> (pair: String)
    ensures
        pair@ == symbol.spec_name() + "/USD"@,
{
    symbol.to_string().concat("/USD")
}

/// The instrument's pair against the dollar token, as Bybit names it.
pub fn usdt_pair(symbol: Symbol) -> (pair: String)
    ensures
        pair@ == symbol.spec_name() + "USDT"@,
{
    symbol.to_string().concat("USDT")
}

/// The topic of Bybit's order-book stream for the instrument at the depth
/// the engine asks for.
pub fn bybit_topic(symbol: Symbol) -> (topic: String)
    ensures
        topic@ == "orderbook.50."@ + symbol.spec_name() + "USDT"@,
{
    let topic = "orderbook.50.".to_string().concat(symbol.name()).concat("USDT");
    proof {
        assert(topic@ =~= "orderbook.50."@ + symbol.spec_name() + "USDT"@);
    }
    topic
}

/// Parameters of Kraken's order-book subscription.
#[derive(Debug)]
pub struct OrderBookSubscribeParams {
    pub channel: String,
    pub symbol: Vec<String>,
    pub depth: usize,
    pub snapshot: bool,
}

/// Kraken's order-book subscription request.
#[derive(Debug)]
pub struct OrderBookSubscribe {
    pub method: String,
    pub params: OrderBookSubscribeParams,
}

impl OrderBookSubscribe {
    /// The request that subscribes to the instrument's book updates at the
    /// engine's depth, without an initial snapshot.
    pub fn new(symbol: Symbol) -> (r: Self)
        ensures
            r.method@ == "subscribe"@,
            r.params.channel@ == "book"@,
            r.params.symbol@.len() == 1,
            r.params.symbol@[0]@ == symbol.spec_name() + "/USD"@,
            r.params.depth == ORDER_BOOK_DEPTH,
            !r.params.snapshot,
    {
        let mut pairs: Vec<String> = Vec::new();
        pairs.push(usd_pair(symbol));
        OrderBookSubscribe {
            method: "subscribe".to_string(),
            params: OrderBookSubscribeParams {
                channel: "book".to_string(),
                symbol: pairs,
                depth: ORDER_BOOK_DEPTH,
                snapshot: false,
            },
        }
    }
}

/// Whether `needle` stands in `hay` at offset `k`.
pub open spec fn occurs_at(needle: Seq<u8>, hay: Seq<u8>, k: int) -> bool {
    0 <= k && k + needle.len() <= hay.len() && hay.subrange(k, k + needle.len()) == needle
}

/// Whether `needle` stands somewhere in `hay`.
pub open spec fn occurs_in(needle: Seq<u8>, hay: Seq<u8>) -> bool {
    exists|k: int| occurs_at(needle, hay, k)
}

/// Whether the bytes of `needle` stand somewhere in `hay`.
pub fn bytes_contain(hay: &[u8], needle: &[u8]) -> (r: bool)
    ensures
        r == occurs_in(needle@, hay@),
{
    let n: usize = needle.len();
    if n > hay.len() {
        proof {
            assert forall|k: int| !occurs_at(needle@, hay@, k) by {}
        }
        return false;
    }
    let last: usize = hay.len() - n;
    let mut k: usize = 0;
    while k <= last
        invariant
            n == needle.len(),
            n <= hay.len(),
            last == hay.len() - n,
            k <= last + 1,
            forall|c: int| 0 <= c < k ==> !occurs_at(needle@, hay@, c),
        decreases last + 1 - k,
    {
        let mut i: usize = 0;
        while i < n && hay[k + i] == needle[i]
            invariant
                n == needle.len(),
                k + n <= hay.len(),
                i <= n,
                forall|j: int| 0 <= j < i ==> hay@[k + j] == needle@[j],
            decreases n - i,
        {
            i = i + 1;
        }
        if i == n {
            proof {
                assert(hay@.subrange(k as int, k + n) =~= needle@);
                assert(occurs_at(needle@, hay@, k as int));
            }
            return true;
        }
        proof {
            assert(hay@.subrange(k as int, k + n)[i as int] == hay@[k + i]);
        }
        k = k + 1;
    }
    proof {
        assert forall|c: int| !occurs_at(needle@, hay@, c) by {}
    }
    false
}

/// What the socket gave while the adapter signs in.
#[derive(Debug)]
pub enum HandshakeFrame {
    /// A text frame and its text.
    Text(String),
    /// The venue closed the connection.
    Close,
    /// The transport failed; the text is its description.
    Error(String),
    /// Any other frame, or the end of the stream.
    Other,
}

/// The steps of Alpaca's sign-in, each named by the reply it waits for.
#[derive(Clone, Copy, Debug, PartialEq, Eq, Structural)]
pub enum HandshakeStage {
    /// Connected; the venue's greeting is due.
    Welcome,
    /// Credentials sent; the venue's confirmation is due.
    Authenticated,
}

/// What the adapter sends once a step is confirmed.
#[derive(Clone, Copy, Debug, PartialEq, Eq, Structural)]
pub enum HandshakeAction {
    /// Send the credentials, then wait for the confirmation.
    SendAuth,
    /// Send the subscription, then start reading book messages.
    SendSubscribe,
}

impl HandshakeStage {
    /// The word a text reply must hold for the step to count as confirmed.
    pub open spec fn spec_keyword(self) -> Seq<u8> {
        match self {
            HandshakeStage::Welcome => encode_utf8("success"@),
            HandshakeStage::Authenticated => encode_utf8("authenticated"@),
        }
    }

    /// The word a text reply must hold for the step to count as confirmed.
    pub fn keyword(self) -> (r: &'static str)
        ensures
            encode_utf8(r@) == self.spec_keyword(),
    {
        match self {
            HandshakeStage::Welcome => "success",
            HandshakeStage::Authenticated => "authenticated",
        }
    }

    /// What is sent once this step is confirmed.
    pub open spec fn spec_action(self) -> HandshakeAction {
        match self {
            HandshakeStage::Welcome => HandshakeAction::SendAuth,
            HandshakeStage::Authenticated => HandshakeAction::SendSubscribe,
        }
    }
}

/// Reads the venue's reply to one step of the sign-in. A text reply
/// confirms the step when it holds the step's keyword and fails the
/// sign-in when it does not; a close frame reports a closed connection, a
/// transport failure is passed on, and anything else counts as confirmed.
pub fn alpaca_handshake(stage: HandshakeStage, frame: &HandshakeFrame) -> (r: Result<
    HandshakeAction,
    ExchangeError,
>)
    ensures
        match *frame {
            HandshakeFrame::Text(text) => if occurs_in(stage.spec_keyword(), encode_utf8(text@)) {
                r == Ok::<HandshakeAction, ExchangeError>(stage.spec_action())
            } else {
                (r matches Err(ExchangeError::SubscriptionFailed(s)) && s@
                    == authentication_failed_text())
            },
            HandshakeFrame::Close => r == Err::<HandshakeAction, ExchangeError>(
                ExchangeError::ConnectionClosed,
            ),
            HandshakeFrame::Error(detail) => (r matches Err(ExchangeError::WebSocketError(s))
                && s@ == detail@),
            HandshakeFrame::Other => r == Ok::<HandshakeAction, ExchangeError>(stage.spec_action()),
        },
{
    let action = match stage {
        HandshakeStage::Welcome => HandshakeAction::SendAuth,
        HandshakeStage::Authenticated => HandshakeAction::SendSubscribe,
    };
    match frame {
        HandshakeFrame::Text(text) => {
            if bytes_contain(text.as_str().as_bytes(), stage.keyword().as_bytes()) {
                Ok(action)
            } else {
                Err(ExchangeError::authentication_failed())
            }
        },
        HandshakeFrame::Close => Err(ExchangeError::ConnectionClosed),
        HandshakeFrame::Error(detail) => Err(ExchangeError::WebSocketError(detail.clone())),
        HandshakeFrame::Other => Ok(action),
    }
}

/// The update that vacates the quote's entry on `side`.
pub open spec fn retraction(side: OrderSide, quote: Quote) -> OBOrder {
    OBOrder { exchange: quote.exchange, side, volume: 0, price: quote.price }
}

/// One vacating update per quote, in the order of the quotes.
pub open spec fn retractions(side: OrderSide, quotes: Seq<Quote>) -> Seq<OBOrder> {
    Seq::new(quotes.len(), |i: int| retraction(side, quotes[i]))
}

/// What a venue has on offer on `side` after it sent `updates`, given what
/// it had on offer before: the updates of that side applied in order.
pub open spec fn recorded(m: Ladder, updates: Seq<OBOrder>, side: OrderSide) -> Ladder
    decreases updates.len(),
{
    if updates.len() == 0 {
        m
    } else {
        let before = recorded(m, updates.drop_last(), side);
        if updates.last().side == side {
            apply_update(before, updates.last())
        } else {
            before
        }
    }
}

/// The updates that vacate everything a venue has on offer: its bids from
/// the highest down, then its asks from the lowest up.
pub open spec fn farewell(bids: Ladder, asks: Ladder) -> Seq<OBOrder> {
    retractions(OrderSide::Buy, traversal(bids, true)) + retractions(
        OrderSide::Sell,
        traversal(asks, false),
    )
}

/// After the vacating updates of some quotes are applied to a book, none
/// of those quotes' venues is left at the quote's price.
pub proof fn lemma_retractions_vacate(m: Ladder, side: OrderSide, quotes: Seq<Quote>)
    requires
        book_invariant(m),
    ensures
        book_invariant(apply_all(m, retractions(side, quotes))),
        forall|i: int|
            0 <= i < quotes.len() ==> !has_venue(
                level_queue(apply_all(m, retractions(side, quotes)), (#[trigger] quotes[i]).price),
                quotes[i].exchange,
            ),
    decreases quotes.len(),
{
    let all = retractions(side, quotes);
    lemma_stream_preserves_invariant(m, all);
    if quotes.len() > 0 {
        let front = quotes.drop_last();
        let last = retraction(side, quotes.last());
        assert(all.drop_last() =~= retractions(side, front));
        assert(all.last() == last);
        let before = apply_all(m, retractions(side, front));
        lemma_retractions_vacate(m, side, front);
        lemma_zero_volume_deletes(before, last);
        assert forall|i: int| 0 <= i < quotes.len() implies !has_venue(
            level_queue(apply_all(m, all), (#[trigger] quotes[i]).price),
            quotes[i].exchange,
        ) by {
            if i < quotes.len() - 1 {
                assert(front[i] == quotes[i]);
                lemma_zero_volume_adds_nothing(before, last, quotes[i].price, quotes[i].exchange);
            }
        }
    }
}

/// Appends the vacating update of every quote to `out`.
fn push_retractions(out: &mut Vec<OBOrder>, side: OrderSide, quotes: &Vec<Quote>)
    ensures
        final(out)@ == old(out)@ + retractions(side, quotes@),
{
    let mut i: usize = 0;
    while i < quotes.len()
        invariant
            i <= quotes.len(),
            out@ == old(out)@ + retractions(side, quotes@.take(i as int)),
        decreases quotes.len() - i,
    {
        let quote = quotes[i];
        out.push(OBOrder::new(quote.exchange, side, 0, quote.price));
        proof {
            assert(retractions(side, quotes@.take(i as int + 1)) =~= retractions(
                side,
                quotes@.take(i as int),
            ).push(retraction(side, quote)));
        }
        i = i + 1;
    }
    proof {
        assert(quotes@.take(quotes.len() as int) =~= quotes@);
    }
}

/// One venue's stream as its adapter sees it: the venue, and what the
/// venue has on offer according to the updates emitted so far. When the
/// stream ends, the adapter vacates all of it, so that no level of a venue
/// that went away lingers in the consolidated book.
pub struct VenueStream {
    venue: Exchanges,
    bids: SideOrderBook,
    asks: SideOrderBook,
}

impl VenueStream {
    pub closed spec fn wf(&self) -> bool {
        &&& self.bids.wf()
        &&& self.asks.wf()
        &&& self.bids.side() == OrderSide::Buy
        &&& self.asks.side() == OrderSide::Sell
    }

    /// The venue whose stream this is.
    pub closed spec fn venue(&self) -> Exchanges {
        self.venue
    }

    /// What the venue has on offer on `side`, as far as it told.
    pub closed spec fn advertised(&self, side: OrderSide) -> Ladder {
        match side {
            OrderSide::Buy => self.bids@,
            OrderSide::Sell => self.asks@,
        }
    }

    /// The stream of `venue` before its first frame.
    pub fn new(venue: Exchanges) -> (stream: Self)
        ensures
            stream.wf(),
            stream.venue() == venue,
            stream.advertised(OrderSide::Buy) == Map::<u64, Seq<LevelEntry>>::empty(),
            stream.advertised(OrderSide::Sell) == Map::<u64, Seq<LevelEntry>>::empty(),
    {
        VenueStream { venue, bids: SideOrderBook::new(true), asks: SideOrderBook::new(false) }
    }

    /// One turn of the adapter's read loop. The frame's updates come
    /// first, as [`on_stream_event`] gives them. Where the loop ends with
    /// this frame, the updates that vacate everything the venue still had
    /// on offer follow, and the record of it is cleared.
    pub fn on_event(&mut self, event: &StreamEvent, active: bool) -> (r: (
        Vec<OBOrder>,
        StreamAction,
    ))
        requires
            old(self).wf(),
        ensures
            final(self).wf(),
            final(self).venue() == old(self).venue(),
            r.1 == stream_action(*event, active),
            ({
                let fresh = stream_updates(old(self).venue(), *event);
                let bids = recorded(old(self).advertised(OrderSide::Buy), fresh, OrderSide::Buy);
                let asks = recorded(old(self).advertised(OrderSide::Sell), fresh, OrderSide::Sell);
                if r.1 == StreamAction::Continue {
                    &&& r.0@ == fresh
                    &&& final(self).advertised(OrderSide::Buy) == bids
                    &&& final(self).advertised(OrderSide::Sell) == asks
                } else {
                    &&& r.0@ == fresh + farewell(bids, asks)
                    &&& final(self).advertised(OrderSide::Buy) == Map::<
                        u64,
                        Seq<LevelEntry>,
                    >::empty()
                    &&& final(self).advertised(OrderSide::Sell) == Map::<
                        u64,
                        Seq<LevelEntry>,
                    >::empty()
                }
            }),
    {
        let (mut updates, action) = on_stream_event(self.venue, event, active);
        let ghost fresh = updates@;
        let mut i: usize = 0;
        while i < updates.len()
            invariant
                i <= updates.len(),
                updates@ == fresh,
                self.wf(),
                self.venue == old(self).venue,
                self.bids@ == recorded(old(self).bids@, fresh.take(i as int), OrderSide::Buy),
                self.asks@ == recorded(old(self).asks@, fresh.take(i as int), OrderSide::Sell),
            decreases updates.len() - i,
        {
            let update = updates[i];
            proof {
                assert(fresh.take(i as int + 1).drop_last() =~= fresh.take(i as int));
            }
            match update.side {
                OrderSide::Buy => {
                    self.bids.process_order(update);
                },
                OrderSide::Sell => {
                    self.asks.process_order(update);
                },
            }
            i = i + 1;
        }
        proof {
            assert(fresh.take(updates.len() as int) =~= fresh);
        }
        match action {
            StreamAction::Continue => {},
            _ => {
                let bids = self.bids.entries();
                let asks = self.asks.entries();
                push_retractions(&mut updates, OrderSide::Buy, &bids);
                push_retractions(&mut updates, OrderSide::Sell, &asks);
                self.bids = SideOrderBook::new(true);
                self.asks = SideOrderBook::new(false);
            },
        }
        (updates, action)
    }
}

} // verus!
