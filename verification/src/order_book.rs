//! The side book: one side's price levels with their venue queues, the
//! application of updates to it and the volume sweep over it.
use vstd::prelude::*;
use crate::errors::{insufficient_volume_text, OrderBookError};
use crate::ladder::{
    ascending, flatten, ladder_of, lemma_flatten_prefix, lemma_ladder_finite, lemma_ladder_insert,
    lemma_ladder_lookup, lemma_ladder_remove, lemma_ladder_update, lemma_traversal_is_flatten,
    priority_order, rung_index, Rung,
};
use crate::model::{
    apply_update, book_invariant, has_venue, lemma_queue_apply_invariant,
    lemma_venue_index_unique, level_queue, queue_invariant, Ladder, LevelEntry,
};
use crate::sweep::{
    better_or_equal, filled, last_take, lemma_best_price_exists, lemma_filled_bounds,
    lemma_sweep_saturated, level_quotes, liquidity, notional, traversal, venue_filled, vwap,
    Quote,
};
use crate::types::{Exchanges, OBOrder, OrderRequest, OrderSide, PriceResponse};

verus! {

/// One price level as it is stored.
struct Level {
    price: u64,
    queue: Vec<LevelEntry>,
}

/// One side of the consolidated book. Its levels are kept in strictly
/// ascending price; its view is the map from price to queue.
pub struct SideOrderBook {
    levels: Vec<Level>,
    is_buy: bool,
    active: bool,
}

/// What a sweep consumed: the volume filled, its split across venues, and
/// the sum of price times volume over everything taken.
#[derive(Clone, Copy, Debug, PartialEq, Eq, Structural)]
pub struct Fill {
    pub total_volume: u64,
    pub alpaca_volume: u64,
    pub kraken_volume: u64,
    pub bybit_volume: u64,
    pub weighted_price_sum: u128,
}

/// What reaches a side worker.
#[derive(Clone, Copy, Debug, PartialEq, Eq, Structural)]
pub enum WorkerEvent {
    /// An update for this side arrived.
    Update(OBOrder),
    /// A quote query for this side arrived.
    Query(OrderRequest),
    /// Both input channels are closed.
    Closed,
}

/// What a side worker does next.
#[derive(Debug, PartialEq, Eq)]
pub enum WorkerAction {
    /// Wait for the next message.
    Continue,
    /// Send this answer on the query's reply channel, then wait for the
    /// next message.
    Reply(Result<PriceResponse, OrderBookError>),
    /// Leave the message loop.
    Exit,
}

/// The answer to a quote query for `order.volume` units on a book whose
/// quotes, in sweep order, are `qs`.
pub open spec fn quote_response(qs: Seq<Quote>, side: OrderSide, order: OrderRequest)
    -> PriceResponse {
    let t = order.volume as nat;
    PriceResponse {
        symbol: order.symbol,
        total_volume: filled(qs, t) as u64,
        side,
        alpaca_volume: venue_filled(qs, t, Exchanges::Alpaca) as u64,
        kraken_volume: venue_filled(qs, t, Exchanges::Kraken) as u64,
        bybit_volume: venue_filled(qs, t, Exchanges::Bybit) as u64,
        vwap: vwap(qs, t) as u64,
    }
}

/// Whether `r` is what a quote query must return: `InactiveOrderBook` from
/// a drained book; else the response of [`quote_response`] exactly when
/// the volume asked for is positive and on offer, and `InsufficientVolume`
/// when it is not.
pub open spec fn is_quote_outcome(
    r: Result<PriceResponse, OrderBookError>,
    qs: Seq<Quote>,
    active: bool,
    side: OrderSide,
    order: OrderRequest,
) -> bool {
    if !active {
        r == Err::<PriceResponse, OrderBookError>(OrderBookError::InactiveOrderBook)
    } else if 0 < order.volume <= liquidity(qs) {
        r == Ok::<PriceResponse, OrderBookError>(quote_response(qs, side, order))
    } else {
        r matches Err(OrderBookError::InsufficientVolume(s)) && s@ == insufficient_volume_text()
    }
}

impl View for SideOrderBook {
    type V = Ladder;

    closed spec fn view(&self) -> Ladder {
        ladder_of(self.rungs())
    }
}

impl SideOrderBook {
    spec fn rungs(&self) -> Seq<Rung> {
        Seq::new(self.levels.len() as nat, |i: int| (self.levels[i].price, self.levels[i].queue@))
    }

    /// The representation is sound: prices strictly ascend and every
    /// level's queue satisfies the queue invariant.
    pub closed spec fn wf(&self) -> bool {
        &&& ascending(self.rungs())
        &&& forall|i: int|
            0 <= i < self.levels.len() ==> queue_invariant((#[trigger] self.levels[i]).queue@)
    }

    /// Which side of the market this book holds.
    pub closed spec fn side(&self) -> OrderSide {
        if self.is_buy {
            OrderSide::Buy
        } else {
            OrderSide::Sell
        }
    }

    /// Whether the book still serves queries.
    pub closed spec fn is_active(&self) -> bool {
        self.active
    }

    /// The book's quotes in the order a sweep of this side visits them.
    pub open spec fn quotes(&self) -> Seq<Quote> {
        traversal(self@, self.side() == OrderSide::Buy)
    }

    /// In every side book each price level that is present has a non-empty
    /// queue in which no venue occurs twice and no volume is zero.
    pub proof fn lemma_invariant(&self)
        requires
            self.wf(),
        ensures
            book_invariant(self@),
    {
        let s = self.rungs();
        lemma_ladder_finite(s);
        lemma_ladder_lookup(s);
        assert forall|p: u64| #[trigger] self@.contains_key(p) implies queue_invariant(
            self@[p],
        ) by {
            let k = rung_index(s, p);
            assert(0 <= k < s.len() && s[k].0 == p);
            assert(self@[s[k].0] == s[k].1);
            assert(queue_invariant(self.levels[k].queue@));
        }
    }

    /// An empty, active book for one side.
    pub fn new(is_buy: bool) -> (book: Self)
        ensures
            book.wf(),
            book@ == Map::<u64, Seq<LevelEntry>>::empty(),
            book.side() == (if is_buy {
                OrderSide::Buy
            } else {
                OrderSide::Sell
            }),
            book.is_active(),
    {
        let book = SideOrderBook { levels: Vec::new(), is_buy, active: true };
        proof {
            assert(book.rungs() =~= Seq::<Rung>::empty());
            assert(book@ =~= Map::<u64, Seq<LevelEntry>>::empty());
        }
        book
    }

    /// Which side of the market this book holds.
    pub fn get_side(&self) -> (s: OrderSide)
        ensures
            s == self.side(),
    {
        if self.is_buy {
            OrderSide::Buy
        } else {
            OrderSide::Sell
        }
    }

    /// Whether the book still serves queries.
    pub fn active(&self) -> (a: bool)
        ensures
            a == self.is_active(),
    {
        self.active
    }

    /// Stops serving queries; the levels stay as they are.
    pub fn deactivate(&mut self)
        ensures
            !final(self).is_active(),
            final(self)@ == old(self)@,
            final(self).side() == old(self).side(),
            old(self).wf() ==> final(self).wf(),
    {
        self.active = false;
        proof {
            assert(self.rungs() =~= old(self).rungs());
        }
    }

    /// The number of price levels.
    pub fn level_count(&self) -> (n: usize)
        requires
            self.wf(),
        ensures
            n == self@.dom().len(),
    {
        proof {
            lemma_ladder_finite(self.rungs());
        }
        self.levels.len()
    }

    /// Finds the level with the given price by bisection. Returns its
    /// index and `true`, or the index at which a level with that price
    /// belongs and `false`.
    fn find_level(&self, price: u64) -> (r: (usize, bool))
        requires
            self.wf(),
        ensures
            r.0 <= self.levels.len(),
            r.1 ==> r.0 < self.levels.len() && self.levels[r.0 as int].price == price,
            !r.1 ==> forall|k: int| 0 <= k < r.0 ==> (#[trigger] self.levels[k]).price < price,
            !r.1 ==> forall|k: int|
                r.0 <= k < self.levels.len() ==> price < (#[trigger] self.levels[k]).price,
    {
        let mut lo: usize = 0;
        let mut hi: usize = self.levels.len();
        while lo < hi
            invariant
                lo <= hi <= self.levels.len(),
                self.wf(),
                forall|k: int| 0 <= k < lo ==> (#[trigger] self.levels[k]).price < price,
                forall|k: int|
                    hi <= k < self.levels.len() ==> price < (#[trigger] self.levels[k]).price,
            decreases hi - lo,
        {
            let mid: usize = lo + (hi - lo) / 2;
            let p: u64 = self.levels[mid].price;
            if p == price {
                return (mid, true);
            } else if p < price {
                proof {
                    assert forall|k: int| 0 <= k < mid + 1 implies (#[trigger] self.levels[k]).price
                        < price by {
                        if k < mid {
                            assert(self.rungs()[k].0 < self.rungs()[mid as int].0);
                        }
                    }
                }
                lo = mid + 1;
            } else {
                proof {
                    assert forall|k: int| mid <= k < self.levels.len() implies price < (
                    #[trigger] self.levels[k]).price by {
                        if mid < k {
                            assert(self.rungs()[mid as int].0 < self.rungs()[k].0);
                        }
                    }
                }
                hi = mid;
            }
        }
        (lo, false)
    }

    /// Applies one update: the venue's resting size at the update's price
    /// becomes the update's volume. A positive volume replaces the venue's
    /// entry in place or joins the end of the queue; volume zero removes
    /// the entry, and the price level with it when it was the last one.
    pub fn process_order(&mut self, order: OBOrder)
        requires
            old(self).wf(),
        ensures
            final(self).wf(),
            final(self)@ == apply_update(old(self)@, order),
            final(self).side() == old(self).side(),
            final(self).is_active() == old(self).is_active(),
    {
        let price: u64 = order.price;
        let entry = LevelEntry { exchange: order.exchange, volume: order.volume };
        let ghost s0 = self.rungs();
        let ghost m0 = self@;
        proof {
            lemma_ladder_lookup(s0);
        }
        let (i, found) = self.find_level(price);
        if found {
            let ghost q0 = self.levels[i as int].queue@;
            assert(s0[i as int].0 == price);
            assert(m0.contains_key(price) && m0[price] == q0);
            assert(level_queue(m0, price) == q0);
            assert(queue_invariant(q0));
            let n: usize = self.levels[i].queue.len();
            let mut j: usize = 0;
            while j < n && self.levels[i].queue[j].exchange != order.exchange
                invariant
                    j <= n,
                    i < self.levels.len(),
                    n == self.levels[i as int].queue.len(),
                    forall|k: int|
                        0 <= k < j ==> (#[trigger] self.levels[i as int].queue[k]).exchange
                            != order.exchange,
                decreases n - j,
            {
                j += 1;
            }
            if j < n {
                proof {
                    lemma_venue_index_unique(q0, order.exchange, j as int);
                }
                if order.volume == 0 {
                    if n == 1 {
                        self.levels.remove(i);
                        proof {
                            assert(q0.remove(j as int).len() == 0);
                            assert(self.rungs() =~= s0.remove(i as int));
                            lemma_ladder_remove(s0, i as int);
                        }
                    } else {
                        self.levels[i].queue.remove(j);
                        proof {
                            let q1 = q0.remove(j as int);
                            assert(self.rungs() =~= s0.update(i as int, (price, q1)));
                            lemma_ladder_update(s0, i as int, q1);
                            lemma_queue_apply_invariant(
                                q0,
                                order.exchange,
                                order.volume,
                            );
                        }
                    }
                } else {
                    self.levels[i].queue[j].volume = order.volume;
                    proof {
                        let q1 = q0.update(j as int, entry);
                        assert(self.levels[i as int].queue@ =~= q1);
                        assert(self.rungs() =~= s0.update(i as int, (price, q1)));
                        lemma_ladder_update(s0, i as int, q1);
                        lemma_queue_apply_invariant(
                            q0,
                            order.exchange,
                            order.volume,
                        );
                    }
                }
            } else {
                assert(!has_venue(q0, order.exchange));
                if order.volume != 0 {
                    self.levels[i].queue.push(entry);
                    proof {
                        let q1 = q0.push(entry);
                        assert(self.rungs() =~= s0.update(i as int, (price, q1)));
                        lemma_ladder_update(s0, i as int, q1);
                        lemma_queue_apply_invariant(
                            q0,
                            order.exchange,
                            order.volume,
                        );
                    }
                } else {
                    proof {
                        assert(m0.insert(price, q0) =~= m0);
                    }
                }
            }
        } else {
            proof {
                assert(!m0.contains_key(price)) by {
                    if m0.contains_key(price) {
                        let k = rung_index(s0, price);
                        assert(0 <= k < s0.len() && s0[k].0 == price);
                        assert(self.levels[k].price == price);
                    }
                }
                assert(level_queue(m0, price) == Seq::<LevelEntry>::empty());
                assert(!has_venue(Seq::<LevelEntry>::empty(), order.exchange));
            }
            if order.volume != 0 {
                let mut queue: Vec<LevelEntry> = Vec::new();
                queue.push(entry);
                let ghost q1 = queue@;
                self.levels.insert(i, Level { price, queue });
                proof {
                    assert(q1 =~= Seq::<LevelEntry>::empty().push(entry));
                    assert forall|k: int| 0 <= k < i implies (#[trigger] s0[k]).0 < price by {
                        assert(old(self).levels[k].price < price);
                    }
                    assert forall|k: int| i <= k < s0.len() implies price < (#[trigger] s0[k]).0 by {
                        assert(price < old(self).levels[k].price);
                    }
                    assert(self.rungs() =~= s0.insert(i as int, (price, q1)));
                    lemma_ladder_insert(s0, i as int, (price, q1));
                    assert(queue_invariant(q1));
                }
            } else {
                proof {
                    assert(m0.remove(price) =~= m0);
                }
            }
        }
        proof {
            assert(self.wf()) by {
                assert(ascending(self.rungs()));
                assert forall|k: int| 0 <= k < self.levels.len() implies queue_invariant(
                    (#[trigger] self.levels[k]).queue@,
                ) by {
                    assert(self.rungs()[k].1 == self.levels[k].queue@);
                }
            }
        }
    }

    /// Sweeps the book for `target` units without changing it: walks the
    /// quotes from the best price outward, each level front to back, and
    /// takes from each what is still missing, until the target is met or
    /// the book is exhausted.
    pub fn sweep(&self, target: u64) -> (fill: Fill)
        requires
            self.wf(),
        ensures
            fill.total_volume == filled(self.quotes(), target as nat),
            fill.weighted_price_sum == notional(self.quotes(), target as nat),
            fill.alpaca_volume == venue_filled(self.quotes(), target as nat, Exchanges::Alpaca),
            fill.kraken_volume == venue_filled(self.quotes(), target as nat, Exchanges::Kraken),
            fill.bybit_volume == venue_filled(self.quotes(), target as nat, Exchanges::Bybit),
            fill.alpaca_volume + fill.kraken_volume + fill.bybit_volume == fill.total_volume,
            fill.total_volume <= target,
            fill.weighted_price_sum <= u64::MAX * fill.total_volume,
    {
        let ghost t = target as nat;
        let ghost order = priority_order(self.rungs(), self.is_buy);
        let ghost all = flatten(order);
        proof {
            lemma_traversal_is_flatten(self.rungs(), self.is_buy);
            assert(all == self.quotes());
        }
        let n: usize = self.levels.len();
        let mut total: u64 = 0;
        let mut alpaca: u64 = 0;
        let mut kraken: u64 = 0;
        let mut bybit: u64 = 0;
        let mut weighted: u128 = 0;
        let ghost mut done: Seq<Quote> = Seq::empty();
        let mut k: usize = 0;
        proof {
            assert(order.take(0) =~= Seq::<Rung>::empty());
        }
        while k < n && total < target
            invariant
                self.wf(),
                n == self.levels.len(),
                k <= n,
                t == target,
                order == priority_order(self.rungs(), self.is_buy),
                all == flatten(order),
                done.is_prefix_of(all),
                total < target ==> done == flatten(order.take(k as int)),
                total == filled(done, t),
                weighted == notional(done, t),
                alpaca == venue_filled(done, t, Exchanges::Alpaca),
                kraken == venue_filled(done, t, Exchanges::Kraken),
                bybit == venue_filled(done, t, Exchanges::Bybit),
                alpaca + kraken + bybit == total,
                total <= target,
                weighted <= u64::MAX * total,
            decreases n - k,
        {
            let idx: usize = if self.is_buy {
                n - 1 - k
            } else {
                k
            };
            let level = &self.levels[idx];
            let m: usize = level.queue.len();
            let ghost lq = level_quotes(level.price, level.queue@);
            proof {
                assert(order[k as int] == self.rungs()[idx as int]);
                assert(order[k as int] == (level.price, level.queue@));
                assert(lq.take(0) =~= Seq::<Quote>::empty());
                assert(done + lq.take(0) =~= done);
            }
            let mut j: usize = 0;
            while j < m && total < target
                invariant
                    self.wf(),
                    n == self.levels.len(),
                    k < n,
                    idx < n,
                    t == target,
                    level == &self.levels[idx as int],
                    m == level.queue.len(),
                    j <= m,
                    order.len() == n,
                    order[k as int] == (level.price, level.queue@),
                    lq == level_quotes(level.price, level.queue@),
                    all == flatten(order),
                    done.is_prefix_of(all),
                    total < target ==> done == flatten(order.take(k as int)) + lq.take(j as int),
                    total == filled(done, t),
                    weighted == notional(done, t),
                    alpaca == venue_filled(done, t, Exchanges::Alpaca),
                    kraken == venue_filled(done, t, Exchanges::Kraken),
                    bybit == venue_filled(done, t, Exchanges::Bybit),
                    alpaca + kraken + bybit == total,
                    total <= target,
                    weighted <= u64::MAX * total,
                decreases m - j,
            {
                let e: LevelEntry = level.queue[j];
                let missing: u64 = target - total;
                let avail: u64 = if e.volume < missing {
                    e.volume
                } else {
                    missing
                };
                let ghost quote = Quote { price: level.price, exchange: e.exchange, volume: e.volume };
                let ghost next = done.push(quote);
                proof {
                    assert(lq[j as int] == quote);
                    assert(lq.take(j as int + 1) =~= lq.take(j as int).push(quote));
                    assert(next =~= flatten(order.take(k as int)) + lq.take(j as int + 1));
                    lemma_flatten_prefix(order, k as int, j as int + 1);
                    assert(next.drop_last() =~= done);
                    assert(next.last() == quote);
                    assert(liquidity(next) == liquidity(done) + e.volume);
                    assert(filled(next, t) == total + avail);
                    assert(last_take(next, t) == avail);
                    assert(level.price as nat * (avail as nat) <= u64::MAX * (avail as nat))
                        by (nonlinear_arith)
                        requires
                            level.price <= u64::MAX,
                    ;
                    assert(u64::MAX * total + u64::MAX * (avail as nat) == u64::MAX * (total
                        + avail)) by (nonlinear_arith);
                    assert(u64::MAX * (total + avail) <= u64::MAX * u64::MAX) by (nonlinear_arith)
                        requires
                            total + avail <= u64::MAX,
                    ;
                }
                total = total + avail;
                weighted = weighted + (level.price as u128) * (avail as u128);
                match e.exchange {
                    Exchanges::Alpaca => {
                        alpaca = alpaca + avail;
                    },
                    Exchanges::Kraken => {
                        kraken = kraken + avail;
                    },
                    Exchanges::Bybit => {
                        bybit = bybit + avail;
                    },
                }
                proof {
                    done = next;
                }
                j = j + 1;
            }
            proof {
                if total < target {
                    lemma_flatten_prefix(order, k as int, m as int);
                    assert(lq.take(m as int) =~= lq);
                }
            }
            k = k + 1;
        }
        proof {
            if total < target {
                assert(order.take(n as int) =~= order);
                assert(done == all);
            } else {
                lemma_filled_bounds(done, t);
                lemma_sweep_saturated(done, all, t);
            }
        }
        Fill {
            total_volume: total,
            alpaca_volume: alpaca,
            kraken_volume: kraken,
            bybit_volume: bybit,
            weighted_price_sum: weighted,
        }
    }

    /// Answers a quote query from the book as it stands, without changing
    /// it. A drained book answers `InactiveOrderBook`. Otherwise the
    /// request's volume is swept: where it is positive and the book holds
    /// that much, the answer is the fill with its average price; where the
    /// book holds less, or the volume is zero, it is `InsufficientVolume`.
    pub fn get_best_quote(&self, order: OrderRequest) -> (r: Result<PriceResponse, OrderBookError>)
        requires
            self.wf(),
        ensures
            is_quote_outcome(r, self.quotes(), self.is_active(), self.side(), order),
    {
        if !self.active {
            return Err(OrderBookError::InactiveOrderBook);
        }
        let fill = self.sweep(order.volume);
        if fill.total_volume == 0 || fill.total_volume < order.volume {
            return Err(OrderBookError::insufficient_volume());
        }
        proof {
            let w = fill.weighted_price_sum as int;
            let f = fill.total_volume as int;
            assert(w / f <= u64::MAX) by (nonlinear_arith)
                requires
                    0 < f,
                    0 <= w <= u64::MAX * f,
            ;
        }
        let average: u64 = (fill.weighted_price_sum / (fill.total_volume as u128)) as u64;
        Ok(
            PriceResponse {
                symbol: order.symbol,
                total_volume: fill.total_volume,
                side: self.get_side(),
                alpaca_volume: fill.alpaca_volume,
                kraken_volume: fill.kraken_volume,
                bybit_volume: fill.bybit_volume,
                vwap: average,
            },
        )
    }

    /// One turn of the side worker: applies an update, answers a query, or
    /// winds down when its inputs are closed. A query leaves the book
    /// exactly as it was. A drained worker ignores whatever arrives.
    pub fn handle(&mut self, event: WorkerEvent) -> (action: WorkerAction)
        requires
            old(self).wf(),
        ensures
            final(self).wf(),
            final(self).side() == old(self).side(),
            !old(self).is_active() ==> {
                &&& action == WorkerAction::Exit
                &&& *final(self) == *old(self)
            },
            old(self).is_active() ==> match event {
                WorkerEvent::Update(order) => {
                    &&& action == WorkerAction::Continue
                    &&& final(self)@ == apply_update(old(self)@, order)
                    &&& final(self).is_active()
                },
                WorkerEvent::Query(request) => {
                    &&& action matches WorkerAction::Reply(r)
                    &&& is_quote_outcome(r, old(self).quotes(), true, old(self).side(), request)
                    &&& *final(self) == *old(self)
                },
                WorkerEvent::Closed => {
                    &&& action == WorkerAction::Exit
                    &&& final(self)@ == old(self)@
                    &&& !final(self).is_active()
                },
            },
    {
        if !self.active {
            return WorkerAction::Exit;
        }
        match event {
            WorkerEvent::Update(order) => {
                self.process_order(order);
                WorkerAction::Continue
            },
            WorkerEvent::Query(request) => {
                let r = self.get_best_quote(request);
                WorkerAction::Reply(r)
            },
            WorkerEvent::Closed => {
                self.deactivate();
                WorkerAction::Exit
            },
        }
    }

    /// The queue resting at `price`, front first; empty where the book has
    /// no such level.
    pub fn queue_at(&self, price: u64) -> (queue: Vec<LevelEntry>)
        requires
            self.wf(),
        ensures
            queue@ == level_queue(self@, price),
    {
        let ghost s = self.rungs();
        proof {
            lemma_ladder_lookup(s);
        }
        let (i, found) = self.find_level(price);
        let mut queue: Vec<LevelEntry> = Vec::new();
        if found {
            assert(s[i as int].0 == price);
            let level = &self.levels[i];
            let mut j: usize = 0;
            while j < level.queue.len()
                invariant
                    j <= level.queue.len(),
                    queue@ == level.queue@.take(j as int),
                decreases level.queue.len() - j,
            {
                queue.push(level.queue[j]);
                proof {
                    assert(level.queue@.take(j as int + 1) =~= level.queue@.take(j as int).push(
                        level.queue@[j as int],
                    ));
                }
                j = j + 1;
            }
            proof {
                assert(level.queue@.take(level.queue.len() as int) =~= level.queue@);
            }
        } else {
            proof {
                if self@.contains_key(price) {
                    let k = rung_index(s, price);
                    assert(0 <= k < s.len() && s[k].0 == price);
                    assert(self.levels[k].price == price);
                }
            }
        }
        queue
    }

    /// The prices of all levels, ascending.
    pub fn prices(&self) -> (prices: Vec<u64>)
        requires
            self.wf(),
        ensures
            prices@.len() == self@.dom().len(),
            forall|i: int, j: int| 0 <= i < j < prices@.len() ==> prices@[i] < prices@[j],
            forall|p: u64| prices@.contains(p) <==> self@.contains_key(p),
    {
        let ghost s = self.rungs();
        proof {
            lemma_ladder_lookup(s);
            lemma_ladder_finite(s);
        }
        let mut prices: Vec<u64> = Vec::new();
        let mut i: usize = 0;
        while i < self.levels.len()
            invariant
                i <= self.levels.len(),
                s == self.rungs(),
                prices@.len() == i,
                forall|k: int| 0 <= k < i ==> prices@[k] == (#[trigger] s[k]).0,
            decreases self.levels.len() - i,
        {
            prices.push(self.levels[i].price);
            i = i + 1;
        }
        proof {
            assert forall|a: int, b: int| 0 <= a < b < prices@.len() implies prices@[a]
                < prices@[b] by {
                assert(s[a].0 < s[b].0);
            }
            assert forall|p: u64| prices@.contains(p) <==> self@.contains_key(p) by {
                if prices@.contains(p) {
                    let k = choose|k: int| 0 <= k < prices@.len() && prices@[k] == p;
                    assert(s[k].0 == p);
                }
                if self@.contains_key(p) {
                    let k = rung_index(s, p);
                    assert(0 <= k < s.len() && s[k].0 == p);
                    assert(prices@[k] == p);
                }
            }
        }
        prices
    }

    /// The price at which a sweep of this side starts: the highest bid of
    /// a buy book, the lowest ask of a sell book; none in an empty book.
    pub fn best_price(&self) -> (best: Option<u64>)
        requires
            self.wf(),
        ensures
            best is None <==> self@.dom().len() == 0,
            best matches Some(p) ==> p == crate::sweep::best_price(
                self@,
                self.side() == OrderSide::Buy,
            ),
    {
        let ghost s = self.rungs();
        proof {
            lemma_ladder_lookup(s);
            lemma_ladder_finite(s);
        }
        let n: usize = self.levels.len();
        if n == 0 {
            return None;
        }
        let idx: usize = if self.is_buy {
            n - 1
        } else {
            0
        };
        let p: u64 = self.levels[idx].price;
        proof {
            let is_buy = self.is_buy;
            lemma_best_price_exists(self@, is_buy);
            let b = crate::sweep::best_price(self@, is_buy);
            let k = rung_index(s, b);
            assert(0 <= k < s.len() && s[k].0 == b);
            assert(s[idx as int].0 == p);
            assert(self@.contains_key(p));
            assert(better_or_equal(b, p, is_buy));
            if k < idx {
                assert(s[k].0 < s[idx as int].0);
            } else if idx < k {
                assert(s[idx as int].0 < s[k].0);
            }
        }
        Some(p)
    }

    /// Every entry of the book with its price, in the order a sweep of
    /// this side visits them.
    pub fn entries(&self) -> (entries: Vec<Quote>)
        requires
            self.wf(),
        ensures
            entries@ == self.quotes(),
    {
        let ghost order = priority_order(self.rungs(), self.is_buy);
        proof {
            lemma_traversal_is_flatten(self.rungs(), self.is_buy);
            assert(order.take(0) =~= Seq::<Rung>::empty());
        }
        let n: usize = self.levels.len();
        let mut entries: Vec<Quote> = Vec::new();
        let mut k: usize = 0;
        while k < n
            invariant
                self.wf(),
                n == self.levels.len(),
                k <= n,
                order == priority_order(self.rungs(), self.is_buy),
                entries@ == flatten(order.take(k as int)),
            decreases n - k,
        {
            let idx: usize = if self.is_buy {
                n - 1 - k
            } else {
                k
            };
            let level = &self.levels[idx];
            let ghost lq = level_quotes(level.price, level.queue@);
            proof {
                assert(order[k as int] == self.rungs()[idx as int]);
                assert(lq.take(0) =~= Seq::<Quote>::empty());
                assert(entries@ + lq.take(0) =~= entries@);
            }
            let mut j: usize = 0;
            while j < level.queue.len()
                invariant
                    j <= level.queue.len(),
                    lq == level_quotes(level.price, level.queue@),
                    entries@ == flatten(order.take(k as int)) + lq.take(j as int),
                decreases level.queue.len() - j,
            {
                let e: LevelEntry = level.queue[j];
                entries.push(Quote { price: level.price, exchange: e.exchange, volume: e.volume });
                proof {
                    assert(lq.take(j as int + 1) =~= lq.take(j as int).push(lq[j as int]));
                    assert(entries@ =~= flatten(order.take(k as int)) + lq.take(j as int + 1));
                }
                j = j + 1;
            }
            proof {
                assert(lq.take(level.queue.len() as int) =~= lq);
                lemma_flatten_prefix(order, k as int, 0);
            }
            k = k + 1;
        }
        proof {
            assert(order.take(n as int) =~= order);
        }
        entries
    }
}

} // verus!
