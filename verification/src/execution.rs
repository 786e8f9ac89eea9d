//! Routing from one-shot venue snapshots: all levels of the side to
//! consume are pooled, and the required volume is assigned to them from
//! the best price on.
use vstd::prelude::*;
use crate::errors::{unfillable_order_text, OrderBookError};
use crate::priority::{MaxPriceLevel, MinPriceLevel};
use crate::snapshot::{OrderBookResponse, PriceLevel, RoutedOrder};
use crate::sweep::{
    better_or_equal, filled, last_take, lemma_filled_bounds, lemma_liquidity_prefix,
    lemma_sweep_conservation, lemma_sweep_saturated, liquidity, price_sorted, venue_filled, Quote,
};
use crate::types::{Exchanges, OrderSide, Symbol};

verus! {

/// The levels an order of `side` consumes from a snapshot: a sell order
/// hits the bids, a buy order lifts the asks.
pub open spec fn consumed_side(side: OrderSide, book: crate::snapshot::OrderBook) -> Seq<
    PriceLevel,
> {
    match side {
        OrderSide::Sell => book.bids@,
        OrderSide::Buy => book.asks@,
    }
}

/// The pooled levels, in the order in which they enter the pool.
pub open spec fn route_pool(
    side: OrderSide,
    alpaca: crate::snapshot::OrderBook,
    kraken: crate::snapshot::OrderBook,
    bybit: crate::snapshot::OrderBook,
) -> Seq<PriceLevel> {
    consumed_side(side, alpaca) + consumed_side(side, kraken) + consumed_side(side, bybit)
}

/// Whether level `a` is consumed strictly before level `b` on price alone:
/// a sell order prefers the higher bid, a buy order the lower ask.
pub open spec fn outranks(a: PriceLevel, b: PriceLevel, side: OrderSide) -> bool {
    match side {
        OrderSide::Sell => a.price > b.price,
        OrderSide::Buy => a.price < b.price,
    }
}

/// The position of the level consumed first: the earliest one that no
/// other level outranks.
pub open spec fn best_index(pool: Seq<PriceLevel>, side: OrderSide) -> int
    decreases pool.len(),
{
    if pool.len() <= 1 {
        0
    } else {
        let b = best_index(pool.drop_last(), side);
        if outranks(pool.last(), pool[b], side) {
            pool.len() - 1
        } else {
            b
        }
    }
}

/// The level as a quote of a sweep.
pub open spec fn level_quote(level: PriceLevel) -> Quote {
    Quote { price: level.price, exchange: level.exchange, volume: level.quantity }
}

/// The pooled levels in the order in which they are consumed: best price
/// first, and among equal prices the one that entered the pool first.
pub open spec fn route_sequence(pool: Seq<PriceLevel>, side: OrderSide) -> Seq<Quote>
    decreases pool.len(),
    via route_sequence_decreases
{
    if pool.len() == 0 {
        Seq::empty()
    } else {
        let b = best_index(pool, side);
        seq![level_quote(pool[b])] + route_sequence(pool.remove(b), side)
    }
}

#[via_fn]
proof fn route_sequence_decreases(pool: Seq<PriceLevel>, side: OrderSide) {
    if pool.len() != 0 {
        lemma_best_index(pool, side);
    }
}

/// The best level is one of the pool, no level outranks it, and it
/// outranks every level before it.
pub proof fn lemma_best_index(pool: Seq<PriceLevel>, side: OrderSide)
    requires
        pool.len() > 0,
    ensures
        0 <= best_index(pool, side) < pool.len(),
        forall|j: int|
            0 <= j < pool.len() ==> !outranks(#[trigger] pool[j], pool[best_index(pool, side)], side),
        forall|j: int|
            0 <= j < best_index(pool, side) ==> outranks(
                pool[best_index(pool, side)],
                #[trigger] pool[j],
                side,
            ),
    decreases pool.len(),
{
    if pool.len() > 1 {
        let front = pool.drop_last();
        lemma_best_index(front, side);
        let b = best_index(front, side);
        assert forall|j: int| 0 <= j < pool.len() implies !outranks(
            #[trigger] pool[j],
            pool[best_index(pool, side)],
            side,
        ) by {
            if j < front.len() {
                assert(!outranks(front[j], front[b], side));
            }
        }
        assert forall|j: int| 0 <= j < best_index(pool, side) implies outranks(
            pool[best_index(pool, side)],
            #[trigger] pool[j],
            side,
        ) by {
            assert(!outranks(front[j], front[b], side));
            if j < b {
                assert(outranks(front[b], front[j], side));
            }
        }
    }
}

/// The consumption order holds every pooled level exactly once: it is as
/// long as the pool, and each of its quotes is a level of the pool.
pub proof fn lemma_route_members(pool: Seq<PriceLevel>, side: OrderSide)
    ensures
        route_sequence(pool, side).len() == pool.len(),
        forall|i: int|
            0 <= i < pool.len() ==> exists|j: int|
                0 <= j < pool.len() && #[trigger] route_sequence(pool, side)[i] == level_quote(
                    #[trigger] pool[j],
                ),
    decreases pool.len(),
{
    if pool.len() > 0 {
        lemma_best_index(pool, side);
        let b = best_index(pool, side);
        let rest = pool.remove(b);
        lemma_route_members(rest, side);
        let rs = route_sequence(pool, side);
        assert forall|i: int| 0 <= i < pool.len() implies exists|j: int|
            0 <= j < pool.len() && #[trigger] rs[i] == level_quote(#[trigger] pool[j]) by {
            if i == 0 {
                assert(rs[0] == level_quote(pool[b]));
            } else {
                assert(rs[i] == route_sequence(rest, side)[i - 1]);
                let j = choose|j: int|
                    0 <= j < rest.len() && #[trigger] route_sequence(rest, side)[i - 1]
                        == level_quote(#[trigger] rest[j]);
                let j0 = if j < b {
                    j
                } else {
                    j + 1
                };
                assert(rest[j] == pool[j0]);
                assert(rs[i] == level_quote(pool[j0]));
            }
        }
    }
}

/// Levels are consumed from the best price on: along the consumption
/// order bids never rise for a sell order, and asks never fall for a buy
/// order.
pub proof fn lemma_route_sorted(pool: Seq<PriceLevel>, side: OrderSide)
    ensures
        price_sorted(route_sequence(pool, side), side == OrderSide::Sell),
    decreases pool.len(),
{
    if pool.len() > 0 {
        lemma_best_index(pool, side);
        let b = best_index(pool, side);
        let rest = pool.remove(b);
        lemma_route_sorted(rest, side);
        lemma_route_members(rest, side);
        let rs = route_sequence(pool, side);
        let tail = route_sequence(rest, side);
        assert forall|i: int, j: int| 0 <= i < j < rs.len() implies better_or_equal(
            (#[trigger] rs[i]).price,
            (#[trigger] rs[j]).price,
            side == OrderSide::Sell,
        ) by {
            assert(rs[j] == tail[j - 1]);
            if i == 0 {
                let k = choose|k: int|
                    0 <= k < rest.len() && #[trigger] tail[j - 1] == level_quote(
                        #[trigger] rest[k],
                    );
                let k0 = if k < b {
                    k
                } else {
                    k + 1
                };
                assert(rest[k] == pool[k0]);
                assert(!outranks(pool[k0], pool[b], side));
            } else {
                assert(rs[i] == tail[i - 1]);
            }
        }
    }
}

/// Copies the levels of `from` to the end of `pool`.
fn add_levels(pool: &mut Vec<PriceLevel>, from: &Vec<PriceLevel>)
    ensures
        final(pool)@ == old(pool)@ + from@,
{
    let mut i: usize = 0;
    while i < from.len()
        invariant
            i <= from.len(),
            pool@ == old(pool)@ + from@.take(i as int),
        decreases from.len() - i,
    {
        pool.push(from[i]);
        proof {
            assert(from@.take(i as int + 1) =~= from@.take(i as int).push(from@[i as int]));
        }
        i = i + 1;
    }
    proof {
        assert(from@.take(from.len() as int) =~= from@);
    }
}

/// Whether level `a` is consumed strictly before level `b` on price alone.
fn level_outranks(a: &PriceLevel, b: &PriceLevel, side: OrderSide) -> (r: bool)
    ensures
        r == outranks(*a, *b, side),
{
    match side {
        OrderSide::Sell => MaxPriceLevel(*a) > MaxPriceLevel(*b),
        OrderSide::Buy => MinPriceLevel(*a) > MinPriceLevel(*b),
    }
}

/// Takes the level to consume next out of the pool; the others keep their
/// order.
fn pop_best(pool: &mut Vec<PriceLevel>, side: OrderSide) -> (level: PriceLevel)
    requires
        old(pool).len() > 0,
    ensures
        0 <= best_index(old(pool)@, side) < old(pool).len(),
        level == old(pool)@[best_index(old(pool)@, side)],
        final(pool)@ == old(pool)@.remove(best_index(old(pool)@, side)),
{
    let mut best: usize = 0;
    let mut i: usize = 1;
    proof {
        assert(pool@.take(1).len() == 1);
    }
    while i < pool.len()
        invariant
            1 <= i <= pool.len(),
            best < i,
            best == best_index(pool@.take(i as int), side),
        decreases pool.len() - i,
    {
        proof {
            let next = pool@.take(i as int + 1);
            assert(next.drop_last() =~= pool@.take(i as int));
            assert(next.last() == pool@[i as int]);
            assert(next[best as int] == pool@[best as int]);
        }
        if level_outranks(&pool[i], &pool[best], side) {
            best = i;
        }
        i = i + 1;
    }
    proof {
        assert(pool@.take(pool.len() as int) =~= pool@);
    }
    pool.remove(best)
}

/// The router: one snapshot of each venue, from which orders are split.
#[derive(Debug)]
pub struct OrderBook {
    pub kraken: OrderBookResponse,
    pub bybit: OrderBookResponse,
    pub alpaca: OrderBookResponse,
}

impl OrderBook {
    /// The router over the three venues' snapshots.
    pub fn new(kraken: OrderBookResponse, bybit: OrderBookResponse, alpaca: OrderBookResponse) -> (r:
        Self)
        ensures
            r.kraken == kraken,
            r.bybit == bybit,
            r.alpaca == alpaca,
    {
        OrderBook { kraken, bybit, alpaca }
    }

    /// The levels an order of `side` is routed over, in the order in
    /// which they are consumed.
    pub open spec fn route(&self, side: OrderSide) -> Seq<Quote> {
        route_sequence(route_pool(side, self.alpaca.book, self.kraken.book, self.bybit.book), side)
    }

    /// Splits an order for `amount` units across the venues from their
    /// snapshots. The levels of the side to consume are pooled, Alpaca's
    /// first, then Kraken's, then Bybit's, and consumed from the best price
    /// on, equal prices in pool order, each level giving what is still
    /// required up to its quantity. Succeeds exactly when the pool holds
    /// the amount; the venue volumes then add up to it.
    pub fn route_order(&self, symbol: Symbol, side: OrderSide, amount: u64) -> (r: Result<
        RoutedOrder,
        OrderBookError,
    >)
        ensures
            ({
                let all = self.route(side);
                match r {
                    Ok(routed) => {
                        &&& amount <= liquidity(all)
                        &&& routed.symbol == symbol
                        &&& routed.side == side
                        &&& routed.alpaca_volume == venue_filled(
                            all,
                            amount as nat,
                            Exchanges::Alpaca,
                        )
                        &&& routed.kraken_volume == venue_filled(
                            all,
                            amount as nat,
                            Exchanges::Kraken,
                        )
                        &&& routed.bybit_volume == venue_filled(
                            all,
                            amount as nat,
                            Exchanges::Bybit,
                        )
                        &&& routed.alpaca_volume + routed.kraken_volume + routed.bybit_volume
                            == amount
                    },
                    Err(e) => {
                        &&& liquidity(all) < amount
                        &&& e matches OrderBookError::InsufficientVolume(s)
                        &&& s@ == unfillable_order_text()
                    },
                }
            }),
    {
        let mut pool: Vec<PriceLevel> = Vec::new();
        match side {
            OrderSide::Sell => {
                add_levels(&mut pool, &self.alpaca.book.bids);
                add_levels(&mut pool, &self.kraken.book.bids);
                add_levels(&mut pool, &self.bybit.book.bids);
            },
            OrderSide::Buy => {
                add_levels(&mut pool, &self.alpaca.book.asks);
                add_levels(&mut pool, &self.kraken.book.asks);
                add_levels(&mut pool, &self.bybit.book.asks);
            },
        }
        let ghost t = amount as nat;
        let ghost all = route_sequence(pool@, side);
        proof {
            assert(pool@ =~= route_pool(
                side,
                self.alpaca.book,
                self.kraken.book,
                self.bybit.book,
            ));
        }
        let mut required: u64 = amount;
        let mut bybit_volume: u64 = 0;
        let mut kraken_volume: u64 = 0;
        let mut alpaca_volume: u64 = 0;
        let ghost mut done: Seq<Quote> = Seq::empty();
        proof {
            assert(done + all =~= all);
        }
        while required > 0 && pool.len() > 0
            invariant
                t == amount,
                done + route_sequence(pool@, side) == all,
                required + filled(done, t) == amount,
                required > 0 ==> liquidity(done) < t,
                alpaca_volume == venue_filled(done, t, Exchanges::Alpaca),
                kraken_volume == venue_filled(done, t, Exchanges::Kraken),
                bybit_volume == venue_filled(done, t, Exchanges::Bybit),
                alpaca_volume + kraken_volume + bybit_volume + required == amount,
            decreases pool.len(),
        {
            let ghost before = pool@;
            let level = pop_best(&mut pool, side);
            let take: u64 = if level.quantity <= required {
                level.quantity
            } else {
                required
            };
            let ghost quote = level_quote(level);
            let ghost next = done.push(quote);
            proof {
                assert(route_sequence(before, side) == seq![quote] + route_sequence(pool@, side));
                assert(next + route_sequence(pool@, side) =~= done + route_sequence(before, side));
                assert(next.drop_last() =~= done);
                assert(next.last() == quote);
                assert(liquidity(next) == liquidity(done) + level.quantity);
                assert(filled(next, t) == filled(done, t) + take);
                assert(last_take(next, t) == take);
            }
            required = required - take;
            match level.exchange {
                Exchanges::Bybit => {
                    bybit_volume = bybit_volume + take;
                },
                Exchanges::Kraken => {
                    kraken_volume = kraken_volume + take;
                },
                Exchanges::Alpaca => {
                    alpaca_volume = alpaca_volume + take;
                },
            }
            proof {
                done = next;
            }
        }
        proof {
            assert(done.is_prefix_of(all));
            if required > 0 {
                assert(route_sequence(pool@, side) =~= Seq::<Quote>::empty());
                assert(done =~= all);
            } else {
                lemma_filled_bounds(done, t);
                lemma_sweep_saturated(done, all, t);
                lemma_liquidity_prefix(done, all);
            }
            lemma_sweep_conservation(all, t);
        }
        if required > 0 {
            return Err(OrderBookError::unfillable_order());
        }
        Ok(RoutedOrder { symbol, side, bybit_volume, kraken_volume, alpaca_volume })
    }
}

} // verus!
