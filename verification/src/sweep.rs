//! What a volume sweep computes: the order in which a side book is walked,
//! how much a target volume takes from each resting quote, and the totals
//! that follow.
use vstd::prelude::*;
use crate::model::{book_invariant, queue_invariant, Ladder, LevelEntry};
use crate::types::Exchanges;

verus! {

/// One venue's resting size at a price, as a sweep meets it.
#[derive(Clone, Copy, Debug, PartialEq, Eq, Structural)]
pub struct Quote {
    pub price: u64,
    pub exchange: Exchanges,
    pub volume: u64,
}

/// The quotes of one price level, in queue order.
pub open spec fn level_quotes(price: u64, q: Seq<LevelEntry>) -> Seq<Quote> {
    Seq::new(q.len(), |i: int| Quote { price, exchange: q[i].exchange, volume: q[i].volume })
}

/// Whether price `p` is swept no later than price `q`: the buy book is
/// walked from the highest bid down, the sell book from the lowest ask up.
pub open spec fn better_or_equal(p: u64, q: u64, is_buy: bool) -> bool {
    if is_buy {
        p >= q
    } else {
        p <= q
    }
}

/// Whether `p` is a price level of the book that no other level precedes.
pub open spec fn is_best_price(m: Ladder, is_buy: bool, p: u64) -> bool {
    m.contains_key(p) && forall|q: u64| #[trigger] m.contains_key(q) ==> better_or_equal(p, q, is_buy)
}

/// The best price of a book with at least one level: the highest bid of a
/// buy book, the lowest ask of a sell book.
pub open spec fn best_price(m: Ladder, is_buy: bool) -> u64 {
    choose|p: u64| is_best_price(m, is_buy, p)
}

/// Every quote of the book in the order a sweep visits them: price levels
/// from the best price outward, and each level's queue front to back.
pub open spec fn traversal(m: Ladder, is_buy: bool) -> Seq<Quote>
    decreases m.dom().len(),
    when m.dom().finite()
    via traversal_decreases
{
    if m.dom().len() == 0 {
        Seq::empty()
    } else {
        let p = best_price(m, is_buy);
        level_quotes(p, m[p]) + traversal(m.remove(p), is_buy)
    }
}

#[via_fn]
proof fn traversal_decreases(m: Ladder, is_buy: bool) {
    if m.dom().len() != 0 {
        lemma_best_price_exists(m, is_buy);
    }
}

proof fn lemma_extreme_exists(s: Set<u64>, is_buy: bool)
    requires
        s.finite(),
        s.len() > 0,
    ensures
        exists|p: u64|
            s.contains(p) && forall|q: u64| #[trigger]
                s.contains(q) ==> better_or_equal(p, q, is_buy),
    decreases s.len(),
{
    let x = s.choose();
    let r = s.remove(x);
    if r.len() == 0 {
        assert forall|q: u64| #[trigger] s.contains(q) implies better_or_equal(x, q, is_buy) by {
            if q != x {
                assert(r.contains(q));
            }
        }
    } else {
        lemma_extreme_exists(r, is_buy);
        let p0 = choose|p: u64|
            r.contains(p) && forall|q: u64| #[trigger]
                r.contains(q) ==> better_or_equal(p, q, is_buy);
        let p = if better_or_equal(x, p0, is_buy) {
            x
        } else {
            p0
        };
        assert forall|q: u64| #[trigger] s.contains(q) implies better_or_equal(p, q, is_buy) by {
            if q != x {
                assert(r.contains(q));
            }
        }
        assert(s.contains(p));
    }
}

/// A book with at least one price level has a best price.
pub proof fn lemma_best_price_exists(m: Ladder, is_buy: bool)
    requires
        m.dom().finite(),
        m.dom().len() > 0,
    ensures
        is_best_price(m, is_buy, best_price(m, is_buy)),
{
    lemma_extreme_exists(m.dom(), is_buy);
    let p = choose|p: u64|
        m.dom().contains(p) && forall|q: u64| #[trigger]
            m.dom().contains(q) ==> better_or_equal(p, q, is_buy);
    assert forall|q: u64| #[trigger] m.contains_key(q) implies better_or_equal(p, q, is_buy) by {
        assert(m.dom().contains(q));
    }
    assert(is_best_price(m, is_buy, p));
}

/// The volume on offer over all the quotes.
pub open spec fn liquidity(qs: Seq<Quote>) -> nat
    decreases qs.len(),
{
    if qs.len() == 0 {
        0
    } else {
        liquidity(qs.drop_last()) + qs.last().volume as nat
    }
}

/// The volume a sweep for `target` fills: the target, or all that is on
/// offer where that is less.
pub open spec fn filled(qs: Seq<Quote>, target: nat) -> nat {
    if liquidity(qs) <= target {
        liquidity(qs)
    } else {
        target
    }
}

/// The volume a sweep for `target` takes from the last of the quotes: what
/// is still missing once the quotes before it are consumed, up to the
/// quote's own volume.
pub open spec fn last_take(qs: Seq<Quote>, target: nat) -> nat
    recommends
        qs.len() > 0,
{
    (filled(qs, target) - filled(qs.drop_last(), target)) as nat
}

/// The part of the filled volume that comes from `venue`.
pub open spec fn venue_filled(qs: Seq<Quote>, target: nat, venue: Exchanges) -> nat
    decreases qs.len(),
{
    if qs.len() == 0 {
        0
    } else {
        venue_filled(qs.drop_last(), target, venue) + if qs.last().exchange == venue {
            last_take(qs, target)
        } else {
            0
        }
    }
}

/// The sum over all quotes of price times volume taken.
pub open spec fn notional(qs: Seq<Quote>, target: nat) -> nat
    decreases qs.len(),
{
    if qs.len() == 0 {
        0
    } else {
        notional(qs.drop_last(), target) + qs.last().price as nat * last_take(qs, target)
    }
}

/// The volume-weighted average price of a sweep that fills something,
/// rounded down to a whole tick.
pub open spec fn vwap(qs: Seq<Quote>, target: nat) -> nat
    recommends
        filled(qs, target) > 0,
{
    notional(qs, target) / filled(qs, target)
}

/// How many of the quotes a sweep for `target` takes volume from; they are
/// the first that many.
pub open spec fn consumed(qs: Seq<Quote>, target: nat) -> nat
    decreases qs.len(),
{
    if qs.len() == 0 {
        0
    } else if last_take(qs, target) > 0 {
        qs.len()
    } else {
        consumed(qs.drop_last(), target)
    }
}

/// A sweep fills no more than its target and no more than is on offer, and
/// takes from each quote no more than the quote holds.
pub proof fn lemma_filled_bounds(qs: Seq<Quote>, target: nat)
    ensures
        filled(qs, target) <= target,
        filled(qs, target) <= liquidity(qs),
        qs.len() > 0 ==> filled(qs.drop_last(), target) <= filled(qs, target),
        qs.len() > 0 ==> last_take(qs, target) <= qs.last().volume,
{
}

/// The volumes filled at the three venues add up to the filled volume.
pub proof fn lemma_sweep_conservation(qs: Seq<Quote>, target: nat)
    ensures
        venue_filled(qs, target, Exchanges::Alpaca) + venue_filled(qs, target, Exchanges::Kraken)
            + venue_filled(qs, target, Exchanges::Bybit) == filled(qs, target),
        filled(qs, target) <= target,
    decreases qs.len(),
{
    if qs.len() > 0 {
        lemma_sweep_conservation(qs.drop_last(), target);
    }
}

/// A larger target never fills less: in particular, doubling the target
/// never decreases the filled volume.
pub proof fn lemma_filled_monotonic(qs: Seq<Quote>, target: nat, larger: nat)
    requires
        target <= larger,
    ensures
        filled(qs, target) <= filled(qs, larger),
        filled(qs, target) <= filled(qs, 2 * target),
{
}

/// The volume on offer in the first quotes is no more than in all of them.
pub proof fn lemma_liquidity_prefix(prefix: Seq<Quote>, qs: Seq<Quote>)
    requires
        prefix.is_prefix_of(qs),
    ensures
        liquidity(prefix) <= liquidity(qs),
    decreases qs.len(),
{
    if prefix.len() < qs.len() {
        assert(prefix.is_prefix_of(qs.drop_last()));
        lemma_liquidity_prefix(prefix, qs.drop_last());
    } else {
        assert(prefix =~= qs);
    }
}

/// Once the first quotes hold the whole target, the quotes after them
/// contribute nothing: the sweep of all quotes equals the sweep of those
/// first ones.
pub proof fn lemma_sweep_saturated(prefix: Seq<Quote>, qs: Seq<Quote>, target: nat)
    requires
        prefix.is_prefix_of(qs),
        liquidity(prefix) >= target,
    ensures
        filled(qs, target) == filled(prefix, target),
        notional(qs, target) == notional(prefix, target),
        forall|v: Exchanges| venue_filled(qs, target, v) == venue_filled(prefix, target, v),
    decreases qs.len(),
{
    if prefix.len() < qs.len() {
        assert(prefix.is_prefix_of(qs.drop_last()));
        lemma_sweep_saturated(prefix, qs.drop_last(), target);
        lemma_liquidity_prefix(prefix, qs.drop_last());
        lemma_liquidity_prefix(prefix, qs);
        assert(last_take(qs, target) == 0);
        assert(qs.last().price as nat * last_take(qs, target) == 0);
    } else {
        assert(prefix =~= qs);
    }
}

/// The price of the last quote that a sweep for `target` takes volume
/// from: the worst price it pays.
pub open spec fn worst_consumed_price(qs: Seq<Quote>, target: nat) -> u64
    recommends
        consumed(qs, target) > 0,
{
    qs[consumed(qs, target) - 1].price
}

/// Prices never improve along the quotes.
pub open spec fn price_sorted(qs: Seq<Quote>, is_buy: bool) -> bool {
    forall|i: int, j: int|
        0 <= i < j < qs.len() ==> better_or_equal(
            (#[trigger] qs[i]).price,
            (#[trigger] qs[j]).price,
            is_buy,
        )
}

/// A sweep takes from no more quotes than there are, and from at least one
/// exactly when it fills something.
pub proof fn lemma_consumed_bounds(qs: Seq<Quote>, target: nat)
    ensures
        consumed(qs, target) <= qs.len(),
        consumed(qs, target) > 0 <==> filled(qs, target) > 0,
    decreases qs.len(),
{
    if qs.len() > 0 {
        lemma_consumed_bounds(qs.drop_last(), target);
    }
}

/// Every quote of a sweep stands at a price level of the book.
pub proof fn lemma_traversal_prices(m: Ladder, is_buy: bool)
    requires
        m.dom().finite(),
    ensures
        forall|i: int|
            0 <= i < traversal(m, is_buy).len() ==> m.contains_key(
                (#[trigger] traversal(m, is_buy)[i]).price,
            ),
    decreases m.dom().len(),
{
    if m.dom().len() != 0 {
        lemma_best_price_exists(m, is_buy);
        let p = best_price(m, is_buy);
        let head = level_quotes(p, m[p]);
        let rest = traversal(m.remove(p), is_buy);
        lemma_traversal_prices(m.remove(p), is_buy);
        assert forall|i: int| 0 <= i < traversal(m, is_buy).len() implies m.contains_key(
            (#[trigger] traversal(m, is_buy)[i]).price,
        ) by {
            if i >= head.len() {
                assert(traversal(m, is_buy)[i] == rest[i - head.len()]);
                assert(m.remove(p).contains_key(rest[i - head.len()].price));
            }
        }
    }
}

/// A sweep meets the quotes from the best price outward.
pub proof fn lemma_traversal_sorted(m: Ladder, is_buy: bool)
    requires
        m.dom().finite(),
    ensures
        price_sorted(traversal(m, is_buy), is_buy),
    decreases m.dom().len(),
{
    if m.dom().len() != 0 {
        lemma_best_price_exists(m, is_buy);
        let p = best_price(m, is_buy);
        let head = level_quotes(p, m[p]);
        let rest = traversal(m.remove(p), is_buy);
        let qs = traversal(m, is_buy);
        lemma_traversal_sorted(m.remove(p), is_buy);
        lemma_traversal_prices(m.remove(p), is_buy);
        assert forall|i: int, j: int| 0 <= i < j < qs.len() implies better_or_equal(
            (#[trigger] qs[i]).price,
            (#[trigger] qs[j]).price,
            is_buy,
        ) by {
            if j < head.len() {
            } else if i < head.len() {
                assert(qs[j] == rest[j - head.len()]);
                assert(m.remove(p).contains_key(rest[j - head.len()].price));
                assert(m.contains_key(qs[j].price));
            } else {
                assert(qs[i] == rest[i - head.len()]);
                assert(qs[j] == rest[j - head.len()]);
            }
        }
    }
}

/// The first quote of a book with a non-empty best level stands at the
/// best price.
pub proof fn lemma_traversal_starts_at_best(m: Ladder, is_buy: bool)
    requires
        book_invariant(m),
        m.dom().len() > 0,
    ensures
        traversal(m, is_buy).len() > 0,
        traversal(m, is_buy)[0].price == best_price(m, is_buy),
{
    lemma_best_price_exists(m, is_buy);
    let p = best_price(m, is_buy);
    assert(m.contains_key(p));
    assert(m[p].len() > 0);
    assert(level_quotes(p, m[p])[0].price == p);
}

/// Where every consumed quote has a price between `lo` and `hi`, the sum
/// of price times volume lies between `lo` and `hi` times the filled
/// volume.
pub proof fn lemma_notional_bounds(qs: Seq<Quote>, target: nat, lo: nat, hi: nat)
    requires
        forall|i: int| 0 <= i < consumed(qs, target) ==> lo <= (#[trigger] qs[i]).price <= hi,
    ensures
        lo * filled(qs, target) <= notional(qs, target) <= hi * filled(qs, target),
    decreases qs.len(),
{
    if qs.len() > 0 {
        let front = qs.drop_last();
        lemma_consumed_bounds(front, target);
        let k = last_take(qs, target);
        assert forall|i: int| 0 <= i < consumed(front, target) implies lo <= (
        #[trigger] front[i]).price <= hi by {
            assert(front[i] == qs[i]);
        }
        lemma_notional_bounds(front, target, lo, hi);
        let f = filled(front, target);
        let price = qs.last().price as nat;
        assert(filled(qs, target) == f + k);
        if k > 0 {
            assert(lo <= qs[qs.len() - 1].price <= hi);
            assert(lo * (f + k) <= notional(front, target) + price * k <= hi * (f + k))
                by (nonlinear_arith)
                requires
                    lo * f <= notional(front, target) <= hi * f,
                    lo <= price <= hi,
            ;
        } else {
            assert(price * k == 0) by (nonlinear_arith)
                requires
                    k == 0,
            ;
        }
    } else {
        assert(lo * 0 == 0 && hi * 0 == 0) by (nonlinear_arith);
    }
}

/// The average price of a sweep that fills something lies between the
/// book's best price and the worst price the sweep consumes: for a buy
/// book no higher than the best bid and no lower than the lowest bid
/// consumed, for a sell book no lower than the best ask and no higher than
/// the highest ask consumed.
pub proof fn lemma_vwap_bounds(m: Ladder, is_buy: bool, target: nat)
    requires
        book_invariant(m),
        filled(traversal(m, is_buy), target) > 0,
    ensures
        ({
            let qs = traversal(m, is_buy);
            let best = best_price(m, is_buy);
            let worst = worst_consumed_price(qs, target);
            &&& 0 < consumed(qs, target) <= qs.len()
            &&& m.contains_key(best)
            &&& m.contains_key(worst)
            &&& is_buy ==> worst <= vwap(qs, target) <= best
            &&& !is_buy ==> best <= vwap(qs, target) <= worst
        }),
{
    let qs = traversal(m, is_buy);
    let c = consumed(qs, target) as int;
    lemma_consumed_bounds(qs, target);
    assert(qs.len() > 0);
    assert(m.dom().len() > 0);
    lemma_best_price_exists(m, is_buy);
    lemma_traversal_starts_at_best(m, is_buy);
    lemma_traversal_sorted(m, is_buy);
    lemma_traversal_prices(m, is_buy);
    let best = best_price(m, is_buy) as nat;
    let worst = worst_consumed_price(qs, target) as nat;
    let lo = if is_buy { worst } else { best };
    let hi = if is_buy { best } else { worst };
    assert forall|i: int| 0 <= i < c implies lo <= (#[trigger] qs[i]).price <= hi by {
        if 0 < i {
            assert(better_or_equal(qs[0].price, qs[i].price, is_buy));
        }
        if i < c - 1 {
            assert(better_or_equal(qs[i].price, qs[c - 1].price, is_buy));
        }
    }
    lemma_notional_bounds(qs, target, lo, hi);
    let f = filled(qs, target);
    let w = notional(qs, target);
    assert(lo <= w / f <= hi) by (nonlinear_arith)
        requires
            f > 0,
            lo * f <= w <= hi * f,
    ;
}

/// A sweep visits no entry twice: no two of its quotes stand at the same
/// price for the same venue.
pub proof fn lemma_traversal_visits_once(m: Ladder, is_buy: bool)
    requires
        book_invariant(m),
    ensures
        forall|i: int, j: int|
            0 <= i < j < traversal(m, is_buy).len() ==> {
                let a = #[trigger] traversal(m, is_buy)[i];
                let b = #[trigger] traversal(m, is_buy)[j];
                a.price != b.price || a.exchange != b.exchange
            },
    decreases m.dom().len(),
{
    if m.dom().len() != 0 {
        lemma_best_price_exists(m, is_buy);
        let p = best_price(m, is_buy);
        let head = level_quotes(p, m[p]);
        let rest_book = m.remove(p);
        let rest = traversal(rest_book, is_buy);
        let qs = traversal(m, is_buy);
        assert(book_invariant(rest_book)) by {
            assert forall|q: u64| #[trigger] rest_book.contains_key(q) implies queue_invariant(
                rest_book[q],
            ) by {
                assert(m.contains_key(q));
            }
        }
        lemma_traversal_visits_once(rest_book, is_buy);
        lemma_traversal_prices(rest_book, is_buy);
        assert(queue_invariant(m[p]));
        assert forall|i: int, j: int| 0 <= i < j < qs.len() implies {
            let a = #[trigger] qs[i];
            let b = #[trigger] qs[j];
            a.price != b.price || a.exchange != b.exchange
        } by {
            if j < head.len() {
                assert(m[p][i].exchange != m[p][j].exchange);
            } else if i < head.len() {
                assert(qs[j] == rest[j - head.len()]);
                assert(rest_book.contains_key(rest[j - head.len()].price));
            } else {
                assert(qs[i] == rest[i - head.len()]);
                assert(qs[j] == rest[j - head.len()]);
            }
        }
    }
}

} // verus!
