//! The mathematical model of one side of the book: a finite map from price
//! to the first-in-first-out queue of venue entries resting at that price,
//! and what one update does to it.
use vstd::prelude::*;
use crate::types::{Exchanges, OBOrder};

verus! {

/// One venue's resting size at a price level.
#[derive(Clone, Copy, Debug, PartialEq, Eq, Structural)]
pub struct LevelEntry {
    pub exchange: Exchanges,
    pub volume: u64,
}

/// One side of the book: price to the queue of entries at that price, in
/// the order in which the venues first arrived there.
pub type Ladder = Map<u64, Seq<LevelEntry>>;

/// Whether `venue` has an entry in the queue.
pub open spec fn has_venue(q: Seq<LevelEntry>, venue: Exchanges) -> bool {
    exists|i: int| 0 <= i < q.len() && (#[trigger] q[i]).exchange == venue
}

/// The position of `venue`'s entry in a queue that holds one.
pub open spec fn venue_index(q: Seq<LevelEntry>, venue: Exchanges) -> int {
    choose|i: int| 0 <= i < q.len() && (#[trigger] q[i]).exchange == venue
}

/// No venue occurs twice in the queue.
pub open spec fn venues_unique(q: Seq<LevelEntry>) -> bool {
    forall|i: int, j: int|
        0 <= i < j < q.len() ==> (#[trigger] q[i]).exchange != (#[trigger] q[j]).exchange
}

/// Every stored volume is positive.
pub open spec fn volumes_positive(q: Seq<LevelEntry>) -> bool {
    forall|i: int| 0 <= i < q.len() ==> (#[trigger] q[i]).volume > 0
}

/// What holds of the queue of every price level that is present: it is not
/// empty, no venue occurs twice in it, and no entry has volume zero.
pub open spec fn queue_invariant(q: Seq<LevelEntry>) -> bool {
    &&& q.len() > 0
    &&& venues_unique(q)
    &&& volumes_positive(q)
}

/// What holds of every side book: finitely many price levels, each with a
/// queue that satisfies [`queue_invariant`].
pub open spec fn book_invariant(m: Ladder) -> bool {
    &&& m.dom().finite()
    &&& forall|p: u64| #[trigger] m.contains_key(p) ==> queue_invariant(m[p])
}

/// The queue at `price`, empty where the price level is absent.
pub open spec fn level_queue(m: Ladder, price: u64) -> Seq<LevelEntry> {
    if m.contains_key(price) {
        m[price]
    } else {
        Seq::empty()
    }
}

/// The queue after `venue` reports `volume` at this price: a positive
/// volume replaces the venue's entry in place, or is appended where the
/// venue has none; volume zero removes the venue's entry, or changes
/// nothing where the venue has none.
pub open spec fn queue_apply(q: Seq<LevelEntry>, venue: Exchanges, volume: u64) -> Seq<
    LevelEntry,
> {
    if has_venue(q, venue) {
        if volume == 0 {
            q.remove(venue_index(q, venue))
        } else {
            q.update(venue_index(q, venue), LevelEntry { exchange: venue, volume })
        }
    } else if volume == 0 {
        q
    } else {
        q.push(LevelEntry { exchange: venue, volume })
    }
}

/// The book after one update: the queue at the update's price is changed
/// by [`queue_apply`], and the price level disappears when its queue
/// becomes empty. No other price level is touched.
pub open spec fn apply_update(m: Ladder, order: OBOrder) -> Ladder {
    let q = queue_apply(level_queue(m, order.price), order.exchange, order.volume);
    if q.len() == 0 {
        m.remove(order.price)
    } else {
        m.insert(order.price, q)
    }
}

/// In a queue without repeated venues, the entry of a venue is where any
/// entry of that venue is.
pub proof fn lemma_venue_index_unique(q: Seq<LevelEntry>, venue: Exchanges, j: int)
    requires
        venues_unique(q),
        0 <= j < q.len(),
        q[j].exchange == venue,
    ensures
        has_venue(q, venue),
        venue_index(q, venue) == j,
{
    let k = venue_index(q, venue);
    assert(0 <= k < q.len() && q[k].exchange == venue);
    if k < j {
        assert(q[k].exchange != q[j].exchange);
    } else if j < k {
        assert(q[j].exchange != q[k].exchange);
    }
}

/// An update keeps a queue free of repeated venues and of zero volumes,
/// and leaves the venue out of the queue exactly when its volume is zero.
pub proof fn lemma_queue_apply_invariant(q: Seq<LevelEntry>, venue: Exchanges, volume: u64)
    requires
        venues_unique(q),
        volumes_positive(q),
    ensures
        venues_unique(queue_apply(q, venue, volume)),
        volumes_positive(queue_apply(q, venue, volume)),
        has_venue(queue_apply(q, venue, volume), venue) <==> volume != 0,
{
    let r = queue_apply(q, venue, volume);
    if has_venue(q, venue) {
        let k = venue_index(q, venue);
        assert(0 <= k < q.len() && q[k].exchange == venue);
        if volume == 0 {
            assert forall|i: int, j: int| 0 <= i < j < r.len() implies (#[trigger] r[i]).exchange
                != (#[trigger] r[j]).exchange by {
                let i0 = if i < k { i } else { i + 1 };
                let j0 = if j < k { j } else { j + 1 };
                assert(r[i] == q[i0] && r[j] == q[j0]);
            }
            assert forall|i: int| 0 <= i < r.len() implies (#[trigger] r[i]).volume > 0 by {
                let i0 = if i < k { i } else { i + 1 };
                assert(r[i] == q[i0]);
            }
            assert(!has_venue(r, venue)) by {
                if has_venue(r, venue) {
                    let i = venue_index(r, venue);
                    let i0 = if i < k { i } else { i + 1 };
                    assert(r[i] == q[i0]);
                    if i0 < k {
                        assert(q[i0].exchange != q[k].exchange);
                    } else {
                        assert(q[k].exchange != q[i0].exchange);
                    }
                }
            }
        } else {
            assert forall|i: int, j: int| 0 <= i < j < r.len() implies (#[trigger] r[i]).exchange
                != (#[trigger] r[j]).exchange by {
                assert(q[i].exchange != q[j].exchange);
            }
            assert forall|i: int| 0 <= i < r.len() implies (#[trigger] r[i]).volume > 0 by {
                if i != k {
                    assert(q[i].volume > 0);
                }
            }
            assert(r[k].exchange == venue);
        }
    } else if volume == 0 {
    } else {
        assert forall|i: int, j: int| 0 <= i < j < r.len() implies (#[trigger] r[i]).exchange
            != (#[trigger] r[j]).exchange by {
            if j < q.len() {
                assert(q[i].exchange != q[j].exchange);
            } else {
                assert(r[i] == q[i]);
            }
        }
        assert forall|i: int| 0 <= i < r.len() implies (#[trigger] r[i]).volume > 0 by {
            if i < q.len() {
                assert(q[i].volume > 0);
            }
        }
        assert(r[q.len() as int].exchange == venue);
    }
}

/// Every update keeps the book's invariant: afterwards each price level
/// that is present still has a non-empty queue without repeated venues and
/// without zero volumes.
pub proof fn lemma_apply_preserves_invariant(m: Ladder, order: OBOrder)
    requires
        book_invariant(m),
    ensures
        book_invariant(apply_update(m, order)),
{
    let q0 = level_queue(m, order.price);
    if m.contains_key(order.price) {
        assert(queue_invariant(m[order.price]));
    }
    lemma_queue_apply_invariant(q0, order.exchange, order.volume);
    let r = apply_update(m, order);
    assert forall|p: u64| #[trigger] r.contains_key(p) implies queue_invariant(r[p]) by {
        if p != order.price {
            assert(m.contains_key(p));
        }
    }
}

/// After an update with volume zero the venue is absent from the update's
/// price level.
pub proof fn lemma_zero_volume_deletes(m: Ladder, order: OBOrder)
    requires
        book_invariant(m),
        order.volume == 0,
    ensures
        !has_venue(level_queue(apply_update(m, order), order.price), order.exchange),
{
    let q0 = level_queue(m, order.price);
    if m.contains_key(order.price) {
        assert(queue_invariant(m[order.price]));
    }
    lemma_queue_apply_invariant(q0, order.exchange, order.volume);
}

/// Applying the same update twice gives the same book as applying it once.
pub proof fn lemma_apply_idempotent(m: Ladder, order: OBOrder)
    requires
        book_invariant(m),
    ensures
        apply_update(apply_update(m, order), order) == apply_update(m, order),
{
    let q0 = level_queue(m, order.price);
    if m.contains_key(order.price) {
        assert(queue_invariant(m[order.price]));
    }
    lemma_queue_apply_invariant(q0, order.exchange, order.volume);
    let q1 = queue_apply(q0, order.exchange, order.volume);
    let m1 = apply_update(m, order);
    assert(level_queue(m1, order.price) == q1);
    let q2 = queue_apply(q1, order.exchange, order.volume);
    if order.volume == 0 {
        assert(q2 == q1);
    } else {
        let k = venue_index(q1, order.exchange);
        assert(0 <= k < q1.len() && q1[k].exchange == order.exchange);
        if has_venue(q0, order.exchange) {
            let k0 = venue_index(q0, order.exchange);
            assert(0 <= k0 < q0.len() && q0[k0].exchange == order.exchange);
            assert(q1[k0].exchange == order.exchange);
            lemma_venue_index_unique(q1, order.exchange, k0);
        } else {
            lemma_venue_index_unique(q1, order.exchange, q0.len() as int);
        }
        assert(q1[k] == (LevelEntry { exchange: order.exchange, volume: order.volume }));
        assert(q2 =~= q1);
    }
    assert(apply_update(m1, order) =~= m1);
}

/// The book after a stream of updates, applied in the order given.
pub open spec fn apply_all(m: Ladder, updates: Seq<OBOrder>) -> Ladder
    decreases updates.len(),
{
    if updates.len() == 0 {
        m
    } else {
        apply_update(apply_all(m, updates.drop_last()), updates.last())
    }
}

/// The empty book satisfies the invariant.
pub proof fn lemma_empty_book_invariant()
    ensures
        book_invariant(Map::<u64, Seq<LevelEntry>>::empty()),
{
}

/// Whatever updates arrive, from whichever venues and however their
/// streams interleave, a book that satisfied the invariant before them
/// satisfies it after them.
pub proof fn lemma_stream_preserves_invariant(m: Ladder, updates: Seq<OBOrder>)
    requires
        book_invariant(m),
    ensures
        book_invariant(apply_all(m, updates)),
    decreases updates.len(),
{
    if updates.len() > 0 {
        lemma_stream_preserves_invariant(m, updates.drop_last());
        lemma_apply_preserves_invariant(apply_all(m, updates.drop_last()), updates.last());
    }
}

/// An update with volume zero brings no venue into any level: a venue that
/// was absent from a level is absent from it afterwards.
pub proof fn lemma_zero_volume_adds_nothing(m: Ladder, order: OBOrder, price: u64, venue: Exchanges)
    requires
        order.volume == 0,
        !has_venue(level_queue(m, price), venue),
    ensures
        !has_venue(level_queue(apply_update(m, order), price), venue),
{
    let q = level_queue(m, order.price);
    let r = level_queue(apply_update(m, order), price);
    if order.price == price && has_venue(q, order.exchange) {
        let k = venue_index(q, order.exchange);
        assert(0 <= k < q.len() && q[k].exchange == order.exchange);
        if has_venue(r, venue) {
            let i = venue_index(r, venue);
            assert(0 <= i < r.len() && r[i].exchange == venue);
            let i0 = if i < k { i } else { i + 1 };
            assert(q.remove(k)[i] == q[i0]);
            assert(q[i0].exchange == venue);
        }
    }
}

} // verus!
