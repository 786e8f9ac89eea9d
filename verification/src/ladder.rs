//! The price-ordered representation of a side book: its levels as a
//! sequence in strictly ascending price, and how edits of that sequence and
//! walks along it relate to the book as a map.
use vstd::prelude::*;
use crate::model::{Ladder, LevelEntry};
use crate::sweep::{
    best_price, better_or_equal, lemma_best_price_exists, level_quotes, traversal, Quote,
};

verus! {

/// One price level: its price and its queue.
pub type Rung = (u64, Seq<LevelEntry>);

/// Prices strictly increase along the sequence.
pub open spec fn ascending(s: Seq<Rung>) -> bool {
    forall|i: int, j: int| 0 <= i < j < s.len() ==> (#[trigger] s[i]).0 < (#[trigger] s[j]).0
}

/// Whether some level of the sequence has price `p`.
pub open spec fn has_price(s: Seq<Rung>, p: u64) -> bool {
    exists|i: int| 0 <= i < s.len() && (#[trigger] s[i]).0 == p
}

/// Where the level with price `p` stands.
pub open spec fn rung_index(s: Seq<Rung>, p: u64) -> int {
    choose|i: int| 0 <= i < s.len() && (#[trigger] s[i]).0 == p
}

/// The book that the levels make up.
pub open spec fn ladder_of(s: Seq<Rung>) -> Ladder {
    Map::new(|p: u64| has_price(s, p), |p: u64| s[rung_index(s, p)].1)
}

/// The book holds exactly the levels of the sequence.
pub proof fn lemma_ladder_lookup(s: Seq<Rung>)
    requires
        ascending(s),
    ensures
        forall|i: int|
            0 <= i < s.len() ==> ladder_of(s).contains_key((#[trigger] s[i]).0) && ladder_of(
                s,
            )[s[i].0] == s[i].1,
        forall|p: u64| #[trigger] ladder_of(s).contains_key(p) ==> has_price(s, p),
{
    assert forall|i: int| 0 <= i < s.len() implies ladder_of(s).contains_key((#[trigger] s[i]).0)
        && ladder_of(s)[s[i].0] == s[i].1 by {
        let p = s[i].0;
        assert(has_price(s, p));
        let k = rung_index(s, p);
        assert(0 <= k < s.len() && s[k].0 == p);
        if k < i {
            assert(s[k].0 < s[i].0);
        } else if i < k {
            assert(s[i].0 < s[k].0);
        }
    }
}

/// The book has finitely many price levels, and none exactly when the
/// sequence is empty.
pub proof fn lemma_ladder_finite(s: Seq<Rung>)
    requires
        ascending(s),
    ensures
        ladder_of(s).dom().finite(),
        ladder_of(s).dom().len() == s.len(),
    decreases s.len(),
{
    lemma_ladder_lookup(s);
    if s.len() == 0 {
        assert(ladder_of(s).dom() =~= Set::<u64>::empty());
    } else {
        let t = s.drop_last();
        assert(ascending(t)) by {
            assert forall|i: int, j: int| 0 <= i < j < t.len() implies (#[trigger] t[i]).0 < (
            #[trigger] t[j]).0 by {
                assert(s[i].0 < s[j].0);
            }
        }
        lemma_ladder_finite(t);
        lemma_ladder_lookup(t);
        let p = s.last().0;
        assert(!ladder_of(t).dom().contains(p)) by {
            if ladder_of(t).contains_key(p) {
                let k = rung_index(t, p);
                assert(0 <= k < t.len() && t[k].0 == p);
                assert(s[k].0 < s[s.len() - 1].0);
            }
        }
        assert(ladder_of(s).dom() =~= ladder_of(t).dom().insert(p)) by {
            assert forall|q: u64| ladder_of(s).dom().contains(q) <==> ladder_of(
                t,
            ).dom().insert(p).contains(q) by {
                if ladder_of(s).contains_key(q) {
                    let k = rung_index(s, q);
                    assert(0 <= k < s.len() && s[k].0 == q);
                    if k < t.len() {
                        assert(t[k].0 == q);
                    }
                }
                if ladder_of(t).contains_key(q) {
                    let k = rung_index(t, q);
                    assert(0 <= k < t.len() && t[k].0 == q);
                    assert(s[k].0 == q);
                }
                if q == p {
                    assert(s[s.len() - 1].0 == p);
                }
            }
        }
    }
}

/// Replacing the queue of level `i` is an insertion at its price.
pub proof fn lemma_ladder_update(s: Seq<Rung>, i: int, q: Seq<LevelEntry>)
    requires
        ascending(s),
        0 <= i < s.len(),
    ensures
        ascending(s.update(i, (s[i].0, q))),
        ladder_of(s.update(i, (s[i].0, q))) == ladder_of(s).insert(s[i].0, q),
{
    let t = s.update(i, (s[i].0, q));
    assert(ascending(t)) by {
        assert forall|a: int, b: int| 0 <= a < b < t.len() implies (#[trigger] t[a]).0 < (
        #[trigger] t[b]).0 by {
            assert(s[a].0 < s[b].0);
        }
    }
    lemma_ladder_lookup(s);
    lemma_ladder_lookup(t);
    let m = ladder_of(s).insert(s[i].0, q);
    assert forall|p: u64| ladder_of(t).contains_key(p) <==> m.contains_key(p) by {
        if ladder_of(t).contains_key(p) {
            let k = rung_index(t, p);
            assert(0 <= k < t.len() && t[k].0 == p);
            assert(s[k].0 == p);
        }
        if ladder_of(s).contains_key(p) {
            let k = rung_index(s, p);
            assert(0 <= k < s.len() && s[k].0 == p);
            assert(t[k].0 == p);
        }
        if p == s[i].0 {
            assert(t[i].0 == p);
        }
    }
    assert forall|p: u64| ladder_of(t).contains_key(p) implies ladder_of(t)[p] == m[p] by {
        let k = rung_index(t, p);
        assert(0 <= k < t.len() && t[k].0 == p);
        assert(ladder_of(t)[t[k].0] == t[k].1);
        if k != i {
            assert(s[k].0 == p);
            assert(ladder_of(s)[s[k].0] == s[k].1);
            if k < i {
                assert(s[k].0 < s[i].0);
            } else {
                assert(s[i].0 < s[k].0);
            }
        }
    }
    assert(ladder_of(t) =~= m);
}

/// Dropping level `i` removes its price.
pub proof fn lemma_ladder_remove(s: Seq<Rung>, i: int)
    requires
        ascending(s),
        0 <= i < s.len(),
    ensures
        ascending(s.remove(i)),
        ladder_of(s.remove(i)) == ladder_of(s).remove(s[i].0),
{
    let t = s.remove(i);
    assert forall|a: int| 0 <= a < t.len() implies #[trigger] t[a] == s[if a < i {
        a
    } else {
        a + 1
    }] by {}
    assert(ascending(t)) by {
        assert forall|a: int, b: int| 0 <= a < b < t.len() implies (#[trigger] t[a]).0 < (
        #[trigger] t[b]).0 by {
            let a0 = if a < i { a } else { a + 1 };
            let b0 = if b < i { b } else { b + 1 };
            assert(t[a] == s[a0] && t[b] == s[b0]);
            assert(s[a0].0 < s[b0].0);
        }
    }
    lemma_ladder_lookup(s);
    lemma_ladder_lookup(t);
    let m = ladder_of(s).remove(s[i].0);
    assert forall|p: u64| ladder_of(t).contains_key(p) <==> m.contains_key(p) by {
        if ladder_of(t).contains_key(p) {
            let k = rung_index(t, p);
            assert(0 <= k < t.len() && t[k].0 == p);
            let k0 = if k < i { k } else { k + 1 };
            assert(t[k] == s[k0]);
            assert(s[k0].0 == p);
            if k0 < i {
                assert(s[k0].0 < s[i].0);
            } else {
                assert(s[i].0 < s[k0].0);
            }
        }
        if m.contains_key(p) {
            let k = rung_index(s, p);
            assert(0 <= k < s.len() && s[k].0 == p);
            let k1 = if k < i { k } else { k - 1 };
            assert(t[k1] == s[k]);
            assert(t[k1].0 == p);
        }
    }
    assert forall|p: u64| ladder_of(t).contains_key(p) implies ladder_of(t)[p] == m[p] by {
        let k = rung_index(t, p);
        assert(0 <= k < t.len() && t[k].0 == p);
        let k0 = if k < i { k } else { k + 1 };
        assert(t[k] == s[k0]);
        assert(ladder_of(t)[t[k].0] == t[k].1);
        assert(ladder_of(s)[s[k0].0] == s[k0].1);
    }
    assert(ladder_of(t) =~= m);
}

/// Putting a level with a new price at the place that keeps the prices
/// ascending inserts it into the book.
pub proof fn lemma_ladder_insert(s: Seq<Rung>, i: int, r: Rung)
    requires
        ascending(s),
        0 <= i <= s.len(),
        forall|k: int| 0 <= k < i ==> (#[trigger] s[k]).0 < r.0,
        forall|k: int| i <= k < s.len() ==> r.0 < (#[trigger] s[k]).0,
    ensures
        ascending(s.insert(i, r)),
        ladder_of(s.insert(i, r)) == ladder_of(s).insert(r.0, r.1),
        !ladder_of(s).contains_key(r.0),
{
    let t = s.insert(i, r);
    assert forall|a: int| 0 <= a < t.len() && a != i implies #[trigger] t[a] == s[if a < i {
        a
    } else {
        a - 1
    }] by {}
    assert(ascending(t)) by {
        assert forall|a: int, b: int| 0 <= a < b < t.len() implies (#[trigger] t[a]).0 < (
        #[trigger] t[b]).0 by {
            let a0 = if a < i { a } else { a - 1 };
            let b0 = if b < i { b } else { b - 1 };
            if a == i {
                assert(t[b] == s[b0]);
                assert(r.0 < s[b0].0);
            } else if b == i {
                assert(t[a] == s[a0]);
                assert(s[a0].0 < r.0);
            } else {
                assert(t[a] == s[a0] && t[b] == s[b0]);
                assert(s[a0].0 < s[b0].0);
            }
        }
    }
    lemma_ladder_lookup(s);
    lemma_ladder_lookup(t);
    assert(!ladder_of(s).contains_key(r.0)) by {
        if ladder_of(s).contains_key(r.0) {
            let k = rung_index(s, r.0);
            assert(0 <= k < s.len() && s[k].0 == r.0);
        }
    }
    let m = ladder_of(s).insert(r.0, r.1);
    assert forall|p: u64| ladder_of(t).contains_key(p) <==> m.contains_key(p) by {
        if ladder_of(t).contains_key(p) {
            let k = rung_index(t, p);
            assert(0 <= k < t.len() && t[k].0 == p);
            if k != i {
                let k0 = if k < i { k } else { k - 1 };
                assert(t[k] == s[k0]);
                assert(s[k0].0 == p);
            }
        }
        if ladder_of(s).contains_key(p) {
            let k = rung_index(s, p);
            assert(0 <= k < s.len() && s[k].0 == p);
            let k1 = if k < i { k } else { k + 1 };
            assert(t[k1] == s[k]);
            assert(t[k1].0 == p);
        }
        if p == r.0 {
            assert(t[i].0 == p);
        }
    }
    assert forall|p: u64| ladder_of(t).contains_key(p) implies ladder_of(t)[p] == m[p] by {
        let k = rung_index(t, p);
        assert(0 <= k < t.len() && t[k].0 == p);
        assert(ladder_of(t)[t[k].0] == t[k].1);
        if k != i {
            let k0 = if k < i { k } else { k - 1 };
            assert(t[k] == s[k0]);
            assert(ladder_of(s)[s[k0].0] == s[k0].1);
        }
    }
    assert(ladder_of(t) =~= m);
}

/// The levels in the order a sweep visits them: as they stand for a sell
/// book, reversed for a buy book.
pub open spec fn priority_order(s: Seq<Rung>, is_buy: bool) -> Seq<Rung> {
    if is_buy {
        s.reverse()
    } else {
        s
    }
}

/// The quotes of the levels, one level after the other.
pub open spec fn flatten(s: Seq<Rung>) -> Seq<Quote>
    decreases s.len(),
{
    if s.len() == 0 {
        Seq::empty()
    } else {
        flatten(s.drop_last()) + level_quotes(s.last().0, s.last().1)
    }
}

/// The quotes of the levels start with those of the first level.
pub proof fn lemma_flatten_front(s: Seq<Rung>)
    requires
        s.len() > 0,
    ensures
        flatten(s) == level_quotes(s[0].0, s[0].1) + flatten(s.drop_first()),
    decreases s.len(),
{
    if s.len() == 1 {
        assert(s.drop_last() =~= Seq::<Rung>::empty());
        assert(s.drop_first() =~= Seq::<Rung>::empty());
        assert(flatten(s) =~= level_quotes(s[0].0, s[0].1) + flatten(s.drop_first()));
    } else {
        let t = s.drop_last();
        lemma_flatten_front(t);
        assert(t.drop_first() =~= s.drop_first().drop_last());
        assert(s.drop_first().last() == s.last());
        assert(flatten(s) =~= level_quotes(s[0].0, s[0].1) + flatten(s.drop_first()));
    }
}

/// The quotes of the first `k` levels followed by the first `j` quotes of
/// the next level are the first quotes of all the levels.
pub proof fn lemma_flatten_prefix(s: Seq<Rung>, k: int, j: int)
    requires
        0 <= k < s.len(),
        0 <= j <= s[k].1.len(),
    ensures
        (flatten(s.take(k)) + level_quotes(s[k].0, s[k].1).take(j)).is_prefix_of(flatten(s)),
        flatten(s.take(k + 1)) == flatten(s.take(k)) + level_quotes(s[k].0, s[k].1),
    decreases s.len(),
{
    let part = flatten(s.take(k)) + level_quotes(s[k].0, s[k].1).take(j);
    assert(s.take(k + 1).drop_last() =~= s.take(k));
    assert(s.take(k + 1).last() == s[k]);
    if k == s.len() - 1 {
        assert(s.take(k) =~= s.drop_last());
        assert(part.is_prefix_of(flatten(s)));
    } else {
        let t = s.drop_last();
        assert(t.take(k) =~= s.take(k));
        assert(t[k] == s[k]);
        lemma_flatten_prefix(t, k, j);
        assert(part.is_prefix_of(flatten(t)));
        assert(flatten(t).is_prefix_of(flatten(s)));
    }
}

/// Walking the levels in priority order visits the quotes exactly as the
/// sweep of the book they make up does.
pub proof fn lemma_traversal_is_flatten(s: Seq<Rung>, is_buy: bool)
    requires
        ascending(s),
    ensures
        traversal(ladder_of(s), is_buy) == flatten(priority_order(s, is_buy)),
    decreases s.len(),
{
    let m = ladder_of(s);
    lemma_ladder_finite(s);
    lemma_ladder_lookup(s);
    if s.len() == 0 {
    } else {
        lemma_best_price_exists(m, is_buy);
        let i = if is_buy { s.len() - 1 } else { 0 };
        let p = best_price(m, is_buy);
        assert(p == s[i].0) by {
            let k = rung_index(s, p);
            assert(0 <= k < s.len() && s[k].0 == p);
            assert(m.contains_key(s[i].0));
            assert(better_or_equal(p, s[i].0, is_buy));
            if k < i {
                assert(s[k].0 < s[i].0);
            } else if i < k {
                assert(s[i].0 < s[k].0);
            }
        }
        let t = s.remove(i);
        lemma_ladder_remove(s, i);
        lemma_traversal_is_flatten(t, is_buy);
        let po = priority_order(s, is_buy);
        assert(po[0] == s[i]);
        assert(po.drop_first() =~= priority_order(t, is_buy));
        lemma_flatten_front(po);
    }
}

} // verus!
