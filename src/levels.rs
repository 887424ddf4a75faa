use vstd::prelude::*;
use vstd::relations::total_ordering;

verus! {

/// A price, as an exact count of the smallest price unit.
pub type Price = i128;

/// A quantity, as an exact count of the smallest size unit; negative when it removes size.
pub type Quantity = i128;

/// The price that an empty ask side reports as its best.
pub const PRICE_MIN: Price = i128::MIN;

/// The price that an empty bid side reports as its best.
pub const PRICE_MAX: Price = i128::MAX;

/// The quantity that an empty side reports at its best price.
pub const QUANTITY_ZERO: Quantity = 0;

/// One price level: a price and the total quantity resting there.
pub type Level = (Price, Quantity);

/// Keys of `s` rise strictly from each level to the next.
pub open spec fn strictly_ascending(s: Seq<Level>) -> bool {
    forall|i: int, j: int| 0 <= i < j < s.len() ==> #[trigger] s[i].0 < #[trigger] s[j].0
}

/// `s` lists exactly the entries of `m`.
pub open spec fn lists(m: Map<Price, Quantity>, s: Seq<Level>) -> bool {
    &&& forall|i: int| 0 <= i < s.len() ==> #[trigger] m.contains_key(s[i].0) && m[s[i].0] == s[i].1
    &&& forall|k: Price| #[trigger] m.contains_key(k) ==> exists|i: int| 0 <= i < s.len() && #[trigger] s[i].0 == k
}

/// The order on prices, as a relation.
pub open spec fn price_leq() -> spec_fn(Price, Price) -> bool {
    |a: Price, b: Price| a <= b
}

/// The lowest key of a finite, non-empty map.
pub open spec fn lowest_key(m: Map<Price, Quantity>) -> Price {
    m.dom().find_unique_minimal(price_leq())
}

/// The entries of `m`, from the lowest price to the highest.
pub open spec fn ascending_levels(m: Map<Price, Quantity>) -> Seq<Level>
    decreases m.dom().len(),
    when m.dom().finite()
    via ascending_levels_decreases
{
    if m.dom().len() > 0 {
        let k = lowest_key(m);
        seq![(k, m[k])] + ascending_levels(m.remove(k))
    } else {
        Seq::empty()
    }
}

proof fn lemma_price_leq_total()
    ensures
        total_ordering(price_leq()),
{
}

proof fn lemma_lowest_key(m: Map<Price, Quantity>)
    requires
        m.dom().finite(),
        m.dom().len() > 0,
    ensures
        m.contains_key(lowest_key(m)),
        forall|k: Price| #[trigger] m.contains_key(k) ==> lowest_key(m) <= k,
{
    lemma_price_leq_total();
    m.dom().find_unique_minimal_ensures(price_leq());
    assert forall|k: Price| #[trigger] m.contains_key(k) implies lowest_key(m) <= k by {
        let x = lowest_key(m);
        assert(m.dom().contains(k));
        assert(price_leq()(k, x) ==> price_leq()(x, k));
    }
}

#[via_fn]
proof fn ascending_levels_decreases(m: Map<Price, Quantity>) {
    if m.dom().len() > 0 {
        lemma_lowest_key(m);
        assert(m.remove(lowest_key(m)).dom() =~= m.dom().remove(lowest_key(m)));
    }
}

/// The listing built by `ascending_levels` rises strictly and lists the whole map.
pub proof fn lemma_ascending_levels(m: Map<Price, Quantity>)
    requires
        m.dom().finite(),
    ensures
        strictly_ascending(ascending_levels(m)),
        lists(m, ascending_levels(m)),
        ascending_levels(m).len() == m.dom().len(),
    decreases m.dom().len(),
{
    if m.dom().len() > 0 {
        let k = lowest_key(m);
        lemma_lowest_key(m);
        let r = m.remove(k);
        assert(r.dom() =~= m.dom().remove(k));
        lemma_ascending_levels(r);
        let t = ascending_levels(r);
        let s = ascending_levels(m);
        assert(s =~= seq![(k, m[k])] + t);
        assert forall|i: int, j: int| 0 <= i < j < s.len() implies #[trigger] s[i].0 < #[trigger] s[j].0 by {
            if i == 0 {
                assert(r.contains_key(t[j - 1].0));
            } else {
                assert(s[i] == t[i - 1] && s[j] == t[j - 1]);
            }
        }
        assert forall|x: Price| #[trigger] m.contains_key(x) implies exists|i: int| 0 <= i < s.len() && #[trigger] s[i].0 == x by {
            if x == k {
                assert(s[0].0 == x);
            } else {
                assert(r.contains_key(x));
                let i = choose|i: int| 0 <= i < t.len() && #[trigger] t[i].0 == x;
                assert(s[i + 1].0 == x);
            }
        }
        assert forall|i: int| 0 <= i < s.len() implies #[trigger] m.contains_key(s[i].0) && m[s[i].0] == s[i].1 by {
            if i > 0 {
                assert(s[i] == t[i - 1]);
                assert(r.contains_key(t[i - 1].0));
            }
        }
    } else {
        assert(ascending_levels(m) =~= Seq::<Level>::empty());
    }
}

/// A strictly rising listing of a finite map is the one `ascending_levels` builds.
pub proof fn lemma_ascending_levels_unique(m: Map<Price, Quantity>, s: Seq<Level>)
    requires
        m.dom().finite(),
        strictly_ascending(s),
        lists(m, s),
    ensures
        s == ascending_levels(m),
    decreases s.len(),
{
    if s.len() == 0 {
        assert(m.dom() =~= Set::empty()) by {
            assert forall|k: Price| !m.contains_key(k) by {
                if m.contains_key(k) {
                    let i = choose|i: int| 0 <= i < s.len() && #[trigger] s[i].0 == k;
                }
            }
        }
        assert(ascending_levels(m) =~= s);
    } else {
        let k = s[0].0;
        assert(m.contains_key(k));
        lemma_lowest_key(m);
        let low = lowest_key(m);
        let i = choose|i: int| 0 <= i < s.len() && #[trigger] s[i].0 == low;
        if i > 0 {
            assert(s[0].0 < s[i].0);
        }
        assert(low == k);
        let r = m.remove(k);
        let t = s.drop_first();
        assert(r.dom() =~= m.dom().remove(k));
        assert forall|x: Price| #[trigger] r.contains_key(x) implies exists|j: int| 0 <= j < t.len() && #[trigger] t[j].0 == x by {
            let j = choose|j: int| 0 <= j < s.len() && #[trigger] s[j].0 == x;
            assert(j != 0);
            assert(t[j - 1].0 == x);
        }
        assert forall|j: int| 0 <= j < t.len() implies #[trigger] r.contains_key(t[j].0) && r[t[j].0] == t[j].1 by {
            assert(t[j] == s[j + 1]);
            assert(s[0].0 < s[j + 1].0);
            assert(m.contains_key(s[j + 1].0));
        }
        assert forall|a: int, b: int| 0 <= a < b < t.len() implies #[trigger] t[a].0 < #[trigger] t[b].0 by {
            assert(t[a] == s[a + 1] && t[b] == s[b + 1]);
        }
        lemma_ascending_levels_unique(r, t);
        assert(s =~= seq![(k, m[k])] + t);
    }
}

/// The level a best-price query reports: the first of `s`, or `(empty, 0)` when there is none.
pub open spec fn head_or(s: Seq<Level>, empty: Price) -> Level {
    if s.len() > 0 {
        s[0]
    } else {
        (empty, QUANTITY_ZERO)
    }
}

/// Past the first level, ask prices never fall and no quantity is zero.
pub open spec fn asks_ordered(s: Seq<Level>, n: int) -> bool {
    forall|i: int| 1 <= i < n ==> s[i - 1].0 <= #[trigger] s[i].0 && s[i].1 != 0
}

/// Past the first level, bid prices never rise and no quantity is zero.
pub open spec fn bids_ordered(s: Seq<Level>, n: int) -> bool {
    forall|i: int| 1 <= i < n ==> s[i - 1].0 >= #[trigger] s[i].0 && s[i].1 != 0
}

/// Whether the best levels pass: the book is not crossed, and a present best level
/// (one whose price is not the empty-side value) holds a non-zero quantity.
pub open spec fn best_levels_ok(ask: Level, bid: Level) -> bool {
    &&& !(ask.0 != PRICE_MIN && bid.0 != PRICE_MAX && ask.0 < bid.0)
    &&& !(ask.0 != PRICE_MIN && ask.1 == 0)
    &&& !(bid.0 != PRICE_MAX && bid.1 == 0)
}

/// Whether a book whose traversals give `asks` and `bids` (each best first) is valid.
pub open spec fn validates(asks: Seq<Level>, bids: Seq<Level>) -> bool {
    &&& best_levels_ok(head_or(asks, PRICE_MIN), head_or(bids, PRICE_MAX))
    &&& asks_ordered(asks, asks.len() as int)
    &&& bids_ordered(bids, bids.len() as int)
}

/// Ascending listings of two sides whose levels are all positive, and whose asks all
/// stand at or above the bids, validate (asks as listed, bids in reverse).
pub proof fn lemma_listed_positive_uncrossed_validates(
    ma: Map<Price, Quantity>,
    mb: Map<Price, Quantity>,
    asks: Seq<Level>,
    asc_b: Seq<Level>,
)
    requires
        strictly_ascending(asks),
        lists(ma, asks),
        strictly_ascending(asc_b),
        lists(mb, asc_b),
        forall|p: Price| #[trigger] ma.contains_key(p) ==> ma[p] > 0,
        forall|p: Price| #[trigger] mb.contains_key(p) ==> mb[p] > 0,
        forall|a: Price, c: Price| #[trigger] ma.contains_key(a) && #[trigger] mb.contains_key(c) ==> a >= c,
    ensures
        validates(asks, asc_b.reverse()),
{
    let bids = asc_b.reverse();
    let n = asc_b.len();
    if asks.len() > 0 {
        assert(ma.contains_key(asks[0].0));
    }
    if n > 0 {
        assert(bids[0] == asc_b[n - 1]);
        assert(mb.contains_key(asc_b[n - 1].0));
    }
    if asks.len() > 0 && n > 0 {
        assert(ma.contains_key(asks[0].0) && mb.contains_key(bids[0].0));
    }
    assert forall|i: int| 1 <= i < asks.len() implies asks[i - 1].0 <= #[trigger] asks[i].0 && asks[i].1 != 0 by {
        assert(ma.contains_key(asks[i].0));
    }
    assert forall|i: int| 1 <= i < bids.len() implies bids[i - 1].0 >= #[trigger] bids[i].0 && bids[i].1 != 0 by {
        assert(bids[i] == asc_b[n - 1 - i] && bids[i - 1] == asc_b[n - i]);
        assert(mb.contains_key(asc_b[n - 1 - i].0));
    }
}

} // verus!
