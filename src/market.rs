use vstd::prelude::*;
use std::collections::BTreeMap;
use vstd::std_specs::btree::{increasing_seq, spec_btree_map_iter};
use vstd::std_specs::iter::IteratorSpec;
use vstd::laws_cmp::obeys_cmp;
use vstd::std_specs::cmp::OrdSpec;

use crate::levels::{
    ascending_levels, head_or, lemma_ascending_levels, lemma_listed_positive_uncrossed_validates, lemma_ascending_levels_unique, lists, strictly_ascending,
    asks_ordered, bids_ordered, best_levels_ok, validates, Level, Price, Quantity, PRICE_MAX,
    PRICE_MIN, QUANTITY_ZERO,
};
use crate::misc::DateTimeUTC;
use crate::utils::WrappedIterator;

verus! {

broadcast use vstd::std_specs::btree::group_btree_axioms;

/// A trade as the exchange reported it.
#[derive(Clone)]
pub struct Trade {
    pub price: Price,
    pub quantity: Quantity,
    /// The trade ID that the exchange assigned.
    pub trade_id: String,
    /// When the trade was received.
    pub timestamp: DateTimeUTC,
    /// Whether the buyer was the maker, where the exchange says.
    pub is_buyer_maker: Option<bool>,
}

/// An order book: ask and bid price levels, walked from the best to the worst.
///
/// A representation supplies the two traversals and the delta; the best-level queries
/// and the validity check are written once, here, on top of the traversals.
pub trait Orderbook {
    /// The ask levels in traversal order, best first.
    spec fn ask_levels(&self) -> Seq<Level>;

    /// The bid levels in traversal order, best first.
    spec fn bid_levels(&self) -> Seq<Level>;

    /// Whether the delta can be applied without leaving the range of `Quantity`.
    spec fn delta_fits(&self, price: Price, quantity: Quantity, is_ask: bool) -> bool;

    /// Whether `self` is `before` with the delta applied.
    spec fn delta_applied(&self, before: &Self, price: Price, quantity: Quantity, is_ask: bool) -> bool;

    /// Return a sequence of the asks, from the best to the worst.
    fn iter_ask(&self) -> (r: WrappedIterator<Level>)
        ensures
            r.wf(),
            r@ == self.ask_levels(),
    ;

    /// Return a sequence of the bids, from the best to the worst.
    fn iter_bid(&self) -> (r: WrappedIterator<Level>)
        ensures
            r.wf(),
            r@ == self.bid_levels(),
    ;

    /// Add `quantity` at `price` on the ask side (`is_ask`) or the bid side.
    /// The book that results need not be valid.
    fn apply_delta(&mut self, price: Price, quantity: Quantity, is_ask: bool)
        requires
            old(self).delta_fits(price, quantity, is_ask),
        ensures
            final(self).delta_applied(old(self), price, quantity, is_ask),
    ;

    /// Return the best ask price and quantity, and the remaining ask levels.
    /// With no ask, the price is `PRICE_MIN` and the quantity zero.
    fn best_ask(&self) -> (r: (Price, Quantity, WrappedIterator<Level>))
        ensures
            (r.0, r.1) == head_or(self.ask_levels(), PRICE_MIN),
            r.2.wf(),
            r.2@ == if self.ask_levels().len() > 0 { self.ask_levels().drop_first() } else { self.ask_levels() },
    {
        split_best(self.iter_ask(), PRICE_MIN)
    }

    /// Return the best bid price and quantity, and the remaining bid levels.
    /// With no bid, the price is `PRICE_MAX` and the quantity zero.
    fn best_bid(&self) -> (r: (Price, Quantity, WrappedIterator<Level>))
        ensures
            (r.0, r.1) == head_or(self.bid_levels(), PRICE_MAX),
            r.2.wf(),
            r.2@ == if self.bid_levels().len() > 0 { self.bid_levels().drop_first() } else { self.bid_levels() },
    {
        split_best(self.iter_bid(), PRICE_MAX)
    }

    /// Check, in one pass, that the book is not crossed, that no level holds a zero
    /// quantity, and that asks rise and bids fall from the best level on.
    fn validate(&self) -> (r: bool)
        ensures
            r == validates(self.ask_levels(), self.bid_levels()),
    {
        validate_levels(self.iter_ask(), self.iter_bid())
    }
}

/// Split a traversal into its first level and the rest; with no level, the first is
/// `(empty, 0)`.
pub fn split_best(levels: WrappedIterator<Level>, empty: Price) -> (r: (Price, Quantity, WrappedIterator<Level>))
    requires
        levels.wf(),
    ensures
        (r.0, r.1) == head_or(levels@, empty),
        r.2.wf(),
        r.2@ == if levels@.len() > 0 { levels@.drop_first() } else { levels@ },
{
    let mut levels = levels;
    match levels.next() {
        Some((price, quantity)) => (price, quantity, levels),
        None => (empty, QUANTITY_ZERO, levels),
    }
}

/// Check, in one pass, the ask and bid traversals of a book (each best first): the book is
/// not crossed, no level holds a zero quantity, and asks rise and bids fall from the best on.
pub fn validate_levels(asks_iter: WrappedIterator<Level>, bids_iter: WrappedIterator<Level>) -> (r: bool)
    requires
        asks_iter.wf(),
        bids_iter.wf(),
    ensures
        r == validates(asks_iter@, bids_iter@),
{
    let ghost asks = asks_iter@;
    let ghost bids = bids_iter@;
    let (mut prev_ask_p, prev_ask_q, mut iter_ask) = split_best(asks_iter, PRICE_MIN);
    let (mut prev_bid_p, prev_bid_q, mut iter_bid) = split_best(bids_iter, PRICE_MAX);
    if (prev_ask_p != PRICE_MIN && prev_bid_p != PRICE_MAX && prev_ask_p < prev_bid_p)
        || (prev_ask_p != PRICE_MIN && prev_ask_q == 0)
        || (prev_bid_p != PRICE_MAX && prev_bid_q == 0)
    {
        return false;
    }
    assert(best_levels_ok(head_or(asks, PRICE_MIN), head_or(bids, PRICE_MAX)));
    loop
        invariant_except_break
            asks == asks_iter@,
            bids == bids_iter@,
            iter_ask.wf(),
            iter_bid.wf(),
            iter_bid@ == if bids.len() > 0 { bids.drop_first() } else { bids },
            bids.len() > 0 ==> prev_bid_p == bids[0].0,
            best_levels_ok(head_or(asks, PRICE_MIN), head_or(bids, PRICE_MAX)),
            iter_ask@ == asks.skip(asks.len() - iter_ask@.len()),
            iter_ask@.len() <= asks.len(),
            asks.len() > 0 ==> iter_ask@.len() < asks.len(),
            asks.len() > 0 ==> prev_ask_p == asks[asks.len() - iter_ask@.len() - 1].0,
            asks_ordered(asks, asks.len() - iter_ask@.len()),
        ensures
            best_levels_ok(head_or(asks, PRICE_MIN), head_or(bids, PRICE_MAX)),
            asks_ordered(asks, asks.len() as int),
        decreases iter_ask@.len(),
    {
        let ghost n = asks.len() - iter_ask@.len();
        match iter_ask.next() {
            Some((worse_ask_p, worse_ask_q)) => {
                assert(asks[n] == (worse_ask_p, worse_ask_q));
                if prev_ask_p > worse_ask_p || worse_ask_q == 0 {
                    assert(!asks_ordered(asks, asks.len() as int)) by {
                        assert(asks[n].1 == worse_ask_q);
                    }
                    return false;
                }
                prev_ask_p = worse_ask_p;
            },
            None => break,
        }
    }
    loop
        invariant_except_break
            asks == asks_iter@,
            bids == bids_iter@,
            iter_bid.wf(),
            best_levels_ok(head_or(asks, PRICE_MIN), head_or(bids, PRICE_MAX)),
            asks_ordered(asks, asks.len() as int),
            iter_bid@ == bids.skip(bids.len() - iter_bid@.len()),
            iter_bid@.len() <= bids.len(),
            bids.len() > 0 ==> iter_bid@.len() < bids.len(),
            bids.len() > 0 ==> prev_bid_p == bids[bids.len() - iter_bid@.len() - 1].0,
            bids_ordered(bids, bids.len() - iter_bid@.len()),
        ensures
            asks_ordered(asks, asks.len() as int),
            bids_ordered(bids, bids.len() as int),
        decreases iter_bid@.len(),
    {
        let ghost n = bids.len() - iter_bid@.len();
        match iter_bid.next() {
            Some((worse_bid_p, worse_bid_q)) => {
                assert(bids[n] == (worse_bid_p, worse_bid_q));
                if prev_bid_p < worse_bid_p || worse_bid_q == 0 {
                    assert(!bids_ordered(bids, bids.len() as int)) by {
                        assert(bids[n].1 == worse_bid_q);
                    }
                    return false;
                }
                prev_bid_p = worse_bid_p;
            },
            None => break,
        }
    }
    true
}

/// Lists the entries of `m` from the lowest price to the highest.
fn ascending_entries(m: &BTreeMap<Price, Quantity>) -> (r: Vec<Level>)
    ensures
        r@ == ascending_levels(m@),
{
    let mut out: Vec<Level> = Vec::new();
    let entries = m.iter();
    let ghost keys = entries.remaining().map_values(|kv: (&Price, &Quantity)| *kv.0);
    assert(increasing_seq(keys));
    for kv in it: entries
        invariant
            it.seq() == spec_btree_map_iter(m).remaining(),
            keys == it.seq().map_values(|kv: (&Price, &Quantity)| *kv.0),
            increasing_seq(keys),
            out@.len() == it.index(),
            forall|i: int| 0 <= i < it.index() ==> #[trigger] out@[i] == (*it.seq()[i].0, *it.seq()[i].1),
    {
        out.push((*kv.0, *kv.1));
    }
    let ghost v = spec_btree_map_iter(m).remaining();
    assert(v.len() == out@.len());
    assert forall|i: int, j: int| 0 <= i < j < out@.len() implies #[trigger] out@[i].0 < #[trigger] out@[j].0 by {
        assert(keys[i] == out@[i].0 && keys[j] == out@[j].0);
        assert(obeys_cmp::<Price>());
        assert(keys[i].cmp_spec(&keys[j]) is Less);
    }
    assert forall|k: Price| #[trigger] m@.contains_key(k) implies exists|i: int| 0 <= i < out@.len() && #[trigger] out@[i].0 == k by {
        assert(v.contains((&k, &m@[k])));
        let i = choose|i: int| 0 <= i < v.len() && v[i] == (&k, &m@[k]);
        assert(out@[i].0 == k);
    }
    assert forall|i: int| 0 <= i < out@.len() implies #[trigger] m@.contains_key(out@[i].0) && m@[out@[i].0] == out@[i].1 by {
        assert(m@.contains_key(*v[i].0));
    }
    assert(strictly_ascending(out@));
    assert(lists(m@, out@));
    proof {
        lemma_ascending_levels_unique(m@, out@);
    }
    out
}

/// The same levels in the opposite order.
fn reversed(v: Vec<Level>) -> (r: Vec<Level>)
    ensures
        r@ == v@.reverse(),
{
    let mut out: Vec<Level> = Vec::new();
    let mut i: usize = v.len();
    while i > 0
        invariant
            i <= v.len(),
            out@ == v@.subrange(i as int, v.len() as int).reverse(),
        decreases i,
    {
        i = i - 1;
        out.push(v[i]);
        assert(out@ =~= v@.subrange(i as int, v.len() as int).reverse());
    }
    assert(v@.subrange(0, v.len() as int) =~= v@);
    out
}

/// The quantity resting at `price` in `m`, zero where there is no level.
pub open spec fn quantity_at(m: Map<Price, Quantity>, price: Price) -> int {
    if m.contains_key(price) {
        m[price] as int
    } else {
        0
    }
}

/// Whether adding `quantity` at `price` stays in the range of `Quantity`.
pub open spec fn add_fits(m: Map<Price, Quantity>, price: Price, quantity: Quantity) -> bool {
    i128::MIN <= quantity_at(m, price) + quantity <= i128::MAX
}

/// `m` with `quantity` added at `price`, the level created if it was absent.
pub open spec fn added(m: Map<Price, Quantity>, price: Price, quantity: Quantity) -> Map<Price, Quantity> {
    m.insert(price, (quantity_at(m, price) + quantity) as Quantity)
}

fn add_at(m: &mut BTreeMap<Price, Quantity>, price: Price, quantity: Quantity)
    requires
        add_fits(old(m)@, price, quantity),
    ensures
        final(m)@ == added(old(m)@, price, quantity),
{
    let current: Quantity = match m.get(&price) {
        Some(q) => *q,
        None => QUANTITY_ZERO,
    };
    m.insert(price, current + quantity);
}

/// An order book of unbounded depth that keeps one total quantity per price level.
#[derive(Clone)]
pub struct UnsizedOrderbook {
    asks: BTreeMap<Price, Quantity>,
    bids: BTreeMap<Price, Quantity>,
}

impl UnsizedOrderbook {
    /// The ask side: price to total quantity.
    pub closed spec fn asks_map(&self) -> Map<Price, Quantity> {
        self.asks@
    }

    /// The bid side: price to total quantity.
    pub closed spec fn bids_map(&self) -> Map<Price, Quantity> {
        self.bids@
    }

    /// Create a book with no level on either side.
    pub fn new() -> (r: Self)
        ensures
            r.asks_map() == Map::<Price, Quantity>::empty(),
            r.bids_map() == Map::<Price, Quantity>::empty(),
    {
        UnsizedOrderbook { asks: BTreeMap::new(), bids: BTreeMap::new() }
    }

    /// Both sides are finite maps.
    pub proof fn lemma_finite(&self)
        ensures
            self.asks_map().dom().finite(),
            self.bids_map().dom().finite(),
    {
    }
}

impl Default for UnsizedOrderbook {
    fn default() -> (r: Self)
        ensures
            r.asks_map() == Map::<Price, Quantity>::empty(),
            r.bids_map() == Map::<Price, Quantity>::empty(),
    {
        UnsizedOrderbook::new()
    }
}

impl Orderbook for UnsizedOrderbook {
    open spec fn ask_levels(&self) -> Seq<Level> {
        ascending_levels(self.asks_map())
    }

    open spec fn bid_levels(&self) -> Seq<Level> {
        ascending_levels(self.bids_map()).reverse()
    }

    open spec fn delta_fits(&self, price: Price, quantity: Quantity, is_ask: bool) -> bool {
        if is_ask {
            add_fits(self.asks_map(), price, quantity)
        } else {
            add_fits(self.bids_map(), price, quantity)
        }
    }

    open spec fn delta_applied(&self, before: &Self, price: Price, quantity: Quantity, is_ask: bool) -> bool {
        if is_ask {
            &&& self.asks_map() == added(before.asks_map(), price, quantity)
            &&& self.bids_map() == before.bids_map()
        } else {
            &&& self.bids_map() == added(before.bids_map(), price, quantity)
            &&& self.asks_map() == before.asks_map()
        }
    }

    fn iter_ask(&self) -> (r: WrappedIterator<Level>) {
        WrappedIterator::new(ascending_entries(&self.asks))
    }

    fn iter_bid(&self) -> (r: WrappedIterator<Level>) {
        WrappedIterator::new(reversed(ascending_entries(&self.bids)))
    }

    fn apply_delta(&mut self, price: Price, quantity: Quantity, is_ask: bool) {
        if is_ask {
            add_at(&mut self.asks, price, quantity);
        } else {
            add_at(&mut self.bids, price, quantity);
        }
    }
}

/// A book whose levels all hold a positive quantity, and whose asks all stand at or above
/// its bids, is valid: however such a book was reached by deltas, `validate` returns true.
pub proof fn lemma_positive_uncrossed_book_validates(b: UnsizedOrderbook)
    requires
        forall|p: Price| #[trigger] b.asks_map().contains_key(p) ==> b.asks_map()[p] > 0,
        forall|p: Price| #[trigger] b.bids_map().contains_key(p) ==> b.bids_map()[p] > 0,
        forall|a: Price, c: Price|
            #[trigger] b.asks_map().contains_key(a) && #[trigger] b.bids_map().contains_key(c) ==> a >= c,
    ensures
        validates(b.ask_levels(), b.bid_levels()),
{
    b.lemma_finite();
    lemma_ascending_levels(b.asks_map());
    lemma_ascending_levels(b.bids_map());
    lemma_listed_positive_uncrossed_validates(
        b.asks_map(),
        b.bids_map(),
        ascending_levels(b.asks_map()),
        ascending_levels(b.bids_map()),
    );
}

/// Adding a quantity at a price and then taking the same quantity away leaves the quantity
/// at that price as it was; every other level, and the other side, are untouched.
pub proof fn lemma_delta_round_trip(
    before: UnsizedOrderbook,
    mid: UnsizedOrderbook,
    after: UnsizedOrderbook,
    price: Price,
    quantity: Quantity,
    is_ask: bool,
)
    requires
        quantity > i128::MIN,
        before.delta_fits(price, quantity, is_ask),
        mid.delta_applied(&before, price, quantity, is_ask),
        after.delta_applied(&mid, price, (-quantity) as Quantity, is_ask),
    ensures
        mid.delta_fits(price, (-quantity) as Quantity, is_ask),
        is_ask ==> quantity_at(after.asks_map(), price) == quantity_at(before.asks_map(), price),
        !is_ask ==> quantity_at(after.bids_map(), price) == quantity_at(before.bids_map(), price),
        forall|p: Price| p != price ==> {
            &&& #[trigger] after.asks_map().contains_key(p) == before.asks_map().contains_key(p)
            &&& after.asks_map()[p] == before.asks_map()[p]
            &&& after.bids_map().contains_key(p) == before.bids_map().contains_key(p)
            &&& after.bids_map()[p] == before.bids_map()[p]
        },
        is_ask ==> after.bids_map() == before.bids_map(),
        !is_ask ==> after.asks_map() == before.asks_map(),
{
}

} // verus!
