//! Sorted price levels and order books rebuilt from snapshots and deltas.
use vstd::prelude::*;

verus! {

/// Which side of the book a set of price levels belongs to.
#[derive(Clone, Copy, Debug, PartialEq, Eq, Structural)]
pub enum Side {
    Bid,
    Ask,
}

/// One price level: a price and the size still resting there.
///
/// Prices and sizes are fixed-point integers in units that the caller picks.
#[derive(Clone, Copy, Debug, PartialEq, Eq, Structural)]
pub struct PriceLevel {
    pub price: u64,
    pub size: u64,
}

/// A level at price `a` comes before one at price `b` on this side:
/// bids from the highest price down, asks from the lowest price up.
pub open spec fn precedes(side: Side, a: u64, b: u64) -> bool {
    match side {
        Side::Bid => a > b,
        Side::Ask => a < b,
    }
}

/// Levels strictly ordered for their side, with no level of size zero.
pub open spec fn levels_wf(side: Side, s: Seq<PriceLevel>) -> bool {
    &&& forall|i: int, j: int| 0 <= i < j < s.len() ==> precedes(side, #[trigger] s[i].price, #[trigger] s[j].price)
    &&& forall|i: int| 0 <= i < s.len() ==> #[trigger] s[i].size > 0
}

/// The size resting at `price`, zero where no level has that price.
pub open spec fn size_at(s: Seq<PriceLevel>, price: u64) -> nat
    decreases s.len(),
{
    if s.len() == 0 {
        0
    } else if s[0].price == price {
        s[0].size as nat
    } else {
        size_at(s.drop_first(), price)
    }
}

/// Sets the level at `price` to `size` in an ordered sequence of levels:
/// a positive size replaces or inserts the level in its place, a zero size
/// removes it.
pub open spec fn upsert_level(side: Side, s: Seq<PriceLevel>, price: u64, size: u64) -> Seq<PriceLevel>
    decreases s.len(),
{
    if s.len() == 0 {
        if size > 0 {
            seq![PriceLevel { price, size }]
        } else {
            seq![]
        }
    } else if s[0].price == price {
        if size > 0 {
            seq![PriceLevel { price, size }] + s.drop_first()
        } else {
            s.drop_first()
        }
    } else if precedes(side, s[0].price, price) {
        seq![s[0]] + upsert_level(side, s.drop_first(), price, size)
    } else if size > 0 {
        seq![PriceLevel { price, size }] + s
    } else {
        s
    }
}

/// Applies the `(price, size)` pairs one after another, in order.
pub open spec fn apply_levels(side: Side, s: Seq<PriceLevel>, pairs: Seq<(u64, u64)>) -> Seq<PriceLevel>
    decreases pairs.len(),
{
    if pairs.len() == 0 {
        s
    } else {
        upsert_level(side, apply_levels(side, s, pairs.drop_last()), pairs.last().0, pairs.last().1)
    }
}

proof fn lemma_size_absent(s: Seq<PriceLevel>, price: u64)
    requires
        forall|i: int| 0 <= i < s.len() ==> #[trigger] s[i].price != price,
    ensures
        size_at(s, price) == 0,
    decreases s.len(),
{
    if s.len() > 0 {
        assert forall|i: int| 0 <= i < s.drop_first().len() implies #[trigger] s.drop_first()[i].price != price by {
            assert(s.drop_first()[i] == s[i + 1]);
        }
        lemma_size_absent(s.drop_first(), price);
    }
}

proof fn lemma_wf_tail(side: Side, s: Seq<PriceLevel>)
    requires
        levels_wf(side, s),
        s.len() > 0,
    ensures
        levels_wf(side, s.drop_first()),
{
    let t = s.drop_first();
    assert forall|i: int, j: int| 0 <= i < j < t.len() implies precedes(side, #[trigger] t[i].price, #[trigger] t[j].price) by {
        assert(t[i] == s[i + 1] && t[j] == s[j + 1]);
    }
    assert forall|i: int| 0 <= i < t.len() implies #[trigger] t[i].size > 0 by {
        assert(t[i] == s[i + 1]);
    }
}

/// Upserting keeps the levels well formed, sets the size at `price` and
/// leaves every other price as it was.
pub proof fn lemma_upsert_level(side: Side, s: Seq<PriceLevel>, price: u64, size: u64)
    requires
        levels_wf(side, s),
    ensures
        levels_wf(side, upsert_level(side, s, price, size)),
        size_at(upsert_level(side, s, price, size), price) == size as nat,
        forall|q: u64| q != price ==> #[trigger] size_at(upsert_level(side, s, price, size), q) == size_at(s, q),
        forall|i: int| 0 <= i < upsert_level(side, s, price, size).len() ==> {
            let l = #[trigger] upsert_level(side, s, price, size)[i];
            l == PriceLevel { price, size } || s.contains(l)
        },
    decreases s.len(),
{
    let r = upsert_level(side, s, price, size);
    let lv = PriceLevel { price, size };
    if s.len() == 0 {
        if size > 0 {
            assert(r[0] == lv);
            assert(r.drop_first().len() == 0);
            assert forall|q: u64| q != price implies #[trigger] size_at(r, q) == size_at(s, q) by {
                assert(size_at(r, q) == size_at(r.drop_first(), q));
            }
        }
    } else {
        let t = s.drop_first();
        lemma_wf_tail(side, s);
        assert forall|i: int| 0 <= i < t.len() implies precedes(side, s[0].price, #[trigger] t[i].price) by {
            assert(t[i] == s[i + 1]);
        }
        assert forall|i: int| 0 <= i < t.len() implies #[trigger] s.contains(t[i]) by {
            assert(t[i] == s[i + 1]);
        }
        if s[0].price == price {
            if size > 0 {
                assert(r.drop_first() =~= t);
                assert forall|q: u64| q != price implies #[trigger] size_at(r, q) == size_at(s, q) by {
                    assert(size_at(r, q) == size_at(r.drop_first(), q));
                }
            } else {
                assert forall|i: int| 0 <= i < t.len() implies #[trigger] t[i].price != price by {}
                lemma_size_absent(t, price);
            }
        } else if precedes(side, s[0].price, price) {
            lemma_upsert_level(side, t, price, size);
            let u = upsert_level(side, t, price, size);
            assert(r.drop_first() =~= u);
            assert forall|q: u64| q != price implies #[trigger] size_at(r, q) == size_at(s, q) by {
                if s[0].price != q {
                    assert(size_at(u, q) == size_at(t, q));
                }
            }
            assert forall|i: int| 0 <= i < u.len() implies precedes(side, s[0].price, #[trigger] u[i].price) by {
                let l = u[i];
                if l != lv {
                    let k = choose|k: int| 0 <= k < t.len() && t[k] == l;
                    assert(t[k].price == l.price);
                }
            }
            assert forall|i: int, j: int| 0 <= i < j < r.len() implies precedes(side, #[trigger] r[i].price, #[trigger] r[j].price) by {
                if i == 0 {
                    assert(r[j] == u[j - 1]);
                } else {
                    assert(r[i] == u[i - 1] && r[j] == u[j - 1]);
                }
            }
            assert forall|i: int| 0 <= i < r.len() implies #[trigger] r[i].size > 0 by {
                if i > 0 {
                    assert(r[i] == u[i - 1]);
                }
            }
            assert forall|i: int| 0 <= i < r.len() implies {
                let l = #[trigger] r[i];
                l == lv || s.contains(l)
            } by {
                if i == 0 {
                    assert(s[0] == r[0]);
                } else {
                    assert(r[i] == u[i - 1]);
                }
            }
        } else {
            assert forall|i: int| 0 <= i < s.len() implies #[trigger] s[i].price != price by {
                if i > 0 {
                    assert(precedes(side, s[0].price, s[i].price));
                }
            }
            if size > 0 {
                assert(r.drop_first() =~= s);
                assert forall|q: u64| q != price implies #[trigger] size_at(r, q) == size_at(s, q) by {
                    assert(size_at(r, q) == size_at(r.drop_first(), q));
                }
                assert forall|i: int, j: int| 0 <= i < j < r.len() implies precedes(side, #[trigger] r[i].price, #[trigger] r[j].price) by {
                    assert(r[j] == s[j - 1]);
                    if i > 0 {
                        assert(r[i] == s[i - 1]);
                    }
                    if j > 1 {
                        assert(precedes(side, s[0].price, s[j - 1].price));
                    }
                }
                assert forall|i: int| 0 <= i < r.len() implies {
                    let l = #[trigger] r[i];
                    l == lv || s.contains(l)
                } by {
                    if i > 0 {
                        assert(r[i] == s[i - 1]);
                    }
                }
            } else {
                lemma_size_absent(s, price);
            }
        }
    }
}

/// The size that the pairs give `price` last, or `default` where none of
/// them names it.
pub open spec fn last_size(pairs: Seq<(u64, u64)>, price: u64, default: nat) -> nat
    decreases pairs.len(),
{
    if pairs.len() == 0 {
        default
    } else if pairs.last().0 == price {
        pairs.last().1 as nat
    } else {
        last_size(pairs.drop_last(), price, default)
    }
}

/// Applying a list of pairs keeps the levels well formed; each price ends
/// with the size that the pairs give it last, and a price that they do not
/// name keeps its size.
pub proof fn lemma_apply_levels(side: Side, s: Seq<PriceLevel>, pairs: Seq<(u64, u64)>)
    requires
        levels_wf(side, s),
    ensures
        levels_wf(side, apply_levels(side, s, pairs)),
        forall|q: u64| #[trigger] size_at(apply_levels(side, s, pairs), q) == last_size(pairs, q, size_at(s, q)),
    decreases pairs.len(),
{
    if pairs.len() > 0 {
        let d = pairs.drop_last();
        lemma_apply_levels(side, s, d);
        let a = apply_levels(side, s, d);
        lemma_upsert_level(side, a, pairs.last().0, pairs.last().1);
        assert forall|q: u64| #[trigger] size_at(apply_levels(side, s, pairs), q) == last_size(pairs, q, size_at(s, q)) by {
            if q != pairs.last().0 {
                assert(size_at(upsert_level(side, a, pairs.last().0, pairs.last().1), q) == size_at(a, q));
            }
        }
    }
}

proof fn lemma_size_before_head(side: Side, s: Seq<PriceLevel>, q: u64)
    requires
        levels_wf(side, s),
        s.len() > 0,
        precedes(side, q, s[0].price),
    ensures
        size_at(s, q) == 0,
{
    assert forall|i: int| 0 <= i < s.len() implies #[trigger] s[i].price != q by {
        if i > 0 {
            assert(precedes(side, s[0].price, s[i].price));
        }
    }
    lemma_size_absent(s, q);
}

/// Well-formed levels are fixed by the size that they give each price.
pub proof fn lemma_levels_determined(side: Side, s: Seq<PriceLevel>, t: Seq<PriceLevel>)
    requires
        levels_wf(side, s),
        levels_wf(side, t),
        forall|q: u64| #[trigger] size_at(s, q) == size_at(t, q),
    ensures
        s == t,
    decreases s.len() + t.len(),
{
    if s.len() == 0 && t.len() == 0 {
        assert(s =~= t);
    } else if s.len() == 0 && t.len() > 0 {
        assert(size_at(s, t[0].price) == 0);
        assert(size_at(t, t[0].price) > 0);
    } else if t.len() == 0 && s.len() > 0 {
        assert(size_at(t, s[0].price) == 0);
        assert(size_at(s, s[0].price) > 0);
    } else if s.len() > 0 {
        let (p, r) = (s[0].price, t[0].price);
        if precedes(side, p, r) {
            lemma_size_before_head(side, t, p);
            assert(size_at(s, p) > 0);
        } else if precedes(side, r, p) {
            lemma_size_before_head(side, s, r);
            assert(size_at(t, r) > 0);
        } else {
            assert(p == r);
            assert(size_at(s, p) == s[0].size && size_at(t, p) == t[0].size);
            lemma_wf_tail(side, s);
            lemma_wf_tail(side, t);
            let (s1, t1) = (s.drop_first(), t.drop_first());
            assert forall|q: u64| #[trigger] size_at(s1, q) == size_at(t1, q) by {
                if q == p {
                    if s1.len() > 0 {
                        lemma_size_before_head(side, s1, q);
                    }
                    if t1.len() > 0 {
                        lemma_size_before_head(side, t1, q);
                    }
                } else {
                    assert(size_at(s, q) == size_at(s1, q));
                    assert(size_at(t, q) == size_at(t1, q));
                }
            }
            lemma_levels_determined(side, s1, t1);
            assert(s[0] == t[0]);
            assert(s =~= seq![s[0]] + s1);
            assert(t =~= seq![t[0]] + t1);
        }
    }
}

/// The levels that a snapshot builds depend only on the size that it gives
/// each price last, not on the order of its pairs, and stand in their
/// side's order.
pub proof fn lemma_snapshot_order_free(side: Side, a: Seq<(u64, u64)>, b: Seq<(u64, u64)>)
    requires
        forall|q: u64| #[trigger] last_size(a, q, 0) == last_size(b, q, 0),
    ensures
        apply_levels(side, Seq::empty(), a) == apply_levels(side, Seq::empty(), b),
        levels_wf(side, apply_levels(side, Seq::empty(), a)),
{
    let e = Seq::<PriceLevel>::empty();
    lemma_apply_levels(side, e, a);
    lemma_apply_levels(side, e, b);
    assert forall|q: u64| #[trigger] size_at(apply_levels(side, e, a), q) == size_at(apply_levels(side, e, b), q) by {
        assert(size_at(e, q) == 0);
        assert(last_size(a, q, 0) == last_size(b, q, 0));
    }
    lemma_levels_determined(side, apply_levels(side, e, a), apply_levels(side, e, b));
}

/// Every prefix of levels that all come before `price` stays in front of an
/// upsert at `price`.
proof fn lemma_upsert_split(side: Side, s: Seq<PriceLevel>, i: int, price: u64, size: u64)
    requires
        0 <= i <= s.len(),
        forall|j: int| 0 <= j < i ==> precedes(side, #[trigger] s[j].price, price),
    ensures
        upsert_level(side, s, price, size) == s.take(i) + upsert_level(side, s.skip(i), price, size),
    decreases i,
{
    if i == 0 {
        assert(s.take(0) + s.skip(0) =~= s);
        assert(s.skip(0) =~= s);
        assert(s.take(0) + upsert_level(side, s, price, size) =~= upsert_level(side, s, price, size));
    } else {
        let t = s.drop_first();
        assert(precedes(side, s[0].price, price));
        assert(s[0].price != price) by {
            assert(precedes(side, s[0].price, price));
        }
        assert forall|j: int| 0 <= j < i - 1 implies precedes(side, #[trigger] t[j].price, price) by {
            assert(t[j] == s[j + 1]);
        }
        lemma_upsert_split(side, t, i - 1, price, size);
        assert(t.skip(i - 1) =~= s.skip(i));
        assert(seq![s[0]] + t.take(i - 1) =~= s.take(i));
        assert(seq![s[0]] + (t.take(i - 1) + upsert_level(side, s.skip(i), price, size))
            =~= s.take(i) + upsert_level(side, s.skip(i), price, size));
    }
}

/// Levels of one side of a book, kept in that side's order.
#[derive(Clone, Debug)]
pub struct PriceLevels {
    pub side: Side,
    pub levels: Vec<PriceLevel>,
}

impl PriceLevels {
    pub open spec fn wf(&self) -> bool {
        levels_wf(self.side, self.levels@)
    }

    /// An empty set of levels for `side`.
    pub fn new(side: Side) -> (r: PriceLevels)
        ensures
            r.side == side,
            r.levels@ == Seq::<PriceLevel>::empty(),
            r.wf(),
    {
        PriceLevels { side, levels: Vec::new() }
    }

    /// Levels built from `(price, size)` pairs given in any order; a later
    /// pair for a price overrides an earlier one and a zero size leaves the
    /// price out.
    pub fn from_tuples_vec_unsorted(side: Side, pairs: &Vec<(u64, u64)>) -> (r: PriceLevels)
        ensures
            r.side == side,
            r.levels@ == apply_levels(side, Seq::<PriceLevel>::empty(), pairs@),
            r.wf(),
    {
        let mut r = PriceLevels::new(side);
        r.update(pairs);
        r
    }

    /// The size resting at `price`, zero where there is no such level.
    pub fn size_at(&self, price: u64) -> (r: u64)
        requires
            self.wf(),
        ensures
            r as nat == size_at(self.levels@, price),
    {
        let mut i: usize = 0;
        assert(self.levels@.skip(0) =~= self.levels@);
        while i < self.levels.len()
            invariant
                i <= self.levels@.len(),
                size_at(self.levels@, price) == size_at(self.levels@.skip(i as int), price),
            decreases self.levels@.len() - i,
        {
            assert(self.levels@.skip(i as int).drop_first() =~= self.levels@.skip(i as int + 1));
            if self.levels[i].price == price {
                return self.levels[i].size;
            }
            i = i + 1;
        }
        assert(self.levels@.skip(i as int).len() == 0);
        0
    }

    /// Sets the level at `price` to `size`: a positive size replaces or
    /// inserts the level, a zero size removes it.
    pub fn upsert(&mut self, price: u64, size: u64)
        requires
            old(self).wf(),
        ensures
            final(self).side == old(self).side,
            final(self).levels@ == upsert_level(old(self).side, old(self).levels@, price, size),
            final(self).wf(),
    {
        let ghost s = self.levels@;
        proof {
            lemma_upsert_level(self.side, s, price, size);
        }
        let mut i: usize = 0;
        let mut found: bool = false;
        while i < self.levels.len() && !found
            invariant
                i <= self.levels@.len(),
                self.levels@ == s,
                forall|j: int| 0 <= j < i ==> precedes(self.side, #[trigger] s[j].price, price),
                found ==> i < s.len() && !precedes(self.side, s[i as int].price, price),
            decreases self.levels@.len() - i + (if found { 0int } else { 1int }),
        {
            if precedes_exec(self.side, self.levels[i].price, price) {
                i = i + 1;
            } else {
                found = true;
            }
        }
        proof {
            lemma_upsert_split(self.side, s, i as int, price, size);
        }
        let ghost rest = s.skip(i as int);
        let lv = PriceLevel { price, size };
        if i == self.levels.len() {
            if size > 0 {
                self.levels.push(lv);
                assert(self.levels@ =~= s.take(i as int) + seq![lv]);
            } else {
                assert(s.take(i as int) + seq![] =~= s);
            }
        } else {
            assert(rest[0] == s[i as int]);
            assert(rest.drop_first() =~= s.skip(i as int + 1));
            if self.levels[i].price == price {
                if size > 0 {
                    self.levels.set(i, lv);
                    assert(self.levels@ =~= s.take(i as int) + (seq![lv] + rest.drop_first()));
                } else {
                    self.levels.remove(i);
                    assert(self.levels@ =~= s.take(i as int) + rest.drop_first());
                }
            } else if size > 0 {
                self.levels.insert(i, lv);
                assert(self.levels@ =~= s.take(i as int) + (seq![lv] + rest));
            } else {
                assert(s.take(i as int) + rest =~= s);
            }
        }
    }

    /// Applies the `(price, size)` pairs in order, as `upsert` does each.
    pub fn update(&mut self, pairs: &Vec<(u64, u64)>)
        requires
            old(self).wf(),
        ensures
            final(self).side == old(self).side,
            final(self).levels@ == apply_levels(old(self).side, old(self).levels@, pairs@),
            final(self).wf(),
    {
        let ghost s = self.levels@;
        let mut k: usize = 0;
        while k < pairs.len()
            invariant
                k <= pairs@.len(),
                self.side == old(self).side,
                s == old(self).levels@,
                self.wf(),
                self.levels@ == apply_levels(self.side, s, pairs@.take(k as int)),
            decreases pairs@.len() - k,
        {
            let (p, z) = pairs[k];
            self.upsert(p, z);
            assert(pairs@.take(k as int + 1).drop_last() =~= pairs@.take(k as int));
            k = k + 1;
        }
        assert(pairs@.take(k as int) =~= pairs@);
    }
}

fn precedes_exec(side: Side, a: u64, b: u64) -> (r: bool)
    ensures
        r == precedes(side, a, b),
{
    match side {
        Side::Bid => a > b,
        Side::Ask => a < b,
    }
}

/// What a book holds, as mathematical values.
pub struct BookView {
    pub bids: Seq<PriceLevel>,
    pub asks: Seq<PriceLevel>,
    pub time: u64,
}

/// The book of one market: bids, asks, and the exchange time of the last
/// snapshot or delta applied to it.
#[derive(Debug)]
pub struct OrderBook {
    pub bids: PriceLevels,
    pub asks: PriceLevels,
    pub time: u64,
}

impl View for OrderBook {
    type V = BookView;

    open spec fn view(&self) -> BookView {
        BookView { bids: self.bids.levels@, asks: self.asks.levels@, time: self.time }
    }
}

impl OrderBook {
    pub open spec fn wf(&self) -> bool {
        &&& self.bids.side == Side::Bid
        &&& self.asks.side == Side::Ask
        &&& self.bids.wf()
        &&& self.asks.wf()
    }

    /// An empty book at time zero.
    pub fn new() -> (r: OrderBook)
        ensures
            r.wf(),
            r@ == (BookView { bids: Seq::empty(), asks: Seq::empty(), time: 0 }),
    {
        OrderBook { bids: PriceLevels::new(Side::Bid), asks: PriceLevels::new(Side::Ask), time: 0 }
    }

    /// The book that a full snapshot describes, whatever order its pairs
    /// come in.
    pub fn from_snapshot(bids: &Vec<(u64, u64)>, asks: &Vec<(u64, u64)>, time: u64) -> (r: OrderBook)
        ensures
            r.wf(),
            r@ == (BookView {
                bids: apply_levels(Side::Bid, Seq::empty(), bids@),
                asks: apply_levels(Side::Ask, Seq::empty(), asks@),
                time,
            }),
    {
        OrderBook {
            bids: PriceLevels::from_tuples_vec_unsorted(Side::Bid, bids),
            asks: PriceLevels::from_tuples_vec_unsorted(Side::Ask, asks),
            time,
        }
    }

    /// Merges a delta into the book and takes its time.
    pub fn update_with_timestamp(&mut self, bids: &Vec<(u64, u64)>, asks: &Vec<(u64, u64)>, time: u64)
        requires
            old(self).wf(),
        ensures
            final(self).wf(),
            final(self)@ == (BookView {
                bids: apply_levels(Side::Bid, old(self)@.bids, bids@),
                asks: apply_levels(Side::Ask, old(self)@.asks, asks@),
                time,
            }),
    {
        self.bids.update(bids);
        self.asks.update(asks);
        self.time = time;
    }

    /// An independent copy of the book.
    pub fn snapshot(&self) -> (r: OrderBook)
        ensures
            r@ == self@,
            r.bids.side == self.bids.side,
            r.asks.side == self.asks.side,
    {
        let bids = self.bids.levels.clone();
        let asks = self.asks.levels.clone();
        assert(bids@ =~= self.bids.levels@);
        assert(asks@ =~= self.asks.levels@);
        OrderBook {
            bids: PriceLevels { side: self.bids.side, levels: bids },
            asks: PriceLevels { side: self.asks.side, levels: asks },
            time: self.time,
        }
    }
}

/// The books of a table's entries by symbol; a later entry for a symbol
/// hides an earlier one.
pub open spec fn table_map(s: Seq<(String, OrderBook)>) -> Map<Seq<char>, BookView>
    decreases s.len(),
{
    if s.len() == 0 {
        Map::empty()
    } else {
        table_map(s.drop_last()).insert(s.last().0@, s.last().1@)
    }
}

proof fn lemma_table_absent(s: Seq<(String, OrderBook)>, k: Seq<char>)
    requires
        forall|i: int| 0 <= i < s.len() ==> #[trigger] s[i].0@ != k,
    ensures
        !table_map(s).contains_key(k),
    decreases s.len(),
{
    if s.len() > 0 {
        let d = s.drop_last();
        assert forall|i: int| 0 <= i < d.len() implies #[trigger] d[i].0@ != k by {
            assert(d[i] == s[i]);
        }
        lemma_table_absent(d, k);
    }
}

proof fn lemma_table_at(s: Seq<(String, OrderBook)>, i: int, b: OrderBook)
    requires
        0 <= i < s.len(),
        forall|m: int| i < m < s.len() ==> #[trigger] s[m].0@ != s[i].0@,
    ensures
        table_map(s).contains_key(s[i].0@),
        table_map(s)[s[i].0@] == s[i].1@,
        table_map(s.update(i, (s[i].0, b))) == table_map(s).insert(s[i].0@, b@),
    decreases s.len(),
{
    let k = s[i].0@;
    let u = s.update(i, (s[i].0, b));
    if i == s.len() - 1 {
        assert(u.drop_last() =~= s.drop_last());
        assert(table_map(u) =~= table_map(s).insert(k, b@));
    } else {
        let d = s.drop_last();
        assert forall|m: int| i < m < d.len() implies #[trigger] d[m].0@ != d[i].0@ by {
            assert(d[m] == s[m]);
        }
        lemma_table_at(d, i, b);
        assert(u.drop_last() =~= d.update(i, (s[i].0, b)));
        assert(s.last().0@ != k);
        assert(table_map(u) =~= table_map(s).insert(k, b@));
    }
}

/// The live books of one market-data engine, by market symbol.
pub struct OrderbookTable {
    pub entries: Vec<(String, OrderBook)>,
}

impl View for OrderbookTable {
    type V = Map<Seq<char>, BookView>;

    open spec fn view(&self) -> Map<Seq<char>, BookView> {
        table_map(self.entries@)
    }
}

impl OrderbookTable {
    /// Every book in the table is well formed.
    pub open spec fn wf(&self) -> bool {
        forall|i: int| 0 <= i < self.entries@.len() ==> (#[trigger] self.entries@[i]).1.wf()
    }

    /// A table with no books.
    pub fn new() -> (r: OrderbookTable)
        ensures
            r.wf(),
            r@ == Map::<Seq<char>, BookView>::empty(),
    {
        OrderbookTable { entries: Vec::new() }
    }

    /// The index of the entry that holds the book of `symbol`, if any.
    fn position(&self, symbol: &String) -> (r: Option<usize>)
        ensures
            match r {
                Some(i) => {
                    &&& i < self.entries@.len()
                    &&& self.entries@[i as int].0@ == symbol@
                    &&& forall|m: int| i < m < self.entries@.len() ==> #[trigger] self.entries@[m].0@ != symbol@
                },
                None => !self@.contains_key(symbol@),
            },
    {
        let mut j: usize = self.entries.len();
        while j > 0
            invariant
                j <= self.entries@.len(),
                forall|m: int| j <= m < self.entries@.len() ==> #[trigger] self.entries@[m].0@ != symbol@,
            decreases j,
        {
            if self.entries[j - 1].0 == *symbol {
                return Some(j - 1);
            }
            j = j - 1;
        }
        proof {
            lemma_table_absent(self.entries@, symbol@);
        }
        None
    }

    /// A copy of the book of `symbol`, if the table has one.
    pub fn get(&self, symbol: &String) -> (r: Option<OrderBook>)
        requires
            self.wf(),
        ensures
            match r {
                Some(b) => self@.contains_key(symbol@) && b@ == self@[symbol@] && b.wf(),
                None => !self@.contains_key(symbol@),
            },
    {
        match self.position(symbol) {
            Some(i) => {
                proof {
                    lemma_table_at(self.entries@, i as int, self.entries@[i as int].1);
                }
                let b = self.entries[i].1.snapshot();
                assert(self.entries@[i as int].1.wf());
                Some(b)
            },
            None => None,
        }
    }

    /// Installs `book` as the book of `symbol`, replacing any earlier one.
    pub fn insert(&mut self, symbol: String, book: OrderBook)
        requires
            old(self).wf(),
            book.wf(),
        ensures
            final(self).wf(),
            final(self)@ == old(self)@.insert(symbol@, book@),
    {
        match self.position(&symbol) {
            Some(i) => {
                proof {
                    lemma_table_at(self.entries@, i as int, book);
                }
                let key = self.entries[i].0.clone();
                self.entries.set(i, (key, book));
            },
            None => {
                let ghost s = self.entries@;
                self.entries.push((symbol, book));
                assert(self.entries@.drop_last() =~= s);
            },
        }
    }

    /// Merges a delta into the book of `symbol` and returns a copy of the
    /// result; `None`, with the table unchanged, where it has no such book.
    pub fn update_book(&mut self, symbol: &String, bids: &Vec<(u64, u64)>, asks: &Vec<(u64, u64)>, time: u64) -> (r: Option<OrderBook>)
        requires
            old(self).wf(),
        ensures
            final(self).wf(),
            r.is_some() == old(self)@.contains_key(symbol@),
            match r {
                Some(b) => {
                    &&& b.wf()
                    &&& b@ == merged_view(old(self)@[symbol@], bids@, asks@, time)
                    &&& final(self)@ == old(self)@.insert(symbol@, b@)
                },
                None => final(self)@ == old(self)@,
            },
    {
        match self.position(symbol) {
            Some(i) => {
                proof {
                    lemma_table_at(self.entries@, i as int, self.entries@[i as int].1);
                }
                assert(self.entries@[i as int].1.wf());
                let mut book = self.entries[i].1.snapshot();
                book.update_with_timestamp(bids, asks, time);
                let out = book.snapshot();
                proof {
                    lemma_table_at(self.entries@, i as int, book);
                }
                let key = self.entries[i].0.clone();
                self.entries.set(i, (key, book));
                Some(out)
            },
            None => None,
        }
    }
}

/// The book that a full snapshot of these pairs describes.
pub open spec fn snapshot_view(bids: Seq<(u64, u64)>, asks: Seq<(u64, u64)>, time: u64) -> BookView {
    BookView {
        bids: apply_levels(Side::Bid, Seq::empty(), bids),
        asks: apply_levels(Side::Ask, Seq::empty(), asks),
        time,
    }
}

/// The book `v` after a delta of these pairs taken at `time`.
pub open spec fn merged_view(v: BookView, bids: Seq<(u64, u64)>, asks: Seq<(u64, u64)>, time: u64) -> BookView {
    BookView { bids: apply_levels(Side::Bid, v.bids, bids), asks: apply_levels(Side::Ask, v.asks, asks), time }
}

} // verus!
