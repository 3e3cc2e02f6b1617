//! One side of an order book kept as a sorted sequence of levels, and the
//! views derived from it.

use vstd::prelude::*;
use crate::protocol::{BookSide, OrderBookSnapshot, PriceLevel};

verus! {

/// `a` comes strictly before `b` on `side`: higher bids first, lower asks first.
pub open spec fn precedes(side: BookSide, a: u64, b: u64) -> bool {
    match side {
        BookSide::Bid => a > b,
        BookSide::Ask => a < b,
    }
}

/// Every level strictly precedes the ones after it; in particular prices are unique.
pub open spec fn side_sorted(side: BookSide, s: Seq<PriceLevel>) -> bool {
    forall|i: int, j: int| 0 <= i < j < s.len() ==> precedes(side, #[trigger] s[i].price, #[trigger] s[j].price)
}

/// Some level of `s` sits at `price`.
pub open spec fn has_price(s: Seq<PriceLevel>, price: u64) -> bool {
    exists|i: int| 0 <= i < s.len() && #[trigger] s[i].price == price
}

/// `t` is the sorted side `s` after the update `(price, quantity)`.
///
/// A zero quantity removes the level at `price`, and is a no-op when there is
/// none. A positive quantity replaces the quantity of the level at `price`
/// without moving it, or inserts a new level at the one position that keeps
/// the side sorted.
pub open spec fn is_level_update(side: BookSide, s: Seq<PriceLevel>, t: Seq<PriceLevel>, price: u64, quantity: u64) -> bool {
    &&& side_sorted(side, t)
    &&& forall|i: int| 0 <= i < s.len() && #[trigger] s[i].price == price ==> {
        &&& quantity == 0 ==> t == s.remove(i)
        &&& quantity > 0 ==> t == s.update(i, PriceLevel { price, quantity })
    }
    &&& !has_price(s, price) && quantity == 0 ==> t == s
    &&& !has_price(s, price) && quantity > 0 ==> exists|j: int|
        0 <= j <= s.len() && t == s.insert(j, PriceLevel { price, quantity })
}

/// Removing a price that is not on the side leaves the side as it was.
pub proof fn lemma_remove_absent_is_noop(side: BookSide, s: Seq<PriceLevel>, t: Seq<PriceLevel>, price: u64)
    requires
        is_level_update(side, s, t, price, 0),
        !has_price(s, price),
    ensures
        t == s,
{
}

/// Updating a price that is on the side changes only that level's quantity:
/// the length, the level's position and every other level stay as they were.
pub proof fn lemma_upsert_in_place(side: BookSide, s: Seq<PriceLevel>, t: Seq<PriceLevel>, i: int, quantity: u64)
    requires
        is_level_update(side, s, t, s[i].price, quantity),
        0 <= i < s.len(),
        quantity > 0,
    ensures
        t.len() == s.len(),
        t[i] == (PriceLevel { price: s[i].price, quantity }),
        forall|k: int| 0 <= k < s.len() && k != i ==> #[trigger] t[k] == s[k],
{
    assert(t == s.update(i, PriceLevel { price: s[i].price, quantity }));
}

/// Applies one level update to a sorted side, in place, by ordered insertion.
pub fn apply_level(levels: &mut Vec<PriceLevel>, side: BookSide, price: u64, quantity: u64)
    requires
        side_sorted(side, old(levels)@),
    ensures
        is_level_update(side, old(levels)@, final(levels)@, price, quantity),
{
    let ghost s = levels@;
    let n = levels.len();
    let mut i: usize = 0;
    while i < n && precedes_exec(side, levels[i].price, price)
        invariant
            levels@ == s,
            n == s.len(),
            i <= n,
            forall|k: int| 0 <= k < i ==> precedes(side, #[trigger] s[k].price, price),
        decreases n - i,
    {
        i = i + 1;
    }
    if i < n && levels[i].price == price {
        assert forall|k: int| 0 <= k < s.len() && #[trigger] s[k].price == price implies k == i by {
            if k < i {
                assert(precedes(side, s[k].price, price));
            } else if k > i {
                assert(precedes(side, s[i as int].price, s[k].price));
            }
        }
        if quantity == 0 {
            levels.remove(i);
            assert(side_sorted(side, levels@)) by {
                assert forall|a: int, b: int| 0 <= a < b < levels@.len()
                    implies precedes(side, #[trigger] levels@[a].price, #[trigger] levels@[b].price) by {
                    let oa = if a < i { a } else { a + 1 };
                    let ob = if b < i { b } else { b + 1 };
                    assert(levels@[a] == s[oa]);
                    assert(levels@[b] == s[ob]);
                }
            }
        } else {
            levels.set(i, PriceLevel { price, quantity });
            assert(side_sorted(side, levels@)) by {
                assert forall|a: int, b: int| 0 <= a < b < levels@.len()
                    implies precedes(side, #[trigger] levels@[a].price, #[trigger] levels@[b].price) by {
                    assert(levels@[a].price == s[a].price);
                    assert(levels@[b].price == s[b].price);
                }
            }
        }
    } else {
        assert(!has_price(s, price)) by {
            assert forall|k: int| 0 <= k < s.len() implies #[trigger] s[k].price != price by {
                if k >= i {
                    assert(precedes(side, price, s[i as int].price));
                    if k > i {
                        assert(precedes(side, s[i as int].price, s[k].price));
                    }
                }
            }
        }
        if quantity > 0 {
            let lvl = PriceLevel { price, quantity };
            levels.insert(i, lvl);
            assert(levels@ == s.insert(i as int, lvl));
            assert(side_sorted(side, levels@)) by {
                assert forall|a: int, b: int| 0 <= a < b < levels@.len()
                    implies precedes(side, #[trigger] levels@[a].price, #[trigger] levels@[b].price) by {
                    if b == i {
                        assert(levels@[a] == s[a]);
                    } else if a == i {
                        assert(levels@[b] == s[b - 1]);
                        assert(precedes(side, price, s[i as int].price));
                        if b - 1 > i {
                            assert(precedes(side, s[i as int].price, s[b - 1].price));
                        }
                    } else {
                        let oa = if a < i { a } else { a - 1 };
                        let ob = if b < i { b } else { b - 1 };
                        assert(levels@[a] == s[oa]);
                        assert(levels@[b] == s[ob]);
                    }
                }
            }
        }
    }
}

/// Executable form of `precedes`.
pub fn precedes_exec(side: BookSide, a: u64, b: u64) -> (r: bool)
    ensures
        r == precedes(side, a, b),
{
    match side {
        BookSide::Bid => a > b,
        BookSide::Ask => a < b,
    }
}

/// Sum of the quantities of `s`.
pub open spec fn sum_qty(s: Seq<PriceLevel>) -> int
    decreases s.len(),
{
    if s.len() == 0 { 0 } else { sum_qty(s.drop_last()) + s.last().quantity }
}

/// Largest quantity in `s`, zero when `s` is empty.
pub open spec fn max_qty(s: Seq<PriceLevel>) -> u64
    decreases s.len(),
{
    if s.len() == 0 {
        0
    } else {
        let m = max_qty(s.drop_last());
        if s.last().quantity > m { s.last().quantity } else { m }
    }
}

/// The first `depth` levels of `s`, or all of them when there are fewer.
pub open spec fn visible(s: Seq<PriceLevel>, depth: nat) -> Seq<PriceLevel> {
    if depth < s.len() { s.take(depth as int) } else { s }
}

/// Integer arithmetic facts about `sum_qty`: it never exceeds
/// `len * u64::MAX` and never decreases along prefixes.
pub proof fn lemma_sum_qty_bound(s: Seq<PriceLevel>)
    ensures
        0 <= sum_qty(s) <= s.len() * 0xffff_ffff_ffff_ffff,
    decreases s.len(),
{
    if s.len() > 0 {
        lemma_sum_qty_bound(s.drop_last());
    }
}

/// Executable `sum_qty`, exact in `u128`.
pub fn total_quantity(levels: &Vec<PriceLevel>) -> (r: u128)
    ensures
        r as int == sum_qty(levels@),
{
    let mut acc: u128 = 0;
    let mut i: usize = 0;
    while i < levels.len()
        invariant
            i <= levels@.len(),
            acc as int == sum_qty(levels@.take(i as int)),
        decreases levels@.len() - i,
    {
        proof {
            assert(levels@.take(i as int + 1).drop_last() == levels@.take(i as int));
            lemma_sum_qty_bound(levels@.take(i as int));
            assert(i < 0x1_0000_0000_0000_0000);
            assert(sum_qty(levels@.take(i as int)) + 0xffff_ffff_ffff_ffff < 0x1_0000_0000_0000_0000_0000_0000_0000_0000) by (nonlinear_arith)
                requires
                    sum_qty(levels@.take(i as int)) <= i * 0xffff_ffff_ffff_ffff,
                    i < 0x1_0000_0000_0000_0000,
            ;
        }
        acc = acc + levels[i].quantity as u128;
        i = i + 1;
    }
    assert(levels@.take(i as int) == levels@);
    acc
}

/// Running totals down one side: entry `k` is the sum of the first `k + 1`
/// quantities, over the first `depth` levels.
pub fn cumulative_depth(levels: &Vec<PriceLevel>, depth: usize) -> (r: Vec<u128>)
    ensures
        r@.len() == visible(levels@, depth as nat).len(),
        forall|k: int| 0 <= k < r@.len() ==> #[trigger] r@[k] as int == sum_qty(levels@.take(k + 1)),
{
    let n = if depth < levels.len() { depth } else { levels.len() };
    let mut out: Vec<u128> = Vec::new();
    let mut acc: u128 = 0;
    let mut i: usize = 0;
    while i < n
        invariant
            n <= levels@.len(),
            n == visible(levels@, depth as nat).len(),
            i <= n,
            out@.len() == i,
            acc as int == sum_qty(levels@.take(i as int)),
            forall|k: int| 0 <= k < i ==> #[trigger] out@[k] as int == sum_qty(levels@.take(k + 1)),
        decreases n - i,
    {
        proof {
            assert(levels@.take(i as int + 1).drop_last() == levels@.take(i as int));
            lemma_sum_qty_bound(levels@.take(i as int));
            assert(sum_qty(levels@.take(i as int)) + 0xffff_ffff_ffff_ffff < 0x1_0000_0000_0000_0000_0000_0000_0000_0000) by (nonlinear_arith)
                requires
                    sum_qty(levels@.take(i as int)) <= i * 0xffff_ffff_ffff_ffff,
                    i < 0x1_0000_0000_0000_0000,
            ;
        }
        acc = acc + levels[i].quantity as u128;
        out.push(acc);
        i = i + 1;
    }
    out
}

/// Executable `max_qty` over the first `depth` levels.
pub fn max_visible_quantity(levels: &Vec<PriceLevel>, depth: usize) -> (r: u64)
    ensures
        r == max_qty(visible(levels@, depth as nat)),
{
    let n = if depth < levels.len() { depth } else { levels.len() };
    let ghost v = visible(levels@, depth as nat);
    assert(v == levels@.take(n as int));
    let mut m: u64 = 0;
    let mut i: usize = 0;
    while i < n
        invariant
            n <= levels@.len(),
            v == levels@.take(n as int),
            i <= n,
            m == max_qty(levels@.take(i as int)),
        decreases n - i,
    {
        assert(levels@.take(i as int + 1).drop_last() == levels@.take(i as int));
        if levels[i].quantity > m {
            m = levels[i].quantity;
        }
        i = i + 1;
    }
    m
}

/// Both sides are sorted (bids strictly descending, asks strictly ascending)
/// and the book is not crossed: the best bid is below the best ask whenever
/// both sides have a level.
pub open spec fn book_wf(b: OrderBookSnapshot) -> bool {
    &&& side_sorted(BookSide::Bid, b.bids@)
    &&& side_sorted(BookSide::Ask, b.asks@)
    &&& b.bids@.len() > 0 && b.asks@.len() > 0 ==> b.bids@[0].price < b.asks@[0].price
}

/// The other side of the book.
pub open spec fn opposite(side: BookSide) -> BookSide {
    match side {
        BookSide::Bid => BookSide::Ask,
        BookSide::Ask => BookSide::Bid,
    }
}

/// The levels of `side` in `b`.
pub open spec fn side_levels(b: OrderBookSnapshot, side: BookSide) -> Seq<PriceLevel> {
    match side {
        BookSide::Bid => b.bids@,
        BookSide::Ask => b.asks@,
    }
}

/// Putting a level with a positive quantity at `price` on `side` would
/// reach the best level of the other side: a bid at or above the best ask,
/// or an ask at or below the best bid. Removals never cross a book.
pub open spec fn would_cross(b: OrderBookSnapshot, side: BookSide, price: u64, quantity: u64) -> bool {
    let other = side_levels(b, opposite(side));
    quantity > 0 && other.len() > 0 && !precedes(side, other[0].price, price)
}

/// A bound that every level of the side, and the updated price if it is
/// put on the book, lies behind (in the side's order) still holds after the
/// update.
pub proof fn lemma_update_keeps_bound(
    side: BookSide,
    s: Seq<PriceLevel>,
    t: Seq<PriceLevel>,
    price: u64,
    quantity: u64,
    limit: u64,
)
    requires
        is_level_update(side, s, t, price, quantity),
        forall|k: int| 0 <= k < s.len() ==> precedes(side, limit, #[trigger] s[k].price),
        quantity > 0 ==> precedes(side, limit, price),
    ensures
        forall|k: int| 0 <= k < t.len() ==> precedes(side, limit, #[trigger] t[k].price),
{
    if has_price(s, price) {
        let i = choose|i: int| 0 <= i < s.len() && #[trigger] s[i].price == price;
        if quantity == 0 {
            assert forall|k: int| 0 <= k < t.len() implies precedes(side, limit, #[trigger] t[k].price) by {
                let o = if k < i { k } else { k + 1 };
                assert(t[k] == s[o]);
            }
        } else {
            assert forall|k: int| 0 <= k < t.len() implies precedes(side, limit, #[trigger] t[k].price) by {
                assert(t[k].price == s[k].price);
            }
        }
    } else if quantity > 0 {
        let lvl = PriceLevel { price, quantity };
        let j = choose|j: int| 0 <= j <= s.len() && t == s.insert(j, lvl);
        assert forall|k: int| 0 <= k < t.len() implies precedes(side, limit, #[trigger] t[k].price) by {
            if k < j {
                assert(t[k] == s[k]);
            } else if k > j {
                assert(t[k] == s[k - 1]);
            }
        }
    }
}

/// On a sorted side, a bound that the first level lies behind holds for all.
proof fn lemma_front_bounds_side(side: BookSide, s: Seq<PriceLevel>, limit: u64)
    requires
        side_sorted(side, s),
        s.len() > 0,
        precedes(side, limit, s[0].price),
    ensures
        forall|k: int| 0 <= k < s.len() ==> precedes(side, limit, #[trigger] s[k].price),
{
    assert forall|k: int| 0 <= k < s.len() implies precedes(side, limit, #[trigger] s[k].price) by {
        if k > 0 {
            assert(precedes(side, s[0].price, s[k].price));
        }
    }
}

/// A level update that does not cross the book keeps it well formed.
pub proof fn lemma_update_keeps_book_wf(
    b: OrderBookSnapshot,
    c: OrderBookSnapshot,
    side: BookSide,
    price: u64,
    quantity: u64,
)
    requires
        book_wf(b),
        !would_cross(b, side, price, quantity),
        is_level_update(side, side_levels(b, side), side_levels(c, side), price, quantity),
        side_levels(c, opposite(side)) == side_levels(b, opposite(side)),
    ensures
        book_wf(c),
{
    let s = side_levels(b, side);
    let t = side_levels(c, side);
    let other = side_levels(b, opposite(side));
    assert(side_levels(c, BookSide::Bid) == c.bids@ && side_levels(c, BookSide::Ask) == c.asks@);
    if other.len() > 0 && t.len() > 0 {
        let limit = other[0].price;
        if s.len() > 0 {
            assert(precedes(side, limit, s[0].price));
            lemma_front_bounds_side(side, s, limit);
        }
        lemma_update_keeps_bound(side, s, t, price, quantity, limit);
        assert(precedes(side, limit, t[0].price));
    }
}

/// Executable `side_sorted`: checks each adjacent pair.
pub fn is_side_sorted(side: BookSide, levels: &Vec<PriceLevel>) -> (r: bool)
    ensures
        r == side_sorted(side, levels@),
{
    let n = levels.len();
    if n == 0 {
        return true;
    }
    let mut i: usize = 1;
    while i < n
        invariant
            n == levels@.len(),
            1 <= i <= n,
            side_sorted(side, levels@.take(i as int)),
        decreases n - i,
    {
        if !precedes_exec(side, levels[i - 1].price, levels[i].price) {
            assert(!side_sorted(side, levels@));
            return false;
        }
        assert(side_sorted(side, levels@.take(i as int + 1))) by {
            let t = levels@.take(i as int + 1);
            assert forall|a: int, b: int| 0 <= a < b < t.len()
                implies precedes(side, #[trigger] t[a].price, #[trigger] t[b].price) by {
                assert(t[a] == levels@[a]);
                assert(t[b] == levels@[b]);
                if b < i {
                    assert(levels@.take(i as int)[a] == levels@[a]);
                    assert(levels@.take(i as int)[b] == levels@[b]);
                } else if a < i - 1 {
                    assert(levels@.take(i as int)[a] == levels@[a]);
                    assert(levels@.take(i as int)[i - 1] == levels@[i - 1]);
                    assert(precedes(side, levels@.take(i as int)[a].price, levels@.take(i as int)[i - 1].price));
                }
            }
        }
        i = i + 1;
    }
    assert(levels@.take(n as int) == levels@);
    true
}

impl OrderBookSnapshot {
    /// Both sides are sorted and the book is not crossed; the check a
    /// snapshot must pass before it replaces a book.
    pub fn is_well_formed(&self) -> (r: bool)
        ensures
            r == book_wf(*self),
    {
        is_side_sorted(BookSide::Bid, &self.bids) && is_side_sorted(BookSide::Ask, &self.asks)
            && (self.bids.len() == 0 || self.asks.len() == 0 || self.bids[0].price < self.asks[0].price)
    }

    /// Executable `would_cross`.
    pub fn would_cross(&self, side: BookSide, price: u64, quantity: u64) -> (r: bool)
        ensures
            r == would_cross(*self, side, price, quantity),
    {
        let other = match side {
            BookSide::Bid => &self.asks,
            BookSide::Ask => &self.bids,
        };
        quantity > 0 && other.len() > 0 && !precedes_exec(side, other[0].price, price)
    }

    /// The highest bid, if any.
    pub fn best_bid(&self) -> (r: Option<PriceLevel>)
        ensures
            self.bids@.len() == 0 ==> r is None,
            self.bids@.len() > 0 ==> r == Some(self.bids@[0]),
    {
        if self.bids.len() == 0 { None } else { Some(self.bids[0]) }
    }

    /// The lowest ask, if any.
    pub fn best_ask(&self) -> (r: Option<PriceLevel>)
        ensures
            self.asks@.len() == 0 ==> r is None,
            self.asks@.len() > 0 ==> r == Some(self.asks@[0]),
    {
        if self.asks.len() == 0 { None } else { Some(self.asks[0]) }
    }

    /// Best ask minus best bid, when both sides have a level. On a
    /// well-formed book, the only kind the store holds, it is positive.
    pub fn spread(&self) -> (r: Option<i128>)
        ensures
            book_wf(*self) && r is Some ==> r->0 > 0,
            self.bids@.len() == 0 || self.asks@.len() == 0 ==> r is None,
            self.bids@.len() > 0 && self.asks@.len() > 0 ==>
                r == Some((self.asks@[0].price - self.bids@[0].price) as i128),
    {
        if self.bids.len() == 0 || self.asks.len() == 0 {
            None
        } else {
            Some(self.asks[0].price as i128 - self.bids[0].price as i128)
        }
    }

    /// The spread in basis points of the mid price, rounded down:
    /// `(ask - bid) * 20000 / (ask + bid)`. `None` when a side is empty; on a
    /// well-formed book that is the only case. A value that breaks `book_wf`
    /// by crossing also gets `None`.
    pub fn spread_bps(&self) -> (r: Option<u64>)
        ensures
            r is Some <==> (self.bids@.len() > 0 && self.asks@.len() > 0
                && self.asks@[0].price >= self.bids@[0].price && self.asks@[0].price > 0),
            r is Some ==> r->0 as int == (self.asks@[0].price - self.bids@[0].price) * 20000
                / (self.asks@[0].price + self.bids@[0].price),
    {
        if self.bids.len() == 0 || self.asks.len() == 0 {
            return None;
        }
        let bid = self.bids[0].price as u128;
        let ask = self.asks[0].price as u128;
        if ask < bid || ask == 0 {
            return None;
        }
        let num: u128 = (ask - bid) * 20000;
        let den: u128 = ask + bid;
        let q = num / den;
        assert(q <= 20000) by (nonlinear_arith)
            requires
                q == num / den,
                num == (ask - bid) * 20000,
                den == ask + bid,
                den > 0,
                ask >= bid,
        {
            assert((ask - bid) * 20000 <= den * 20000);
        }
        Some(q as u64)
    }

    /// Largest quantity among the first `depth` levels of either side, for
    /// scaling depth bars.
    pub fn max_quantity(&self, depth: usize) -> (r: u64)
        ensures
            r == (if max_qty(visible(self.bids@, depth as nat)) >= max_qty(visible(self.asks@, depth as nat)) {
                max_qty(visible(self.bids@, depth as nat))
            } else {
                max_qty(visible(self.asks@, depth as nat))
            }),
    {
        let b = max_visible_quantity(&self.bids, depth);
        let a = max_visible_quantity(&self.asks, depth);
        if b >= a { b } else { a }
    }

    /// Sum of all bid quantities.
    pub fn total_bid_depth(&self) -> (r: u128)
        ensures
            r as int == sum_qty(self.bids@),
    {
        total_quantity(&self.bids)
    }

    /// Sum of all ask quantities.
    pub fn total_ask_depth(&self) -> (r: u128)
        ensures
            r as int == sum_qty(self.asks@),
    {
        total_quantity(&self.asks)
    }

    /// Applies one level update to the named side; see `apply_level`. The
    /// update must not cross the book.
    pub fn apply_delta(&mut self, side: BookSide, price: u64, quantity: u64)
        requires
            book_wf(*old(self)),
            !would_cross(*old(self), side, price, quantity),
        ensures
            book_wf(*final(self)),
            side == BookSide::Bid ==> final(self).asks@ == old(self).asks@,
            side == BookSide::Ask ==> final(self).bids@ == old(self).bids@,
            side == BookSide::Bid ==> is_level_update(side, old(self).bids@, final(self).bids@, price, quantity),
            side == BookSide::Ask ==> is_level_update(side, old(self).asks@, final(self).asks@, price, quantity),
    {
        match side {
            BookSide::Bid => apply_level(&mut self.bids, side, price, quantity),
            BookSide::Ask => apply_level(&mut self.asks, side, price, quantity),
        }
        proof {
            lemma_update_keeps_book_wf(*old(self), *self, side, price, quantity);
        }
    }
}

} // verus!
