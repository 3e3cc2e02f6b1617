//! The rolling, newest-first window of recent trades, and the buy/sell flow
//! computed over it.

use vstd::prelude::*;
use crate::protocol::{Trade, TradeSide};

verus! {

/// A bounded trade history: at most `capacity` trades, newest at index 0.
#[derive(Clone, Debug)]
pub struct TradeWindow {
    pub trades: Vec<Trade>,
    pub capacity: usize,
}

/// The window after prepending `t` to `s` and keeping at most `cap` entries.
pub open spec fn pushed(s: Seq<Trade>, t: Trade, cap: nat) -> Seq<Trade> {
    let full = seq![t] + s;
    if full.len() <= cap { full } else { full.take(cap as int) }
}

/// The window after feeding `ts` to `s` in order, first element first.
pub open spec fn pushed_all(s: Seq<Trade>, ts: Seq<Trade>, cap: nat) -> Seq<Trade>
    decreases ts.len(),
{
    if ts.len() == 0 { s } else { pushed(pushed_all(s, ts.drop_last(), cap), ts.last(), cap) }
}

/// The first `cap` elements of `s`, or all of them when there are fewer.
pub open spec fn capped(s: Seq<Trade>, cap: nat) -> Seq<Trade> {
    if s.len() <= cap { s } else { s.take(cap as int) }
}

/// Feeding any sequence of trades to a window leaves at most `cap` of them,
/// newest first: the window is the latest trades in reverse arrival order,
/// followed by what it held before, cut to the capacity.
pub proof fn lemma_window_newest_first(s: Seq<Trade>, ts: Seq<Trade>, cap: nat)
    requires
        s.len() <= cap,
    ensures
        pushed_all(s, ts, cap) == capped(ts.reverse() + s, cap),
        pushed_all(s, ts, cap).len() <= cap,
        ts.len() > 0 && cap > 0 ==> pushed_all(s, ts, cap)[0] == ts.last(),
    decreases ts.len(),
{
    if ts.len() > 0 {
        let rest = ts.drop_last();
        let x = ts.last();
        lemma_window_newest_first(s, rest, cap);
        let y = rest.reverse() + s;
        assert(ts.reverse() + s =~= seq![x] + y);
        if y.len() > cap {
            assert(seq![x] + y.take(cap as int) =~= (seq![x] + y).take(cap as int + 1));
            assert((seq![x] + y.take(cap as int)).take(cap as int) =~= (seq![x] + y).take(cap as int));
        }
    }
}

/// Total quantity bought (`buy == true`) or sold in `s`.
pub open spec fn side_volume(s: Seq<Trade>, buy: bool) -> int
    decreases s.len(),
{
    if s.len() == 0 {
        0
    } else {
        let t = s.last();
        side_volume(s.drop_last(), buy) + if (t.side == TradeSide::Buy) == buy { t.quantity as int } else { 0 }
    }
}

/// The most recent `n` trades of `s`, or all of them when there are fewer.
pub open spec fn recent(s: Seq<Trade>, n: nat) -> Seq<Trade> {
    if n < s.len() { s.take(n as int) } else { s }
}

/// Buy and sell volume over a window of trades.
#[derive(Clone, Copy, Debug, PartialEq, Eq, Structural)]
pub struct TradeFlow {
    pub buy_volume: u128,
    pub sell_volume: u128,
}

impl TradeWindow {
    /// The window holds no more than its capacity.
    pub open spec fn wf(&self) -> bool {
        self.trades@.len() <= self.capacity
    }

    /// An empty window that keeps at most `capacity` trades.
    pub fn new(capacity: usize) -> (r: TradeWindow)
        ensures
            r.wf(),
            r.trades@.len() == 0,
            r.capacity == capacity,
    {
        TradeWindow { trades: Vec::new(), capacity }
    }

    /// Prepends `t` and evicts from the tail whatever exceeds the capacity.
    pub fn push(&mut self, t: Trade)
        requires
            old(self).wf(),
        ensures
            final(self).wf(),
            final(self).capacity == old(self).capacity,
            final(self).trades@ == pushed(old(self).trades@, t, old(self).capacity as nat),
    {
        let ghost s = self.trades@;
        self.trades.insert(0, t);
        assert(self.trades@ == seq![t] + s);
        if self.trades.len() > self.capacity {
            self.trades.truncate(self.capacity);
        }
    }

    /// Buy and sell volume over the `window` most recent trades.
    pub fn flow(&self, window: usize) -> (r: TradeFlow)
        requires
            self.wf(),
        ensures
            r.buy_volume as int == side_volume(recent(self.trades@, window as nat), true),
            r.sell_volume as int == side_volume(recent(self.trades@, window as nat), false),
    {
        let n = if window < self.trades.len() { window } else { self.trades.len() };
        assert(recent(self.trades@, window as nat) == self.trades@.take(n as int));
        let mut buy: u128 = 0;
        let mut sell: u128 = 0;
        let mut i: usize = 0;
        while i < n
            invariant
                n <= self.trades@.len(),
                i <= n,
                buy as int == side_volume(self.trades@.take(i as int), true),
                sell as int == side_volume(self.trades@.take(i as int), false),
                buy as int + sell as int <= i * 0xffff_ffff_ffff_ffff,
            decreases n - i,
        {
            let ghost p = self.trades@.take(i as int);
            assert(self.trades@.take(i as int + 1).drop_last() == p);
            assert(buy as int + sell as int + 0xffff_ffff_ffff_ffff < 0x1_0000_0000_0000_0000_0000_0000_0000_0000) by (nonlinear_arith)
                requires
                    buy as int + sell as int <= i * 0xffff_ffff_ffff_ffff,
                    i < 0x1_0000_0000_0000_0000,
            ;
            let t = self.trades[i];
            match t.side {
                TradeSide::Buy => buy = buy + t.quantity as u128,
                TradeSide::Sell => sell = sell + t.quantity as u128,
            }
            i = i + 1;
        }
        TradeFlow { buy_volume: buy, sell_volume: sell }
    }
}

impl TradeFlow {
    /// Buy share of the total volume in basis points, rounded down; an even
    /// 5000 when there was no volume at all. `None` only where the exact
    /// computation would leave `u128` (volumes beyond `u128::MAX / 10000`).
    pub fn buy_ratio_bps(&self) -> (r: Option<u64>)
        ensures
            self.buy_volume + self.sell_volume == 0 ==> r == Some(5000u64),
            r is None <==> (self.buy_volume + self.sell_volume > u128::MAX
                || self.buy_volume * 10000 > u128::MAX),
            self.buy_volume + self.sell_volume > 0 && r is Some ==>
                r->0 as int == self.buy_volume * 10000 / (self.buy_volume + self.sell_volume),
    {
        let buy = self.buy_volume;
        let sell = self.sell_volume;
        if buy == 0 && sell == 0 {
            return Some(5000);
        }
        if buy > u128::MAX - sell || buy > u128::MAX / 10000 {
            return None;
        }
        let total: u128 = buy + sell;
        let scaled: u128 = buy * 10000;
        let q: u128 = scaled / total;
        assert(q <= 10000) by (nonlinear_arith)
            requires
                q as int == scaled as int / total as int,
                scaled as int == buy as int * 10000,
                total as int == buy as int + sell as int,
                total > 0,
        {
            assert(scaled as int <= total as int * 10000);
        }
        Some(q as u64)
    }
}

} // verus!
