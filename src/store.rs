//! The client-side market state store: a reducer that folds decoded wire
//! messages into one symbol's `MarketModel`.

use vstd::prelude::*;
use crate::book::{book_wf, is_level_update, lemma_update_keeps_book_wf, would_cross};
use crate::protocol::{BookSide, OrderBookSnapshot, PriceLevel, Ticker, WireMessage};
use crate::trades::{pushed, TradeWindow};

verus! {

/// When each category of state last changed, in the caller's clock.
#[derive(Clone, Copy, Debug, PartialEq, Eq, Structural)]
pub struct LastUpdate {
    pub book: u64,
    pub trade: u64,
    pub ticker: u64,
    pub heartbeat: u64,
}

/// What became of one message.
#[derive(Clone, Copy, Debug, PartialEq, Eq, Structural)]
pub enum ApplyOutcome {
    /// The model took the message in.
    Applied,
    /// The message is not for this model (another symbol, or an unknown tag).
    Ignored,
    /// The message is inconsistent with the model (a delta before any
    /// snapshot, a delta that would cross the book, or a snapshot that is not
    /// well formed) and was discarded; the model is untouched and waits for
    /// the next snapshot.
    Dropped,
}

/// Everything a client holds for one symbol.
#[derive(Clone, Debug)]
pub struct MarketModel {
    pub symbol: String,
    pub book: Option<OrderBookSnapshot>,
    pub ticker: Option<Ticker>,
    pub trades: TradeWindow,
    pub last_update: LastUpdate,
}

/// `n` and `r` are the model and outcome after `m` takes `msg` at time `now`.
///
/// A snapshot replaces book and ticker wholesale; a delta updates one level
/// of a present book; a trade enters the window; a ticker replaces the
/// ticker; a heartbeat only stamps liveness. Messages for another symbol
/// and unknown tags are ignored; a delta with no book, a delta that would
/// put a bid at or above the best ask (or an ask at or below the best bid),
/// and a snapshot with unsorted or crossed sides are dropped. Only the touched category's timestamp moves.
pub open spec fn applies(m: MarketModel, msg: WireMessage, now: u64, n: MarketModel, r: ApplyOutcome) -> bool {
    &&& n.symbol == m.symbol
    &&& r != ApplyOutcome::Applied ==> n == m
    &&& match msg {
        WireMessage::Snapshot { symbol, book, ticker } => {
            if symbol@ != m.symbol@ {
                r == ApplyOutcome::Ignored
            } else if !book_wf(book) {
                r == ApplyOutcome::Dropped
            } else {
                &&& r == ApplyOutcome::Applied
                &&& n.book == Some(book)
                &&& n.ticker == Some(ticker)
                &&& n.trades == m.trades
                &&& n.last_update == (LastUpdate { book: now, ticker: now, ..m.last_update })
            }
        },
        WireMessage::Delta { symbol, side, price, quantity } => {
            if symbol@ != m.symbol@ {
                r == ApplyOutcome::Ignored
            } else if m.book is None || would_cross(m.book->0, side, price, quantity) {
                r == ApplyOutcome::Dropped
            } else {
                &&& r == ApplyOutcome::Applied
                &&& n.book is Some
                &&& side == BookSide::Bid ==> {
                    &&& is_level_update(side, m.book->0.bids@, n.book->0.bids@, price, quantity)
                    &&& n.book->0.asks@ == m.book->0.asks@
                }
                &&& side == BookSide::Ask ==> {
                    &&& is_level_update(side, m.book->0.asks@, n.book->0.asks@, price, quantity)
                    &&& n.book->0.bids@ == m.book->0.bids@
                }
                &&& n.ticker == m.ticker
                &&& n.trades == m.trades
                &&& n.last_update == (LastUpdate { book: now, ..m.last_update })
            }
        },
        WireMessage::Trade { symbol, trade } => {
            if symbol@ != m.symbol@ {
                r == ApplyOutcome::Ignored
            } else {
                &&& r == ApplyOutcome::Applied
                &&& n.book == m.book
                &&& n.ticker == m.ticker
                &&& n.trades.capacity == m.trades.capacity
                &&& n.trades.trades@
                    == pushed(m.trades.trades@, trade, m.trades.capacity as nat)
                &&& n.last_update == (LastUpdate { trade: now, ..m.last_update })
            }
        },
        WireMessage::Ticker { symbol, ticker } => {
            if symbol@ != m.symbol@ {
                r == ApplyOutcome::Ignored
            } else {
                &&& r == ApplyOutcome::Applied
                &&& n.book == m.book
                &&& n.ticker == Some(ticker)
                &&& n.trades == m.trades
                &&& n.last_update == (LastUpdate { ticker: now, ..m.last_update })
            }
        },
        WireMessage::Heartbeat { server_time: _ } => {
            &&& r == ApplyOutcome::Applied
            &&& n.book == m.book
            &&& n.ticker == m.ticker
            &&& n.trades == m.trades
            &&& n.last_update == (LastUpdate { heartbeat: now, ..m.last_update })
        },
        WireMessage::Unknown => r == ApplyOutcome::Ignored,
    }
}

/// Every message keeps the book's sides strictly sorted with unique prices,
/// and the best bid below the best ask: together with `MarketModel::new`,
/// this holds in every reachable state.
pub proof fn lemma_book_stays_sorted(m: MarketModel, msg: WireMessage, now: u64, n: MarketModel, r: ApplyOutcome)
    requires
        m.wf(),
        applies(m, msg, now, n, r),
    ensures
        n.book is Some ==> book_wf(n.book->0),
{
    if let WireMessage::Delta { symbol, side, price, quantity } = msg {
        if r == ApplyOutcome::Applied {
            lemma_update_keeps_book_wf(m.book->0, n.book->0, side, price, quantity);
        }
    }
}

/// A snapshot leaves the same book and ticker behind whatever the model held
/// before: two models of the symbol that take it end up agreeing on both.
pub proof fn lemma_snapshot_replaces(
    m1: MarketModel,
    m2: MarketModel,
    symbol: String,
    book: OrderBookSnapshot,
    ticker: Ticker,
    now: u64,
    n1: MarketModel,
    r1: ApplyOutcome,
    n2: MarketModel,
    r2: ApplyOutcome,
)
    requires
        m1.symbol@ == symbol@,
        m2.symbol@ == symbol@,
        book_wf(book),
        applies(m1, WireMessage::Snapshot { symbol, book, ticker }, now, n1, r1),
        applies(m2, WireMessage::Snapshot { symbol, book, ticker }, now, n2, r2),
    ensures
        r1 == ApplyOutcome::Applied,
        r2 == ApplyOutcome::Applied,
        n1.book == Some(book),
        n1.book == n2.book,
        n1.ticker == Some(ticker),
        n1.ticker == n2.ticker,
{
}

impl MarketModel {
    /// The trade window is within capacity and a present book has both sides
    /// strictly sorted with unique prices and its best bid below its best ask.
    pub open spec fn wf(&self) -> bool {
        &&& self.trades.wf()
        &&& self.book is Some ==> book_wf(self.book->0)
    }

    /// An empty model for `symbol` keeping up to `trade_capacity` trades.
    pub fn new(symbol: String, trade_capacity: usize) -> (r: MarketModel)
        ensures
            r.wf(),
            r.symbol@ == symbol@,
            r.book is None,
            r.ticker is None,
            r.trades.trades@.len() == 0,
            r.trades.capacity == trade_capacity,
            r.last_update == (LastUpdate { book: 0, trade: 0, ticker: 0, heartbeat: 0 }),
    {
        MarketModel {
            symbol,
            book: None,
            ticker: None,
            trades: TradeWindow::new(trade_capacity),
            last_update: LastUpdate { book: 0, trade: 0, ticker: 0, heartbeat: 0 },
        }
    }

    /// Folds one message into the model at time `now`; see `applies`.
    pub fn apply(&mut self, msg: WireMessage, now: u64) -> (r: ApplyOutcome)
        requires
            old(self).wf(),
        ensures
            final(self).wf(),
            applies(*old(self), msg, now, *final(self), r),
    {
        match msg {
            WireMessage::Snapshot { symbol, book, ticker } => {
                if symbol != self.symbol {
                    return ApplyOutcome::Ignored;
                }
                if !book.is_well_formed() {
                    return ApplyOutcome::Dropped;
                }
                self.book = Some(book);
                self.ticker = Some(ticker);
                self.last_update.book = now;
                self.last_update.ticker = now;
                ApplyOutcome::Applied
            },
            WireMessage::Delta { symbol, side, price, quantity } => {
                if symbol != self.symbol {
                    return ApplyOutcome::Ignored;
                }
                match &mut self.book {
                    None => ApplyOutcome::Dropped,
                    Some(book) => {
                        if book.would_cross(side, price, quantity) {
                            return ApplyOutcome::Dropped;
                        }
                        book.apply_delta(side, price, quantity);
                        self.last_update.book = now;
                        ApplyOutcome::Applied
                    },
                }
            },
            WireMessage::Trade { symbol, trade } => {
                if symbol != self.symbol {
                    return ApplyOutcome::Ignored;
                }
                self.trades.push(trade);
                self.last_update.trade = now;
                ApplyOutcome::Applied
            },
            WireMessage::Ticker { symbol, ticker } => {
                if symbol != self.symbol {
                    return ApplyOutcome::Ignored;
                }
                self.ticker = Some(ticker);
                self.last_update.ticker = now;
                ApplyOutcome::Applied
            },
            WireMessage::Heartbeat { server_time: _ } => {
                self.last_update.heartbeat = now;
                ApplyOutcome::Applied
            },
            WireMessage::Unknown => ApplyOutcome::Ignored,
        }
    }

    /// The highest bid; `None` without a book or with no bids.
    pub fn best_bid(&self) -> (r: Option<PriceLevel>)
        ensures
            r == (if self.book is Some && self.book->0.bids@.len() > 0 {
                Some(self.book->0.bids@[0])
            } else {
                None
            }),
    {
        match &self.book {
            Some(b) => b.best_bid(),
            None => None,
        }
    }

    /// The lowest ask; `None` without a book or with no asks.
    pub fn best_ask(&self) -> (r: Option<PriceLevel>)
        ensures
            r == (if self.book is Some && self.book->0.asks@.len() > 0 {
                Some(self.book->0.asks@[0])
            } else {
                None
            }),
    {
        match &self.book {
            Some(b) => b.best_ask(),
            None => None,
        }
    }

    /// Best ask minus best bid; `None` unless a book with both sides is present.
    pub fn spread(&self) -> (r: Option<i128>)
        ensures
            r == (if self.book is Some && self.book->0.bids@.len() > 0 && self.book->0.asks@.len() > 0 {
                Some((self.book->0.asks@[0].price - self.book->0.bids@[0].price) as i128)
            } else {
                None
            }),
    {
        match &self.book {
            Some(b) => b.spread(),
            None => None,
        }
    }

    /// Milliseconds since anything (data or heartbeat) last arrived, zero
    /// when `now` is not past the latest stamp.
    pub fn staleness(&self, now: u64) -> (r: u64)
        ensures
            ({
                let u = self.last_update;
                let latest = vstd::math::max(vstd::math::max(u.book as int, u.trade as int),
                    vstd::math::max(u.ticker as int, u.heartbeat as int));
                r == if now > latest { now - latest } else { 0 }
            }),
    {
        let u = self.last_update;
        let mut latest = u.book;
        if u.trade > latest { latest = u.trade; }
        if u.ticker > latest { latest = u.ticker; }
        if u.heartbeat > latest { latest = u.heartbeat; }
        if now > latest { now - latest } else { 0 }
    }
}

} // verus!
