//! The messages exchanged between the server and its display clients.
//!
//! Prices and quantities are fixed-precision decimals: a `u64` counts units of
//! the smallest tick, so no floating point ever touches book state.

use vstd::prelude::*;

verus! {

/// The side of the order book a level belongs to.
#[derive(Clone, Copy, Debug, PartialEq, Eq, Structural)]
pub enum BookSide {
    Bid,
    Ask,
}

/// The aggressor side of an executed trade.
#[derive(Clone, Copy, Debug, PartialEq, Eq, Structural)]
pub enum TradeSide {
    Buy,
    Sell,
}

/// One rung of the order book. A quantity of zero means "remove this level".
#[derive(Clone, Copy, Debug, PartialEq, Eq, Structural)]
pub struct PriceLevel {
    pub price: u64,
    pub quantity: u64,
}

/// Rolling 24h summary. `low <= last <= high` is deliberately not required.
#[derive(Clone, Copy, Debug, PartialEq, Eq, Structural)]
pub struct Ticker {
    pub last: u64,
    pub high: u64,
    pub low: u64,
    pub volume: u64,
    pub change: i64,
}

impl Ticker {
    /// Where `last` sits in the 24h range, in basis points from `low` (0) to
    /// `high` (10000), rounded down. A `last` outside the range is clamped to
    /// its nearer end; an empty or inverted range gives the middle, 5000.
    pub fn range_position_bps(&self) -> (r: u64)
        ensures
            self.high <= self.low ==> r == 5000,
            self.high > self.low && self.last <= self.low ==> r == 0,
            self.high > self.low && self.last >= self.high ==> r == 10000,
            self.high > self.low && self.low < self.last < self.high ==>
                r as int == (self.last - self.low) * 10000 / (self.high - self.low),
    {
        if self.high <= self.low {
            return 5000;
        }
        if self.last <= self.low {
            return 0;
        }
        if self.last >= self.high {
            return 10000;
        }
        let num: u128 = (self.last - self.low) as u128 * 10000;
        let den: u128 = (self.high - self.low) as u128;
        let q = num / den;
        assert(q <= 10000) by (nonlinear_arith)
            requires
                q as int == num as int / den as int,
                num as int == (self.last - self.low) * 10000,
                den as int == self.high - self.low,
                self.last < self.high,
                den > 0,
        {
            assert(num as int <= den as int * 10000);
        }
        q as u64
    }
}

/// One executed trade; immutable once created.
#[derive(Clone, Copy, Debug, PartialEq, Eq, Structural)]
pub struct Trade {
    pub id: u64,
    pub side: TradeSide,
    pub price: u64,
    pub quantity: u64,
    pub timestamp: u64,
}

/// Full depth for one symbol: bids by strictly descending price, asks by
/// strictly ascending price.
#[derive(Clone, Debug)]
pub struct OrderBookSnapshot {
    pub bids: Vec<PriceLevel>,
    pub asks: Vec<PriceLevel>,
}

/// One protocol envelope. Tags the receiver does not know decode to `Unknown`,
/// which every consumer ignores.
#[derive(Clone, Debug)]
pub enum WireMessage {
    Snapshot { symbol: String, book: OrderBookSnapshot, ticker: Ticker },
    Delta { symbol: String, side: BookSide, price: u64, quantity: u64 },
    Trade { symbol: String, trade: Trade },
    Ticker { symbol: String, ticker: Ticker },
    Heartbeat { server_time: u64 },
    Unknown,
}

} // verus!
