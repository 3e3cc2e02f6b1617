use dash_sync::protocol::{BookSide, OrderBookSnapshot, PriceLevel, Ticker, Trade, TradeSide, WireMessage};
use dash_sync::store::{ApplyOutcome, LastUpdate, MarketModel};

fn lvl(price: u64, quantity: u64) -> PriceLevel {
    PriceLevel { price, quantity }
}

fn ticker(last: u64) -> Ticker {
    Ticker { last, high: last + 10, low: last - 10, volume: 1000, change: -3 }
}

fn snapshot(bids: Vec<PriceLevel>, asks: Vec<PriceLevel>, last: u64) -> WireMessage {
    WireMessage::Snapshot {
        symbol: "BTCUSDT".to_string(),
        book: OrderBookSnapshot { bids, asks },
        ticker: ticker(last),
    }
}

fn delta(side: BookSide, price: u64, quantity: u64) -> WireMessage {
    WireMessage::Delta { symbol: "BTCUSDT".to_string(), side, price, quantity }
}

fn trade(id: u64) -> WireMessage {
    WireMessage::Trade {
        symbol: "BTCUSDT".to_string(),
        trade: Trade { id, side: TradeSide::Buy, price: 100, quantity: 1, timestamp: id },
    }
}

#[test]
fn scenario_snapshot_gives_best_prices_and_spread() {
    let mut m = MarketModel::new("BTCUSDT".to_string(), 10);
    let r = m.apply(snapshot(vec![lvl(100, 2)], vec![lvl(101, 3)], 100), 5);
    assert_eq!(r, ApplyOutcome::Applied);
    assert_eq!(m.best_bid().map(|l| l.price), Some(100));
    assert_eq!(m.best_ask().map(|l| l.price), Some(101));
    assert_eq!(m.spread(), Some(1));
}

#[test]
fn scenario_delta_empties_bids() {
    let mut m = MarketModel::new("BTCUSDT".to_string(), 10);
    m.apply(snapshot(vec![lvl(100, 2)], vec![lvl(101, 3)], 100), 5);
    let r = m.apply(delta(BookSide::Bid, 100, 0), 6);
    assert_eq!(r, ApplyOutcome::Applied);
    assert!(m.book.as_ref().unwrap().bids.is_empty());
    assert_eq!(m.best_bid(), None);
    assert_eq!(m.spread(), None);
    assert_eq!(m.best_ask(), Some(lvl(101, 3)));
}

#[test]
fn scenario_fresh_snapshot_after_reconnect_discards_old_deltas() {
    let mut m = MarketModel::new("BTCUSDT".to_string(), 10);
    m.apply(snapshot(vec![lvl(100, 2)], vec![lvl(101, 3)], 100), 1);
    m.apply(delta(BookSide::Bid, 99, 4), 2);
    m.apply(delta(BookSide::Ask, 102, 8), 3);
    let fresh_bids = vec![lvl(98, 1), lvl(97, 2)];
    let fresh_asks = vec![lvl(99, 5)];
    m.apply(snapshot(fresh_bids.clone(), fresh_asks.clone(), 98), 10);
    let book = m.book.as_ref().unwrap();
    assert_eq!(book.bids, fresh_bids);
    assert_eq!(book.asks, fresh_asks);
    assert_eq!(m.ticker, Some(ticker(98)));
}

#[test]
fn snapshot_replaces_regardless_of_prior_state() {
    let mut a = MarketModel::new("BTCUSDT".to_string(), 4);
    let mut b = MarketModel::new("BTCUSDT".to_string(), 4);
    a.apply(snapshot(vec![lvl(50, 1)], vec![lvl(60, 1)], 55), 1);
    a.apply(delta(BookSide::Ask, 61, 2), 2);
    let bids = vec![lvl(100, 2), lvl(99, 1)];
    let asks = vec![lvl(101, 3)];
    a.apply(snapshot(bids.clone(), asks.clone(), 100), 3);
    b.apply(snapshot(bids.clone(), asks.clone(), 100), 3);
    assert_eq!(a.book.as_ref().unwrap().bids, b.book.as_ref().unwrap().bids);
    assert_eq!(a.book.as_ref().unwrap().asks, b.book.as_ref().unwrap().asks);
    assert_eq!(a.ticker, b.ticker);
}

#[test]
fn delta_before_snapshot_is_dropped() {
    let mut m = MarketModel::new("BTCUSDT".to_string(), 10);
    assert_eq!(m.apply(delta(BookSide::Bid, 100, 1), 1), ApplyOutcome::Dropped);
    assert!(m.book.is_none());
    assert_eq!(m.last_update, LastUpdate { book: 0, trade: 0, ticker: 0, heartbeat: 0 });
}

#[test]
fn unsorted_snapshot_is_dropped_and_model_kept() {
    let mut m = MarketModel::new("BTCUSDT".to_string(), 10);
    m.apply(snapshot(vec![lvl(100, 2)], vec![lvl(101, 3)], 100), 1);
    let r = m.apply(snapshot(vec![lvl(90, 1), lvl(95, 1)], vec![], 90), 2);
    assert_eq!(r, ApplyOutcome::Dropped);
    assert_eq!(m.book.as_ref().unwrap().bids, vec![lvl(100, 2)]);
    assert_eq!(m.last_update.book, 1);
}

#[test]
fn other_symbol_and_unknown_tags_are_ignored() {
    let mut m = MarketModel::new("BTCUSDT".to_string(), 10);
    let other = WireMessage::Snapshot {
        symbol: "ETHUSDT".to_string(),
        book: OrderBookSnapshot { bids: vec![lvl(1, 1)], asks: vec![] },
        ticker: ticker(20),
    };
    assert_eq!(m.apply(other, 1), ApplyOutcome::Ignored);
    assert!(m.book.is_none());
    assert_eq!(m.apply(WireMessage::Unknown, 2), ApplyOutcome::Ignored);
    let other_trade = WireMessage::Trade {
        symbol: "ETHUSDT".to_string(),
        trade: Trade { id: 1, side: TradeSide::Sell, price: 1, quantity: 1, timestamp: 1 },
    };
    assert_eq!(m.apply(other_trade, 3), ApplyOutcome::Ignored);
    assert!(m.trades.trades.is_empty());
}

#[test]
fn trades_ticker_and_heartbeat_update_their_own_stamps() {
    let mut m = MarketModel::new("BTCUSDT".to_string(), 2);
    assert_eq!(m.apply(trade(1), 10), ApplyOutcome::Applied);
    assert_eq!(m.apply(trade(2), 11), ApplyOutcome::Applied);
    assert_eq!(m.apply(trade(3), 12), ApplyOutcome::Applied);
    let ids: Vec<u64> = m.trades.trades.iter().map(|t| t.id).collect();
    assert_eq!(ids, vec![3, 2]);
    let t = WireMessage::Ticker { symbol: "BTCUSDT".to_string(), ticker: ticker(77) };
    assert_eq!(m.apply(t, 20), ApplyOutcome::Applied);
    assert_eq!(m.ticker, Some(ticker(77)));
    assert_eq!(m.apply(WireMessage::Heartbeat { server_time: 999 }, 30), ApplyOutcome::Applied);
    assert_eq!(m.last_update, LastUpdate { book: 0, trade: 12, ticker: 20, heartbeat: 30 });
    assert!(m.book.is_none());
    assert_eq!(m.staleness(45), 15);
    assert_eq!(m.staleness(25), 0);
}

#[test]
fn ticker_range_position_clamps_and_scales() {
    let t = |last: u64, high: u64, low: u64| Ticker { last, high, low, volume: 0, change: 0 };
    assert_eq!(t(150, 200, 100).range_position_bps(), 5000);
    assert_eq!(t(125, 200, 100).range_position_bps(), 2500);
    assert_eq!(t(101, 200, 100).range_position_bps(), 100);
    assert_eq!(t(250, 200, 100).range_position_bps(), 10000);
    assert_eq!(t(50, 200, 100).range_position_bps(), 0);
    assert_eq!(t(50, 100, 100).range_position_bps(), 5000);
    assert_eq!(t(50, 90, 100).range_position_bps(), 5000);
}

#[test]
fn crossing_delta_is_dropped_and_model_kept() {
    let mut m = MarketModel::new("BTCUSDT".to_string(), 10);
    m.apply(snapshot(vec![lvl(100, 2)], vec![lvl(101, 3)], 100), 1);
    assert_eq!(m.apply(delta(BookSide::Bid, 102, 1), 2), ApplyOutcome::Dropped);
    assert_eq!(m.apply(delta(BookSide::Bid, 101, 1), 3), ApplyOutcome::Dropped);
    assert_eq!(m.apply(delta(BookSide::Ask, 99, 1), 4), ApplyOutcome::Dropped);
    assert_eq!(m.best_bid(), Some(lvl(100, 2)));
    assert_eq!(m.best_ask(), Some(lvl(101, 3)));
    assert_eq!(m.last_update.book, 1);
    assert_eq!(m.apply(delta(BookSide::Ask, 101, 0), 5), ApplyOutcome::Applied);
    assert_eq!(m.apply(delta(BookSide::Bid, 102, 1), 6), ApplyOutcome::Applied);
    assert_eq!(m.best_bid(), Some(lvl(102, 1)));
    assert_eq!(m.spread(), None);
}

#[test]
fn crossed_snapshot_is_dropped() {
    let mut m = MarketModel::new("BTCUSDT".to_string(), 10);
    let r = m.apply(snapshot(vec![lvl(102, 1)], vec![lvl(101, 3)], 100), 1);
    assert_eq!(r, ApplyOutcome::Dropped);
    assert!(m.book.is_none());
}
