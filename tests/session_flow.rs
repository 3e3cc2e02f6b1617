use dash_sync::backoff::BackoffPolicy;
use dash_sync::protocol::{BookSide, OrderBookSnapshot, PriceLevel, Ticker, WireMessage};
use dash_sync::session::{ClientSession, FrameOutcome};
use dash_sync::store::ApplyOutcome;
use dash_sync::transport::{ConnectionState, TransportAction, TransportConfig, TransportEvent};

fn lvl(price: u64, quantity: u64) -> PriceLevel {
    PriceLevel { price, quantity }
}

fn session() -> ClientSession {
    let config = TransportConfig {
        backoff: BackoffPolicy { base_ms: 250, factor: 2, max_ms: 8000, jitter: true },
        heartbeat_ms: 1000,
        stale_after: 2,
    };
    ClientSession::new(config, "BTCUSDT".to_string(), 50)
}

fn snapshot(bids: Vec<PriceLevel>, asks: Vec<PriceLevel>) -> WireMessage {
    WireMessage::Snapshot {
        symbol: "BTCUSDT".to_string(),
        book: OrderBookSnapshot { bids, asks },
        ticker: Ticker { last: 100, high: 110, low: 90, volume: 5, change: 1 },
    }
}

#[test]
fn end_to_end_reconnect_resynchronises_from_snapshot() {
    let mut s = session();
    assert_eq!(s.on_event(TransportEvent::Connect), TransportAction::OpenSocket);
    s.on_event(TransportEvent::HandshakeSucceeded { now: 10 });
    let r = s.on_frame(Some(snapshot(vec![lvl(100, 2)], vec![lvl(101, 3)])), 11);
    assert_eq!(r, FrameOutcome::Model(ApplyOutcome::Applied));
    assert_eq!(s.model.spread(), Some(1));
    let d = WireMessage::Delta { symbol: "BTCUSDT".to_string(), side: BookSide::Bid, price: 100, quantity: 0 };
    assert_eq!(s.on_frame(Some(d), 12), FrameOutcome::Model(ApplyOutcome::Applied));
    assert_eq!(s.model.best_bid(), None);

    assert_eq!(s.on_event(TransportEvent::SocketLost), TransportAction::StartBackoff { delay_ms: 250 });
    assert_eq!(s.transport.state, ConnectionState::Reconnecting);
    let late = WireMessage::Delta { symbol: "BTCUSDT".to_string(), side: BookSide::Ask, price: 102, quantity: 1 };
    assert_eq!(s.on_frame(Some(late), 13), FrameOutcome::NotConnected);
    assert_eq!(s.on_event(TransportEvent::BackoffElapsed), TransportAction::OpenSocket);
    s.on_event(TransportEvent::HandshakeSucceeded { now: 400 });

    let fresh = snapshot(vec![lvl(99, 4), lvl(98, 1)], vec![lvl(100, 2)]);
    assert_eq!(s.on_frame(Some(fresh), 401), FrameOutcome::Model(ApplyOutcome::Applied));
    let book = s.model.book.as_ref().unwrap();
    assert_eq!(book.bids, vec![lvl(99, 4), lvl(98, 1)]);
    assert_eq!(book.asks, vec![lvl(100, 2)]);
}

#[test]
fn malformed_frame_is_dropped_without_reconnecting() {
    let mut s = session();
    s.on_event(TransportEvent::Connect);
    s.on_event(TransportEvent::HandshakeSucceeded { now: 0 });
    assert_eq!(s.on_frame(None, 1500), FrameOutcome::Malformed);
    assert_eq!(s.malformed, 1);
    assert_eq!(s.transport.state, ConnectionState::Connected);
    assert_eq!(s.transport.last_seen, 1500);
    assert_eq!(s.on_event(TransportEvent::Tick { now: 3000 }), TransportAction::SendPing);
    assert_eq!(s.transport.state, ConnectionState::Connected);
}

#[test]
fn frames_before_connecting_are_discarded() {
    let mut s = session();
    assert_eq!(s.on_frame(Some(snapshot(vec![lvl(1, 1)], vec![])), 1), FrameOutcome::NotConnected);
    assert!(s.model.book.is_none());
    assert_eq!(s.on_frame(None, 2), FrameOutcome::NotConnected);
    assert_eq!(s.malformed, 0);
}
