use dash_sync::protocol::{Trade, TradeSide};
use dash_sync::trades::{TradeFlow, TradeWindow};

fn t(id: u64, side: TradeSide, quantity: u64) -> Trade {
    Trade { id, side, price: 100, quantity, timestamp: id }
}

#[test]
fn window_is_bounded_and_newest_first() {
    let mut w = TradeWindow::new(3);
    for id in 1..=7 {
        w.push(t(id, TradeSide::Buy, 1));
        assert!(w.trades.len() <= 3);
        assert_eq!(w.trades[0].id, id);
    }
    let ids: Vec<u64> = w.trades.iter().map(|x| x.id).collect();
    assert_eq!(ids, vec![7, 6, 5]);
}

#[test]
fn zero_capacity_window_stays_empty() {
    let mut w = TradeWindow::new(0);
    w.push(t(1, TradeSide::Sell, 1));
    assert!(w.trades.is_empty());
}

#[test]
fn flow_over_recent_window() {
    let mut w = TradeWindow::new(10);
    w.push(t(1, TradeSide::Sell, 8));
    w.push(t(2, TradeSide::Buy, 3));
    w.push(t(3, TradeSide::Buy, 1));
    assert_eq!(w.flow(2), TradeFlow { buy_volume: 4, sell_volume: 0 });
    assert_eq!(w.flow(100), TradeFlow { buy_volume: 4, sell_volume: 8 });
    assert_eq!(w.flow(0), TradeFlow { buy_volume: 0, sell_volume: 0 });
}

#[test]
fn buy_ratio_in_basis_points() {
    assert_eq!(TradeFlow { buy_volume: 4, sell_volume: 8 }.buy_ratio_bps(), Some(3333));
    assert_eq!(TradeFlow { buy_volume: 4, sell_volume: 0 }.buy_ratio_bps(), Some(10000));
    assert_eq!(TradeFlow { buy_volume: 0, sell_volume: 0 }.buy_ratio_bps(), Some(5000));
    assert_eq!(TradeFlow { buy_volume: u128::MAX, sell_volume: 1 }.buy_ratio_bps(), None);
}
