use botnode::ftx::ws::{Data, OrderbookMsg, WsMsg};
use botnode::ftx::Ftx;
use botnode::market::{MarketDataError, MarketEventType};
use botnode::orderbook::{OrderBook, OrderbookTable, PriceLevel, PriceLevels, Side};

fn book_msg(market: Option<&str>, action: &str, bids: Vec<(u64, u64)>, asks: Vec<(u64, u64)>, time: u64) -> WsMsg {
    WsMsg {
        channel: "orderbook".to_string(),
        market: market.map(|m| m.to_string()),
        data: Data::Orderbook(OrderbookMsg { time, bids, asks, action: action.to_string() }),
        msg_type: Some(action.to_string()),
    }
}

fn prices(levels: &PriceLevels) -> Vec<u64> {
    levels.levels.iter().map(|l| l.price).collect()
}

#[test]
fn partial_orders_bids_descending_and_asks_ascending() {
    let ftx = Ftx::new();
    for bids in [vec![(100, 1), (99, 2)], vec![(99, 2), (100, 1)]] {
        let mut table = OrderbookTable::new();
        let msg = book_msg(Some("BTC-PERP"), "partial", bids, vec![(101, 1)], 7);
        let ev = ftx.process_ws_msg(&msg, &mut table, 0, 0).unwrap().unwrap();
        match ev.event_type {
            MarketEventType::OrderbookUpdate(m, b) => {
                assert_eq!(m, "BTC-PERP");
                assert_eq!(prices(&b.bids), vec![100, 99]);
                assert_eq!(prices(&b.asks), vec![101]);
                assert_eq!(b.bids.levels[1], PriceLevel { price: 99, size: 2 });
                assert_eq!(b.time, 7);
            }
            _ => panic!("expected an order-book event"),
        }
    }
}

#[test]
fn update_merges_into_existing_book() {
    let ftx = Ftx::new();
    let mut table = OrderbookTable::new();
    ftx.process_ws_msg(&book_msg(Some("BTC-PERP"), "partial", vec![(100, 1), (99, 2)], vec![(101, 1)], 1), &mut table, 0, 0)
        .unwrap();
    let ev = ftx
        .process_ws_msg(&book_msg(Some("BTC-PERP"), "update", vec![(100, 0), (98, 5)], vec![], 2), &mut table, 5, 0)
        .unwrap()
        .unwrap();
    assert_eq!(ev.timestamp, 5);
    match ev.event_type {
        MarketEventType::OrderbookUpdate(_, b) => {
            assert_eq!(prices(&b.bids), vec![99, 98]);
            assert_eq!(b.bids.levels[0].size, 2);
            assert_eq!(b.bids.levels[1].size, 5);
            assert_eq!(prices(&b.asks), vec![101]);
            assert_eq!(b.time, 2);
        }
        _ => panic!("expected an order-book event"),
    }
    let live = table.get(&"BTC-PERP".to_string()).unwrap();
    assert_eq!(prices(&live.bids), vec![99, 98]);
}

#[test]
fn unknown_action_is_rejected_and_book_kept() {
    let ftx = Ftx::new();
    let mut table = OrderbookTable::new();
    ftx.process_ws_msg(&book_msg(Some("BTC-PERP"), "partial", vec![(100, 1), (99, 2)], vec![(101, 1)], 1), &mut table, 0, 0)
        .unwrap();
    let before = table.get(&"BTC-PERP".to_string()).unwrap();
    let r = ftx.process_ws_msg(&book_msg(Some("BTC-PERP"), "resync", vec![(100, 0)], vec![], 9), &mut table, 0, 0);
    match r {
        Err(MarketDataError::UnknownVariant(e)) => assert_eq!(e.variant, "resync"),
        _ => panic!("expected an unknown-variant error"),
    }
    let after = table.get(&"BTC-PERP".to_string()).unwrap();
    assert_eq!(after.bids.levels, before.bids.levels);
    assert_eq!(after.asks.levels, before.asks.levels);
    assert_eq!(after.time, before.time);
}

#[test]
fn update_before_partial_is_an_error() {
    let ftx = Ftx::new();
    let mut table = OrderbookTable::new();
    let r = ftx.process_ws_msg(&book_msg(Some("ETH-PERP"), "update", vec![(1, 1)], vec![], 1), &mut table, 0, 0);
    assert!(matches!(r, Err(MarketDataError::NoOrderbook(ref m)) if m == "ETH-PERP"));
    assert!(table.get(&"ETH-PERP".to_string()).is_none());
}

#[test]
fn book_message_without_market_is_an_error() {
    let ftx = Ftx::new();
    let mut table = OrderbookTable::new();
    let r = ftx.process_ws_msg(&book_msg(None, "partial", vec![(1, 1)], vec![], 1), &mut table, 0, 0);
    assert!(matches!(r, Err(MarketDataError::MissingMarket)));
}

#[test]
fn partial_replaces_earlier_book() {
    let ftx = Ftx::new();
    let mut table = OrderbookTable::new();
    ftx.process_ws_msg(&book_msg(Some("A"), "partial", vec![(10, 1)], vec![(11, 1)], 1), &mut table, 0, 0).unwrap();
    ftx.process_ws_msg(&book_msg(Some("B"), "partial", vec![(20, 1)], vec![], 1), &mut table, 0, 0).unwrap();
    ftx.process_ws_msg(&book_msg(Some("A"), "partial", vec![(9, 3)], vec![], 2), &mut table, 0, 0).unwrap();
    let a = table.get(&"A".to_string()).unwrap();
    assert_eq!(prices(&a.bids), vec![9]);
    assert!(a.asks.levels.is_empty());
    let b = table.get(&"B".to_string()).unwrap();
    assert_eq!(prices(&b.bids), vec![20]);
}

#[test]
fn asks_upsert_keeps_ascending_order() {
    let mut asks = PriceLevels::new(Side::Ask);
    asks.update(&vec![(105, 1), (101, 2), (103, 3), (101, 0), (104, 0), (103, 4)]);
    assert_eq!(prices(&asks), vec![103, 105]);
    assert_eq!(asks.size_at(103), 4);
    assert_eq!(asks.size_at(101), 0);
}

#[test]
fn snapshot_drops_zero_sizes_and_keeps_last_duplicate() {
    let b = OrderBook::from_snapshot(&vec![(5, 1), (7, 0), (5, 9), (6, 2)], &vec![], 3);
    assert_eq!(b.bids.levels, vec![PriceLevel { price: 6, size: 2 }, PriceLevel { price: 5, size: 9 }]);
}

#[test]
fn fetch_orderbook_snapshot_is_empty() {
    let b = Ftx::new().fetch_orderbook_snapshot(&"BTC-PERP".to_string()).unwrap();
    assert!(b.bids.levels.is_empty() && b.asks.levels.is_empty());
}
