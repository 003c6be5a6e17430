use botnode::ftx::rest::{markets_from_response, MarketInfo, ResponseResult, ResponseRoot};
use botnode::ftx::ws::{trade_from_parsed, trades_from_batch, Data, Trade as WireTrade, WsMsg};
use botnode::ftx::Ftx;
use botnode::market::{Market, MarketEventType, MarketType, Trade};
use botnode::orderbook::OrderbookTable;

fn info(name: &str, kind: &str, base: Option<&str>, quote: Option<&str>) -> MarketInfo {
    MarketInfo {
        name: name.to_string(),
        base_currency: base.map(|s| s.to_string()),
        quote_currency: quote.map(|s| s.to_string()),
        min_provide_size: 1,
        market_type: kind.to_string(),
        underlying: None,
        enabled: true,
        post_only: Some(false),
        price_increment: 5,
        size_increment: 1,
        restricted: Some(false),
    }
}

fn wire_trade(price: u64, time: &str) -> WireTrade {
    WireTrade { id: 1, price, side: "buy".to_string(), size: 3, liquidation: false, time: time.to_string() }
}

#[test]
fn spot_market_is_built() {
    let m = Market::try_from(&info("BTC/USD", "spot", Some("BTC"), Some("USD"))).unwrap();
    assert_eq!(m.name, "BTC/USD");
    assert_eq!(m.native_symbol, "BTC/USD");
    assert_eq!(m.price_increment, 5);
    assert_eq!(m.size_increment, 1);
    match m.market_type {
        MarketType::Spot(s) => {
            assert_eq!(s.base, "BTC");
            assert_eq!(s.quote, "USD");
        }
        MarketType::Futures => panic!("expected a spot market"),
    }
}

#[test]
fn future_market_is_built() {
    let m = Market::try_from(&info("BTC-PERP", "future", None, None)).unwrap();
    assert!(matches!(m.market_type, MarketType::Futures));
}

#[test]
fn swap_market_is_refused() {
    let e = Market::try_from(&info("X", "swap", None, None)).unwrap_err();
    assert_eq!(e, "Invalid market type: swap");
}

#[test]
fn spot_market_without_currencies_is_refused() {
    assert_eq!(Market::try_from(&info("X", "spot", None, Some("USD"))).unwrap_err(), "Missing base currency");
    assert_eq!(Market::try_from(&info("X", "spot", Some("BTC"), None)).unwrap_err(), "Missing quote currency");
}

#[test]
fn listing_keeps_supported_markets() {
    let root = ResponseRoot {
        success: true,
        result: ResponseResult::Markets(vec![
            info("BTC/USD", "spot", Some("BTC"), Some("USD")),
            info("X", "swap", None, None),
            info("BTC-PERP", "future", None, None),
        ]),
    };
    let ms = markets_from_response(&root);
    let names: Vec<String> = ms.iter().map(|m| m.name.clone()).collect();
    assert_eq!(names, vec!["BTC/USD".to_string(), "BTC-PERP".to_string()]);
}

#[test]
fn trade_time_is_parsed_to_micros() {
    let t = Trade::try_from(&wire_trade(10, "2021-01-01T00:00:00.5+00:00"), 42).unwrap();
    assert_eq!(t.time, 1_609_459_200_500_000);
    assert_eq!(t.price, 10);
    assert_eq!(t.size, 3);
    assert_eq!(t.side, "buy");
    assert_eq!(t.received_at, 42);
}

#[test]
fn trade_with_bad_time_is_refused() {
    let e = Trade::try_from(&wire_trade(10, "yesterday"), 0).unwrap_err();
    assert_eq!(e, "error parsing: yesterday");
}

#[test]
fn batch_drops_only_bad_records() {
    let batch = vec![
        wire_trade(1, "2021-01-01T00:00:00Z"),
        wire_trade(2, "not a time"),
        wire_trade(3, "2021-01-01T00:00:01Z"),
    ];
    let ts = trades_from_batch(&batch, 0);
    let ps: Vec<u64> = ts.iter().map(|t| t.price).collect();
    assert_eq!(ps, vec![1, 3]);
    assert_eq!(ts[1].time - ts[0].time, 1_000_000);
}

#[test]
fn trades_message_becomes_trades_event() {
    let msg = WsMsg {
        channel: "trades".to_string(),
        market: Some("BTC-PERP".to_string()),
        data: Data::Trades(vec![wire_trade(7, "2021-01-01T00:00:00Z"), wire_trade(8, "bad")]),
        msg_type: Some("update".to_string()),
    };
    let mut table = OrderbookTable::new();
    let ev = Ftx::new().process_ws_msg(&msg, &mut table, 99, 1).unwrap().unwrap();
    assert_eq!(ev.timestamp, 99);
    match ev.event_type {
        MarketEventType::Trades(m, ts) => {
            assert_eq!(m, "BTC-PERP");
            assert_eq!(ts.len(), 1);
            assert_eq!(ts[0].price, 7);
        }
        _ => panic!("expected a trades event"),
    }
}

#[test]
fn subscriptions_are_two_per_market() {
    let msgs = Ftx::new().subscribe_msgs(&vec!["BTC-PERP".to_string(), "ETH-PERP".to_string()]);
    assert_eq!(msgs.len(), 4);
    assert_eq!(msgs[0], r#"{"channel":"orderbook","market":"BTC-PERP","op":"subscribe"}"#);
    assert_eq!(msgs[1], r#"{"channel":"trades","market":"BTC-PERP","op":"subscribe"}"#);
    assert_eq!(msgs[3], r#"{"channel":"trades","market":"ETH-PERP","op":"subscribe"}"#);
}

#[test]
fn ws_url_is_the_exchange_endpoint() {
    assert_eq!(Ftx::new().ws_url(), "wss://ftx.com/ws");
}

#[test]
fn trade_from_parsed_time_builds_or_refuses() {
    let w = wire_trade(12, "2021-01-01T00:00:00Z");
    let t = trade_from_parsed(&w, Some(77), 5).unwrap();
    assert_eq!((t.price, t.size, t.time, t.received_at), (12, 3, 77, 5));
    assert_eq!(t.side, "buy");
    assert_eq!(trade_from_parsed(&w, None, 5).unwrap_err(), "error parsing: 2021-01-01T00:00:00Z");
}
