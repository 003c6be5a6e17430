//! Adapter for the FTX exchange: REST market listing, WebSocket
//! subscriptions and the decoding of streaming messages into events.
pub mod rest;
pub mod ws;

use vstd::prelude::*;

use crate::ftx::ws::{trades_from, trades_from_batch, Data, Trade as WireTrade, WsMsg};
use crate::market::{MarketDataError, MarketEvent, MarketEventType, UnknownVariantError};
use crate::orderbook::{merged_view, snapshot_view, BookView, OrderBook, OrderbookTable};

verus! {

/// The JSON text of an object whose members are the given names and
/// string values, as serde_json writes it.
pub uninterp spec fn json_object_text(fields: Seq<(Seq<char>, Seq<char>)>) -> Seq<char>;

/// The texts of a list of name and value pairs.
pub open spec fn fields_view(fields: Seq<(String, String)>) -> Seq<(Seq<char>, Seq<char>)> {
    fields.map_values(|f: (String, String)| (f.0@, f.1@))
}

/// Relies on serde_json: collects the pairs into a `Map` of string values
/// and writes it out with `Value::to_string`; the text depends on the pairs
/// alone.
#[verifier::external_body]
fn json_object(fields: &Vec<(String, String)>) -> (r: String)
    ensures
        r@ == json_object_text(fields_view(fields@)),
{
    let m: serde_json::Map<String, serde_json::Value> = fields
        .iter()
        .map(|f| (f.0.clone(), serde_json::Value::String(f.1.clone())))
        .collect();
    serde_json::Value::Object(m).to_string()
}

/// The request that subscribes to `channel` of `market`.
pub open spec fn subscribe_request(channel: Seq<char>, market: Seq<char>) -> Seq<char> {
    json_object_text(seq![("op"@, "subscribe"@), ("channel"@, channel), ("market"@, market)])
}

/// `ev` carries, at `timestamp`, the trades of market `m` made from
/// the batch `ts`.
pub open spec fn is_trades_event(ev: MarketEvent, m: Seq<char>, ts: Seq<WireTrade>, received_at: u64, timestamp: i64) -> bool {
    &&& ev.timestamp == timestamp
    &&& match ev.event_type {
        MarketEventType::Trades(s, v) => s@ == m && trades_from(v@, ts, received_at),
        MarketEventType::OrderbookUpdate(_, _) => false,
    }
}

/// `ev` carries, at `timestamp`, a well-formed copy of book `v` of market `m`.
pub open spec fn is_book_event(ev: MarketEvent, m: Seq<char>, v: BookView, timestamp: i64) -> bool {
    &&& ev.timestamp == timestamp
    &&& match ev.event_type {
        MarketEventType::OrderbookUpdate(s, b) => s@ == m && b@ == v && b.wf(),
        MarketEventType::Trades(_, _) => false,
    }
}

/// The FTX exchange adapter.
#[derive(Debug)]
pub struct Ftx {}

impl Ftx {
    pub fn new() -> (r: Ftx) {
        Ftx {}
    }

    /// The WebSocket endpoint.
    pub fn ws_url(&self) -> (r: String)
        ensures
            r@ == "wss://ftx.com/ws"@,
    {
        String::from_str("wss://ftx.com/ws")
    }

    /// A snapshot of the book of `symbol`; this exchange serves none over
    /// REST, so the book is empty.
    pub fn fetch_orderbook_snapshot(&self, symbol: &String) -> (r: Result<OrderBook, MarketDataError>)
        ensures
            match r {
                Ok(b) => b.wf() && b@ == (BookView { bids: Seq::empty(), asks: Seq::empty(), time: 0 }),
                Err(_) => false,
            },
    {
        Ok(OrderBook::new())
    }

    /// Two subscription requests for each market, order book first, then
    /// trades.
    pub fn subscribe_msgs(&mut self, markets: &Vec<String>) -> (r: Vec<String>)
        requires
            2 * markets@.len() <= usize::MAX,
        ensures
            r@.len() == 2 * markets@.len(),
            forall|i: int| 0 <= i < markets@.len() ==> {
                &&& (#[trigger] r@[2 * i])@ == subscribe_request("orderbook"@, markets@[i]@)
                &&& r@[2 * i + 1]@ == subscribe_request("trades"@, markets@[i]@)
            },
    {
        let mut out: Vec<String> = Vec::new();
        let mut k: usize = 0;
        while k < markets.len()
            invariant
                k <= markets@.len(),
                out@.len() == 2 * k,
                forall|i: int| 0 <= i < k ==> {
                    &&& (#[trigger] out@[2 * i])@ == subscribe_request("orderbook"@, markets@[i]@)
                    &&& out@[2 * i + 1]@ == subscribe_request("trades"@, markets@[i]@)
                },
            decreases markets@.len() - k,
        {
            let book = subscription(&String::from_str("orderbook"), &markets[k]);
            let trades = subscription(&String::from_str("trades"), &markets[k]);
            let ghost prev = out@;
            out.push(book);
            out.push(trades);
            assert forall|i: int| 0 <= i < k + 1 implies {
                &&& (#[trigger] out@[2 * i])@ == subscribe_request("orderbook"@, markets@[i]@)
                &&& out@[2 * i + 1]@ == subscribe_request("trades"@, markets@[i]@)
            } by {
                if i < k {
                    assert(out@[2 * i] == prev[2 * i] && out@[2 * i + 1] == prev[2 * i + 1]);
                }
            }
            k = k + 1;
        }
        out
    }

    /// Decodes one streaming message against the books of `markets`.
    ///
    /// A trade batch becomes a trades event, with each record whose time
    /// does not parse left out. A `partial` replaces the market's book, an
    /// `update` merges into it; either way the event carries a copy of the
    /// new book. Any other action is refused and leaves the books as they
    /// were, as does every other error.
    pub fn process_ws_msg(
        &self,
        msg: &WsMsg,
        markets: &mut OrderbookTable,
        timestamp: i64,
        received_at: u64,
    ) -> (r: Result<Option<MarketEvent>, MarketDataError>)
        requires
            old(markets).wf(),
        ensures
            final(markets).wf(),
            r.is_err() ==> final(markets)@ == old(markets)@,
            match msg.data {
                Data::Trades(ts) => {
                    &&& final(markets)@ == old(markets)@
                    &&& match msg.market {
                        None => r == Err::<Option<MarketEvent>, MarketDataError>(MarketDataError::MissingMarket),
                        Some(m) => match r {
                            Ok(Some(ev)) => is_trades_event(ev, m@, ts@, received_at, timestamp),
                            _ => false,
                        },
                    }
                },
                Data::Orderbook(ob) => {
                    if ob.action@ == "partial"@ {
                        match msg.market {
                            None => r == Err::<Option<MarketEvent>, MarketDataError>(MarketDataError::MissingMarket),
                            Some(m) => {
                                let v = snapshot_view(ob.bids@, ob.asks@, ob.time);
                                &&& final(markets)@ == old(markets)@.insert(m@, v)
                                &&& match r {
                                    Ok(Some(ev)) => is_book_event(ev, m@, v, timestamp),
                                    _ => false,
                                }
                            },
                        }
                    } else if ob.action@ == "update"@ {
                        match msg.market {
                            None => r == Err::<Option<MarketEvent>, MarketDataError>(MarketDataError::MissingMarket),
                            Some(m) => if old(markets)@.contains_key(m@) {
                                let v = merged_view(old(markets)@[m@], ob.bids@, ob.asks@, ob.time);
                                &&& final(markets)@ == old(markets)@.insert(m@, v)
                                &&& match r {
                                    Ok(Some(ev)) => is_book_event(ev, m@, v, timestamp),
                                    _ => false,
                                }
                            } else {
                                match r {
                                    Err(MarketDataError::NoOrderbook(s)) => s@ == m@,
                                    _ => false,
                                }
                            },
                        }
                    } else {
                        match r {
                            Err(MarketDataError::UnknownVariant(e)) => e.variant@ == ob.action@,
                            _ => false,
                        }
                    }
                },
            },
    {
        match &msg.data {
            Data::Trades(trades) => match &msg.market {
                None => Err(MarketDataError::MissingMarket),
                Some(m) => {
                    let ts = trades_from_batch(trades, received_at);
                    Ok(Some(MarketEvent { event_type: MarketEventType::Trades(m.clone(), ts), timestamp }))
                },
            },
            Data::Orderbook(ob) => {
                if ob.action == String::from_str("partial") {
                    match &msg.market {
                        None => Err(MarketDataError::MissingMarket),
                        Some(m) => {
                            let book = OrderBook::from_snapshot(&ob.bids, &ob.asks, ob.time);
                            let out = book.snapshot();
                            markets.insert(m.clone(), book);
                            Ok(Some(MarketEvent { event_type: MarketEventType::OrderbookUpdate(m.clone(), out), timestamp }))
                        },
                    }
                } else if ob.action == String::from_str("update") {
                    match &msg.market {
                        None => Err(MarketDataError::MissingMarket),
                        Some(m) => match markets.update_book(m, &ob.bids, &ob.asks, ob.time) {
                            Some(b) => Ok(Some(MarketEvent { event_type: MarketEventType::OrderbookUpdate(m.clone(), b), timestamp })),
                            None => Err(MarketDataError::NoOrderbook(m.clone())),
                        },
                    }
                } else {
                    Err(MarketDataError::UnknownVariant(UnknownVariantError { variant: ob.action.clone() }))
                }
            },
        }
    }
}

/// The request that subscribes to `channel` of `market`.
fn subscription(channel: &String, market: &String) -> (r: String)
    ensures
        r@ == subscribe_request(channel@, market@),
{
    let fields = vec![
        (String::from_str("op"), String::from_str("subscribe")),
        (String::from_str("channel"), channel.clone()),
        (String::from_str("market"), market.clone()),
    ];
    assert(fields_view(fields@) =~= seq![("op"@, "subscribe"@), ("channel"@, channel@), ("market"@, market@)]);
    json_object(&fields)
}

} // verus!
