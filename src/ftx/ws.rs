//! The exchange's WebSocket messages and the trades they carry.
use vstd::prelude::*;

use crate::market::Trade as MarketTrade;

verus! {

/// One streaming message: its channel, market symbol, payload and type.
#[derive(Clone, Debug)]
pub struct WsMsg {
    pub channel: String,
    pub market: Option<String>,
    pub data: Data,
    pub msg_type: Option<String>,
}

/// The payload of a streaming message.
#[derive(Clone, Debug)]
pub enum Data {
    Trades(Vec<Trade>),
    Orderbook(OrderbookMsg),
}

/// An order-book snapshot (`partial`) or delta (`update`); prices, sizes and
/// the time are fixed-point integers.
#[derive(Clone, Debug)]
pub struct OrderbookMsg {
    pub time: u64,
    pub bids: Vec<(u64, u64)>,
    pub asks: Vec<(u64, u64)>,
    pub action: String,
}

/// One trade record as the exchange sends it.
#[derive(Clone, Debug)]
pub struct Trade {
    pub id: i64,
    pub price: u64,
    pub side: String,
    pub size: u64,
    pub liquidation: bool,
    pub time: String,
}

/// Microseconds since the Unix epoch of the instant that a timestamp text
/// denotes, or `None` where the text is no such timestamp.
pub uninterp spec fn utc_micros_of(s: Seq<char>) -> Option<i64>;

/// Relies on chrono's `FromStr` for `DateTime<Utc>` (RFC 3339 text) and on
/// `DateTime::timestamp_micros`.
#[verifier::external_body]
fn parse_utc_micros(s: &String) -> (r: Option<i64>)
    ensures
        r == utc_micros_of(s@),
{
    s.parse::<chrono::DateTime<chrono::Utc>>().ok().map(|t| t.timestamp_micros())
}

/// `t` is the trade that record `w` describes, received at `received_at`.
pub open spec fn trade_from(t: MarketTrade, w: Trade, received_at: u64) -> bool {
    &&& utc_micros_of(w.time@) == Some(t.time)
    &&& t.price == w.price
    &&& t.size == w.size
    &&& t.side@ == w.side@
    &&& t.received_at == received_at
}

/// The records of `s` whose time parses, in order.
pub open spec fn parsed_trades(s: Seq<Trade>) -> Seq<Trade>
    decreases s.len(),
{
    if s.len() == 0 {
        Seq::empty()
    } else if utc_micros_of(s.last().time@).is_some() {
        parsed_trades(s.drop_last()).push(s.last())
    } else {
        parsed_trades(s.drop_last())
    }
}

/// The trades of a batch: `r` holds one trade for each record of
/// `s` whose time parses, in order.
pub open spec fn trades_from(r: Seq<MarketTrade>, s: Seq<Trade>, received_at: u64) -> bool {
    &&& r.len() == parsed_trades(s).len()
    &&& forall|j: int| 0 <= j < r.len() ==> trade_from(#[trigger] r[j], parsed_trades(s)[j], received_at)
}

impl MarketTrade {
    /// Builds the trade of one record; fails where its time does not parse.
    pub fn try_from(trade: &Trade, received_at: u64) -> (r: Result<MarketTrade, String>)
        ensures
            r.is_ok() == utc_micros_of(trade.time@).is_some(),
            match r {
                Ok(t) => trade_from(t, *trade, received_at),
                Err(e) => e@ == "error parsing: "@ + trade.time@,
            },
    {
        let time = parse_utc_micros(&trade.time);
        trade_from_parsed(trade, time, received_at)
    }
}

/// Builds the trade of one record from the parse of its time: the trade
/// where `time` holds a value, else the error that names the time text.
pub fn trade_from_parsed(trade: &Trade, time: Option<i64>, received_at: u64) -> (r: Result<MarketTrade, String>)
    ensures
        r.is_ok() == time.is_some(),
        match r {
            Ok(t) => {
                &&& Some(t.time) == time
                &&& t.price == trade.price
                &&& t.size == trade.size
                &&& t.side@ == trade.side@
                &&& t.received_at == received_at
            },
            Err(e) => e@ == "error parsing: "@ + trade.time@,
        },
{
    match time {
        Some(time) => Ok(MarketTrade {
            price: trade.price,
            size: trade.size,
            side: trade.side.clone(),
            time,
            received_at,
        }),
        None => {
            let mut e = String::from_str("error parsing: ");
            e.append(trade.time.as_str());
            Err(e)
        },
    }
}

/// The trades of a batch: each record whose time parses, in order; a record
/// that does not parse is dropped alone.
pub fn trades_from_batch(trades: &Vec<Trade>, received_at: u64) -> (r: Vec<MarketTrade>)
    ensures
        trades_from(r@, trades@, received_at),
{
    let mut out: Vec<MarketTrade> = Vec::new();
    let mut k: usize = 0;
    while k < trades.len()
        invariant
            k <= trades@.len(),
            trades_from(out@, trades@.take(k as int), received_at),
        decreases trades@.len() - k,
    {
        assert(trades@.take(k as int + 1).drop_last() =~= trades@.take(k as int));
        assert(trades@.take(k as int + 1).last() == trades@[k as int]);
        match MarketTrade::try_from(&trades[k], received_at) {
            Ok(t) => {
                out.push(t);
            },
            Err(_) => {},
        }
        k = k + 1;
    }
    assert(trades@.take(k as int) =~= trades@);
    out
}

} // verus!
