//! Exchange-neutral market data: markets, trades, events and errors.
use vstd::prelude::*;

use crate::orderbook::OrderBook;

verus! {

/// The currencies of a spot market.
#[derive(Clone, Debug)]
pub struct SpotMarket {
    pub base: String,
    pub quote: String,
}

/// The kind of a tradable instrument.
#[derive(Clone, Debug)]
pub enum MarketType {
    Spot(SpotMarket),
    Futures,
}

/// One tradable instrument; increments are fixed-point integers in the
/// units that prices and sizes use.
#[derive(Clone, Debug)]
pub struct Market {
    pub name: String,
    pub native_symbol: String,
    pub size_increment: u64,
    pub price_increment: u64,
    pub market_type: MarketType,
}

/// One executed trade: price and size, side, exchange time in microseconds
/// since the Unix epoch, and the local time at which it was received.
#[derive(Clone, Debug)]
pub struct Trade {
    pub price: u64,
    pub size: u64,
    pub side: String,
    pub time: i64,
    pub received_at: u64,
}

/// What an event carries: a batch of trades or a copy of a book, each with
/// its market symbol.
#[derive(Debug)]
pub enum MarketEventType {
    Trades(String, Vec<Trade>),
    OrderbookUpdate(String, OrderBook),
}

/// The unit written to a market-data channel.
#[derive(Debug)]
pub struct MarketEvent {
    pub event_type: MarketEventType,
    pub timestamp: i64,
}

/// A variant name that the exchange protocol does not define.
#[derive(Clone, Debug)]
pub struct UnknownVariantError {
    pub variant: String,
}

/// Why an exchange payload could not be used.
#[derive(Clone, Debug)]
pub enum MarketDataError {
    /// The payload did not decode.
    Decode(String),
    /// The request to the exchange failed.
    Http(String),
    /// The payload names a variant that the protocol does not define.
    UnknownVariant(UnknownVariantError),
    /// A streaming message that needs a market symbol has none.
    MissingMarket,
    /// A delta arrived for a market that has no book yet.
    NoOrderbook(String),
}

} // verus!
