//! Verified core of a trading-bot node: order-book reconstruction, exchange
//! message handling, the control connection's state machine and the
//! shutdown protocol.
pub mod control;
pub mod engine;
pub mod ftx;
pub mod market;
pub mod orderbook;
pub mod shutdown;
