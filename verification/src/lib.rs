//! Market-data feed ingestion for cryptocurrency exchanges: the framing and
//! classification rules of each exchange, the per-connection state machine,
//! the split of subscriptions over connections and the planning of a crawl.

pub mod adapter;
pub mod message;
pub mod json;
pub mod bitmex;
pub mod bitstamp;
pub mod crawler;
pub mod engine;
pub mod kucoin;
pub mod mxc;
pub mod partition;
pub mod retry;
pub mod session;
