//! The core of a multi-venue order-book aggregator: fixed-point numerics,
//! depth-limited order books and their registry, the connectors that read
//! the venues' messages, the decisions of the connection supervisor and of
//! the subscriber sessions, and the metrics counters.
//!
//! Nothing here reads a socket or a clock. The caller does, and hands the
//! library texts, times and events.

pub mod exchanges;
pub mod json;
pub mod metrics;
pub mod numeric;
pub mod orderbook;
pub mod registry;
pub mod server;
pub mod text;
pub mod timestamp;
pub mod types;
