//! Core of an option scanner for NASDAQ equities behind an Interactive
//! Brokers gateway: exact decimal quotes, the profitability metric, the
//! scan-cycle state machine, and the shaping of gateway requests, replies,
//! records and tables. Nothing here touches the network, a file or the
//! console: the program around this library does that work and hands over
//! plain values.

pub mod api;
pub mod models;
pub mod scanner;
pub mod utils;
