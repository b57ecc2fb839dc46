pub mod decimal;
pub mod option_chain;
pub mod scanner_config;
pub mod stock;
pub mod timestamp;

pub use decimal::Decimal;
pub use option_chain::{OptionChain, OptionChainFilters, OptionType};
pub use scanner_config::{ConfigError, ScannerConfig};
pub use stock::{Stock, StockList};
pub use timestamp::Timestamp;
