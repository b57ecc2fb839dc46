pub mod logger;
pub mod nasdaq_scanner;
pub mod profit_calculator;

pub use nasdaq_scanner::run;
