//! The equities that a scan walks through.

use crate::models::decimal::Decimal;
use crate::models::timestamp::Timestamp;
use vstd::prelude::*;

verus! {

/// An equity, as far as the scanner knows it.
#[derive(Clone, Debug)]
pub struct Stock {
    pub symbol: String,
    pub name: String,
    pub current_price: Decimal,
    pub market_cap: Option<Decimal>,
    pub sector: Option<String>,
}

/// The equities of one scan cycle, in the order in which they are scanned.
#[derive(Clone, Debug)]
pub struct StockList {
    pub stocks: Vec<Stock>,
    pub last_updated: Timestamp,
}

impl Stock {
    /// Whether `self` is the entry that a bare ticker symbol stands for: no
    /// name, no price, nothing else known.
    pub open spec fn is_placeholder_for(self, symbol: Seq<char>) -> bool {
        &&& self.symbol@ == symbol
        &&& self.name@ == "Unknown"@
        &&& self.current_price@ == 0
        &&& self.market_cap is None
        &&& self.sector is None
    }
}

impl StockList {
    /// One placeholder entry per symbol, in the order given, stamped with the
    /// current time.
    pub fn from_symbols(symbols: &[String]) -> (list: StockList)
        ensures
            list.stocks@.len() == symbols@.len(),
            forall|i: int|
                0 <= i < symbols@.len() ==> (#[trigger] list.stocks@[i]).is_placeholder_for(
                    symbols@[i]@,
                ),
    {
        StockList::stamped(symbols, Timestamp::now())
    }

    /// One placeholder entry per symbol, in the order given, stamped with
    /// `last_updated`.
    pub fn stamped(symbols: &[String], last_updated: Timestamp) -> (list: StockList)
        ensures
            list.last_updated == last_updated,
            list.stocks@.len() == symbols@.len(),
            forall|i: int|
                0 <= i < symbols@.len() ==> (#[trigger] list.stocks@[i]).is_placeholder_for(
                    symbols@[i]@,
                ),
    {
        let mut stocks: Vec<Stock> = Vec::new();
        let mut i: usize = 0;
        while i < symbols.len()
            invariant
                i <= symbols@.len(),
                stocks@.len() == i,
                forall|j: int|
                    0 <= j < i ==> (#[trigger] stocks@[j]).is_placeholder_for(symbols@[j]@),
            decreases symbols@.len() - i,
        {
            stocks.push(
                Stock {
                    symbol: symbols[i].clone(),
                    name: "Unknown".to_string(),
                    current_price: Decimal::zero(),
                    market_cap: None,
                    sector: None,
                },
            );
            i += 1;
        }
        StockList { stocks, last_updated }
    }
}

} // verus!
