//! Quoted option contracts.

use crate::models::decimal::Decimal;
use crate::models::timestamp::Timestamp;
use vstd::prelude::*;

verus! {

/// The kind of an option.
#[derive(Clone, Copy, Debug, PartialEq, Eq, Structural, Hash)]
pub enum OptionType {
    Call,
    Put,
}

/// The glyph that marks a call in records and tables.
pub open spec fn call_glyph() -> Seq<char> {
    seq!['\u{f0}', '\u{178}', '\u{201c}', '\u{2c6}']
}

/// The glyph that marks a put in records and tables.
pub open spec fn put_glyph() -> Seq<char> {
    seq!['\u{f0}', '\u{178}', '\u{201c}', '\u{2030}']
}

impl OptionType {
    /// The name of the kind in capitals.
    pub open spec fn label(self) -> Seq<char> {
        match self {
            OptionType::Call => "CALL"@,
            OptionType::Put => "PUT"@,
        }
    }

    /// The glyph of the kind.
    pub open spec fn glyph(self) -> Seq<char> {
        match self {
            OptionType::Call => call_glyph(),
            OptionType::Put => put_glyph(),
        }
    }

    /// `CALL` or `PUT`.
    pub fn to_string(&self) -> (s: String)
        ensures
            s@ == self.label(),
    {
        match self {
            OptionType::Call => "CALL".to_string(),
            OptionType::Put => "PUT".to_string(),
        }
    }

    /// The glyph that marks the kind.
    pub fn emoji(&self) -> (s: &'static str)
        ensures
            s@ == self.glyph(),
    {
        proof {
            reveal_strlit("\u{f0}\u{178}\u{201c}\u{2c6}");
            reveal_strlit("\u{f0}\u{178}\u{201c}\u{2030}");
        }
        match self {
            OptionType::Call => {
                let s = "\u{f0}\u{178}\u{201c}\u{2c6}";
                assert(s@ =~= call_glyph());
                s
            },
            OptionType::Put => {
                let s = "\u{f0}\u{178}\u{201c}\u{2030}";
                assert(s@ =~= put_glyph());
                s
            },
        }
    }
}

/// One quoted option contract. The gateway supplies everything but
/// `stock_price` and `profit_percent`, which are zero until a scan sets the
/// first and computes the second from it.
#[derive(Clone, Debug)]
pub struct OptionChain {
    pub symbol: String,
    pub option_type: OptionType,
    pub expiration: Timestamp,
    pub strike: Decimal,
    pub option_price: Decimal,
    pub stock_price: Decimal,
    pub profit_percent: Decimal,
    pub volume: i32,
    pub implied_volatility: Decimal,
    pub timestamp: Timestamp,
    pub contract_id: String,
}

/// Limits that a caller may apply to a chain.
#[derive(Clone, Debug)]
pub struct OptionChainFilters {
    pub min_profit_percent: Decimal,
    pub min_volume: i32,
    pub max_days_to_expiry: i32,
}

impl Default for OptionChainFilters {
    /// Two percent, a volume of a hundred, forty-five days.
    fn default() -> (f: Self)
        ensures
            f.min_profit_percent@ == 20_000,
            f.min_volume == 100,
            f.max_days_to_expiry == 45,
    {
        OptionChainFilters {
            min_profit_percent: Decimal::from_whole(2),
            min_volume: 100,
            max_days_to_expiry: 45,
        }
    }
}

} // verus!
