use vstd::prelude::*;

verus! {

/// The closed set of symbols the ingestion run covers. A pair names the
/// remote market to query and the per-symbol tables to persist into.
#[allow(non_camel_case_types)]
#[derive(Clone, Copy, Debug, PartialEq, Eq, Hash, Structural)]
pub enum TradingPair {
    BTCUSDT,
    ETHUSDT,
    LDOUSDT,
}

impl TradingPair {
    /// The symbol exactly as the remote API spells it, for URL parameters.
    pub fn symbol(&self) -> (r: &'static str)
        ensures
            *self == TradingPair::BTCUSDT ==> r@ == "BTCUSDT"@,
            *self == TradingPair::ETHUSDT ==> r@ == "ETHUSDT"@,
            *self == TradingPair::LDOUSDT ==> r@ == "LDOUSDT"@,
    {
        match self {
            TradingPair::BTCUSDT => "BTCUSDT",
            TradingPair::ETHUSDT => "ETHUSDT",
            TradingPair::LDOUSDT => "LDOUSDT",
        }
    }

    /// The lower-case spelling used as the suffix of the per-symbol
    /// table names.
    pub fn symbol_lower(&self) -> (r: &'static str)
        ensures
            *self == TradingPair::BTCUSDT ==> r@ == "btcusdt"@,
            *self == TradingPair::ETHUSDT ==> r@ == "ethusdt"@,
            *self == TradingPair::LDOUSDT ==> r@ == "ldousdt"@,
    {
        match self {
            TradingPair::BTCUSDT => "btcusdt",
            TradingPair::ETHUSDT => "ethusdt",
            TradingPair::LDOUSDT => "ldousdt",
        }
    }
}

} // verus!
