use vstd::prelude::*;

verus! {

/// A raw candle record exactly as the remote API puts it on the wire:
/// every decimal field is a string, only the open/close times and the
/// trade count are integers.
pub struct KlinePreProcess {
    pub time_open: u64,
    pub open: String,
    pub high: String,
    pub low: String,
    pub close: String,
    pub volume: String,
    pub time_close: u64,
    pub quote_asset_volume: String,
    pub num_trades: u64,
    pub taker_buy_base_asset_volume: String,
    pub taker_buy_base_quote_volume: String,
    pub unused: String,
}

impl KlinePreProcess {
    /// Normalizes a wire record into the canonical candle: the open time,
    /// the five decimal fields and the trade count are kept, the rest of
    /// the wire record is dropped.
    pub fn process(&self) -> (r: Kline)
        ensures
            r.time_open == self.time_open,
            r.open == self.open,
            r.high == self.high,
            r.low == self.low,
            r.close == self.close,
            r.volume == self.volume,
            r.num_trades == self.num_trades,
    {
        Kline::new(
            self.time_open,
            self.open.clone(),
            self.high.clone(),
            self.low.clone(),
            self.close.clone(),
            self.volume.clone(),
            self.num_trades,
        )
    }
}

/// The canonical candle record: one fixed interval of market activity.
/// `time_open` is epoch milliseconds on an interval boundary; the decimal
/// fields keep the remote API's exact textual encoding.
pub struct Kline {
    pub time_open: u64,
    pub open: String,
    pub high: String,
    pub low: String,
    pub close: String,
    pub volume: String,
    pub num_trades: u64,
}

impl Kline {
    pub fn new(
        time_open: u64,
        open: String,
        high: String,
        low: String,
        close: String,
        volume: String,
        num_trades: u64,
    ) -> (r: Self)
        ensures
            r == (Kline { time_open, open, high, low, close, volume, num_trades }),
    {
        Kline { time_open, open, high, low, close, volume, num_trades }
    }
}

impl Clone for Kline {
    fn clone(&self) -> (r: Self)
        ensures
            r == *self,
    {
        Kline {
            time_open: self.time_open,
            open: self.open.clone(),
            high: self.high.clone(),
            low: self.low.clone(),
            close: self.close.clone(),
            volume: self.volume.clone(),
            num_trades: self.num_trades,
        }
    }
}

} // verus!
