//! Market-data ingestion core: range planning, cooldown pacing, candle
//! normalization, idempotent persistence modeling, gap analysis, and
//! backfill orchestration for fixed-interval price candles.

pub mod analyzer;
pub mod api_connector;
pub mod backfill;
mod clock;
pub mod cooldown_handler;
pub mod error;
pub mod kline;
pub mod logger;
pub mod store;
pub mod timeframes;
pub mod trading_pair;
