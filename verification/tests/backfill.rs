use market_ingest::backfill::{plan_backfill, possible_open_times, FetchRange};
use market_ingest::error::BusinessError;
use market_ingest::logger::LogLevel;
use market_ingest::trading_pair::TradingPair;

#[test]
fn cold_start_fetches_whole_remote_span() {
    let plan = plan_backfill(None, None, Some(1_000), Some(5_000)).unwrap();
    assert_eq!(plan, vec![FetchRange { from: 1_000, to: 5_000 }]);
}

#[test]
fn cold_start_with_single_point_fetches_nothing() {
    let plan = plan_backfill(None, None, Some(5_000), Some(5_000)).unwrap();
    assert!(plan.is_empty());
}

#[test]
fn warm_start_fetches_head_and_tail() {
    let plan = plan_backfill(Some(3_000), Some(7_000), Some(1_000), Some(9_000)).unwrap();
    assert_eq!(
        plan,
        vec![
            FetchRange { from: 1_000, to: 3_000 },
            FetchRange { from: 7_000, to: 9_000 },
        ]
    );
}

#[test]
fn warm_start_in_sync_fetches_nothing() {
    let plan = plan_backfill(Some(1_000), Some(9_000), Some(1_000), Some(9_000)).unwrap();
    assert!(plan.is_empty());
}

#[test]
fn warm_start_fetches_only_the_new_tail() {
    let plan = plan_backfill(Some(1_000), Some(7_000), Some(1_000), Some(9_000)).unwrap();
    assert_eq!(plan, vec![FetchRange { from: 7_000, to: 9_000 }]);
}

#[test]
fn unknown_remote_extent_is_fatal() {
    assert_eq!(
        plan_backfill(None, None, None, Some(5_000)),
        Err(BusinessError::ApiConnectorError)
    );
    assert_eq!(
        plan_backfill(Some(1_000), Some(2_000), Some(1_000), None),
        Err(BusinessError::ApiConnectorError)
    );
}

#[test]
fn pot_update_starts_at_first_remote_when_ledger_empty() {
    let times = possible_open_times(None, Some(0), Some(120_000)).unwrap();
    assert_eq!(times, vec![0, 60_000, 120_000]);
}

#[test]
fn pot_update_resumes_from_last_known_timestamp() {
    let times = possible_open_times(Some(60_000), Some(0), Some(180_000)).unwrap();
    assert_eq!(times, vec![60_000, 120_000, 180_000]);
}

#[test]
fn pot_update_takes_the_later_starting_point() {
    let times = possible_open_times(Some(0), Some(120_000), Some(180_000)).unwrap();
    assert_eq!(times, vec![120_000, 180_000]);
}

#[test]
fn pot_update_past_remote_end_is_empty() {
    let times = possible_open_times(Some(240_000), Some(0), Some(180_000)).unwrap();
    assert!(times.is_empty());
}

#[test]
fn pot_update_needs_remote_extents() {
    assert_eq!(
        possible_open_times(None, None, Some(100)),
        Err(BusinessError::ApiConnectorError)
    );
    assert_eq!(
        possible_open_times(None, Some(100), None),
        Err(BusinessError::ApiConnectorError)
    );
}

#[test]
fn trading_pair_symbols() {
    assert_eq!(TradingPair::BTCUSDT.symbol(), "BTCUSDT");
    assert_eq!(TradingPair::ETHUSDT.symbol(), "ETHUSDT");
    assert_eq!(TradingPair::LDOUSDT.symbol(), "LDOUSDT");
    assert_eq!(TradingPair::BTCUSDT.symbol_lower(), "btcusdt");
    assert_eq!(TradingPair::ETHUSDT.symbol_lower(), "ethusdt");
    assert_eq!(TradingPair::LDOUSDT.symbol_lower(), "ldousdt");
}

#[test]
fn log_level_labels() {
    assert_eq!(LogLevel::FINE.label(), "FIN");
    assert_eq!(LogLevel::INFO.label(), "NFO");
    assert_eq!(LogLevel::ERROR.label(), "ERR");
}
