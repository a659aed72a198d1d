use market_ingest::analyzer::PostgresAbsenceAnalyser;
use market_ingest::kline::Kline;
use market_ingest::store::{CandleTable, PostgresExecutor, TimestampTable};

fn candle(time_open: u64) -> Kline {
    Kline::new(
        time_open,
        String::from("1.0"),
        String::from("2.0"),
        String::from("0.5"),
        String::from("1.5"),
        String::from("10.0"),
        7,
    )
}

#[test]
fn insert_twice_keeps_one_row_per_time() {
    let mut table = CandleTable::new();
    let batch = vec![candle(0), candle(60_000), candle(120_000)];
    PostgresExecutor::insert_klines(&mut table, &batch);
    PostgresExecutor::insert_klines(&mut table, &batch);
    assert_eq!(table.len(), 3);
    assert_eq!(table.row(0).time_open, 0);
    assert_eq!(table.row(1).time_open, 60_000);
    assert_eq!(table.row(2).time_open, 120_000);
}

#[test]
fn insert_drops_duplicate_within_batch() {
    let mut table = CandleTable::new();
    let batch = vec![candle(60_000), candle(60_000)];
    PostgresExecutor::insert_klines(&mut table, &batch);
    assert_eq!(table.len(), 1);
    assert_eq!(table.row(0).time_open, 60_000);
}

#[test]
fn insert_overlapping_ranges_is_safe() {
    let mut table = CandleTable::new();
    PostgresExecutor::insert_klines(&mut table, &vec![candle(0), candle(60_000)]);
    PostgresExecutor::insert_klines(&mut table, &vec![candle(60_000), candle(120_000)]);
    assert_eq!(table.len(), 3);
    assert!(table.contains_time(0));
    assert!(table.contains_time(60_000));
    assert!(table.contains_time(120_000));
}

#[test]
fn gap_analysis_reports_missing_times() {
    let mut expected = TimestampTable::new();
    PostgresExecutor::insert_possible_open_times(&mut expected, &vec![0, 60_000, 120_000]);
    let mut candles = CandleTable::new();
    PostgresExecutor::insert_klines(&mut candles, &vec![candle(0), candle(120_000)]);
    let missing = PostgresAbsenceAnalyser::analyze(&expected, &candles);
    assert_eq!(missing, vec![60_000]);
}

#[test]
fn gap_analysis_of_full_table_is_empty() {
    let mut expected = TimestampTable::new();
    PostgresExecutor::insert_possible_open_times(&mut expected, &vec![0, 60_000]);
    let mut candles = CandleTable::new();
    PostgresExecutor::insert_klines(&mut candles, &vec![candle(0), candle(60_000)]);
    let missing = PostgresAbsenceAnalyser::analyze(&expected, &candles);
    assert!(missing.is_empty());
}

#[test]
fn pot_insert_twice_keeps_one_row_per_time() {
    let mut expected = TimestampTable::new();
    let batch = vec![0, 60_000, 120_000];
    PostgresExecutor::insert_possible_open_times(&mut expected, &batch);
    PostgresExecutor::insert_possible_open_times(&mut expected, &batch);
    assert_eq!(expected.len(), 3);
    assert_eq!(expected.stamp(0), 0);
    assert_eq!(expected.stamp(1), 60_000);
    assert_eq!(expected.stamp(2), 120_000);
}

#[test]
fn extents_of_empty_tables_are_unknown() {
    let candles = CandleTable::new();
    assert_eq!(PostgresAbsenceAnalyser::get_first_timeframe(&candles), None);
    assert_eq!(PostgresAbsenceAnalyser::get_last_timeframe(&candles), None);
    let expected = TimestampTable::new();
    assert_eq!(PostgresAbsenceAnalyser::get_last_timeframe_pot(&expected), None);
}

#[test]
fn extents_are_min_and_max() {
    let mut candles = CandleTable::new();
    PostgresExecutor::insert_klines(
        &mut candles,
        &vec![candle(120_000), candle(0), candle(60_000)],
    );
    assert_eq!(PostgresAbsenceAnalyser::get_first_timeframe(&candles), Some(0));
    assert_eq!(PostgresAbsenceAnalyser::get_last_timeframe(&candles), Some(120_000));
    let mut expected = TimestampTable::new();
    PostgresExecutor::insert_possible_open_times(&mut expected, &vec![60_000, 180_000, 0]);
    assert_eq!(
        PostgresAbsenceAnalyser::get_last_timeframe_pot(&expected),
        Some(180_000)
    );
}

#[test]
fn last_complete_timestamps_sit_on_boundaries() {
    assert_eq!(PostgresAbsenceAnalyser::last_complete_1m_timestamp() % 60_000, 0);
    assert_eq!(PostgresAbsenceAnalyser::last_complete_3m_timestamp() % 180_000, 0);
    assert_eq!(PostgresAbsenceAnalyser::last_complete_5m_timestamp() % 300_000, 0);
    assert_eq!(PostgresAbsenceAnalyser::last_complete_15m_timestamp() % 900_000, 0);
}

#[test]
fn last_complete_timestamp_lags_the_clock() {
    let last = PostgresAbsenceAnalyser::last_complete_1m_timestamp();
    let after = PostgresAbsenceAnalyser::curr_time_millis();
    // One full minute before the boundary the clock sits in.
    assert!(last + 60_000 <= after);
}
