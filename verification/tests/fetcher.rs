use market_ingest::api_connector::BinanceConnector;
use market_ingest::cooldown_handler::CooldownHandler;
use market_ingest::kline::{Kline, KlinePreProcess};

fn candle(time_open: u64) -> Kline {
    Kline::new(
        time_open,
        String::from("1.0"),
        String::from("2.0"),
        String::from("0.5"),
        String::from("1.5"),
        String::from("10.0"),
        3,
    )
}

#[test]
fn first_time_needs_exactly_one_candle() {
    assert_eq!(BinanceConnector::first_time_from_page(&vec![]), None);
    assert_eq!(
        BinanceConnector::first_time_from_page(&vec![candle(60_000)]),
        Some(60_000)
    );
    assert_eq!(
        BinanceConnector::first_time_from_page(&vec![candle(0), candle(60_000)]),
        None
    );
}

#[test]
fn last_complete_is_smaller_of_two() {
    assert_eq!(
        BinanceConnector::last_complete_from_page(&vec![candle(60_000), candle(120_000)]),
        Some(60_000)
    );
    assert_eq!(
        BinanceConnector::last_complete_from_page(&vec![candle(120_000), candle(60_000)]),
        Some(60_000)
    );
    assert_eq!(BinanceConnector::last_complete_from_page(&vec![candle(0)]), None);
    assert_eq!(BinanceConnector::last_complete_from_page(&vec![]), None);
}

#[test]
fn merge_discards_out_of_range_candles() {
    let page = vec![candle(0), candle(60_000), candle(120_000), candle(180_000)];
    let mut acc: Vec<Kline> = Vec::new();
    BinanceConnector::merge_page(&mut acc, &page, 60_000, 120_000);
    let times: Vec<u64> = acc.iter().map(|k| k.time_open).collect();
    assert_eq!(times, vec![60_000, 120_000]);
}

#[test]
fn merge_appends_after_existing_results() {
    let mut acc = vec![candle(60_000)];
    BinanceConnector::merge_page(&mut acc, &vec![candle(120_000)], 0, 180_000);
    let times: Vec<u64> = acc.iter().map(|k| k.time_open).collect();
    assert_eq!(times, vec![60_000, 120_000]);
}

#[test]
fn rate_limit_sets_next_boundary_cooldown() {
    let mut c = CooldownHandler::new();
    let now = 90_001;
    BinanceConnector::handle_failure_status(&mut c, 429, None, now);
    assert_eq!(c.get_until(), Some(120_000));
}

#[test]
fn rate_limit_never_lowers_existing_cooldown() {
    let mut c = CooldownHandler::new();
    c.set_cooldown_to(10_000_000);
    BinanceConnector::handle_failure_status(&mut c, 429, None, 90_001);
    assert_eq!(c.get_until(), Some(10_000_000));
}

#[test]
fn block_uses_retry_after_hint() {
    let mut c = CooldownHandler::new();
    BinanceConnector::handle_failure_status(&mut c, 418, Some(777_000), 90_001);
    assert_eq!(c.get_until(), Some(777_000));
}

#[test]
fn block_without_hint_changes_nothing() {
    let mut c = CooldownHandler::new();
    BinanceConnector::handle_failure_status(&mut c, 418, None, 90_001);
    assert_eq!(c.get_until(), None);
}

#[test]
fn other_statuses_change_nothing() {
    let mut c = CooldownHandler::new();
    c.set_cooldown_to(5_000);
    BinanceConnector::handle_failure_status(&mut c, 500, None, 90_001);
    assert_eq!(c.get_until(), Some(5_000));
}

#[test]
fn process_keeps_the_wire_fields() {
    let wire = KlinePreProcess {
        time_open: 60_000,
        open: String::from("1.23"),
        high: String::from("4.56"),
        low: String::from("0.78"),
        close: String::from("2.34"),
        volume: String::from("999.9"),
        time_close: 119_999,
        quote_asset_volume: String::from("5.0"),
        num_trades: 42,
        taker_buy_base_asset_volume: String::from("6.0"),
        taker_buy_base_quote_volume: String::from("7.0"),
        unused: String::from("0"),
    };
    let k = wire.process();
    assert_eq!(k.time_open, 60_000);
    assert_eq!(k.open, "1.23");
    assert_eq!(k.high, "4.56");
    assert_eq!(k.low, "0.78");
    assert_eq!(k.close, "2.34");
    assert_eq!(k.volume, "999.9");
    assert_eq!(k.num_trades, 42);
}

#[test]
fn clone_keeps_every_field() {
    let k = candle(60_000);
    let c = k.clone();
    assert_eq!(c.time_open, k.time_open);
    assert_eq!(c.open, k.open);
    assert_eq!(c.high, k.high);
    assert_eq!(c.low, k.low);
    assert_eq!(c.close, k.close);
    assert_eq!(c.volume, k.volume);
    assert_eq!(c.num_trades, k.num_trades);
}
