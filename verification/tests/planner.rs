use market_ingest::api_connector::{BinanceConnector, TimeframeJumpGenerator};
use market_ingest::error::BusinessError;

#[test]
fn timeframe_jumps_cover_range() {
    let jumps = TimeframeJumpGenerator::generate_timeframe_jumps(0, 120_000_000).unwrap();
    assert_eq!(jumps, vec![0, 60_000_000, 120_000_000]);
}

#[test]
fn timeframe_jumps_single_page() {
    let jumps = TimeframeJumpGenerator::generate_timeframe_jumps(60_000, 60_000).unwrap();
    assert_eq!(jumps, vec![60_000]);
}

#[test]
fn timeframe_jumps_partial_last_page() {
    // The last page start stays at or below `to`; the next one would pass it.
    let jumps = TimeframeJumpGenerator::generate_timeframe_jumps(0, 90_000_000).unwrap();
    assert_eq!(jumps, vec![0, 60_000_000]);
    let last = *jumps.last().unwrap();
    assert!(last <= 90_000_000);
    assert!(last + 60_000_000 > 90_000_000);
}

#[test]
fn timeframe_jumps_strictly_increasing() {
    let jumps = TimeframeJumpGenerator::generate_timeframe_jumps(60_000, 300_000_000).unwrap();
    assert_eq!(jumps[0], 60_000);
    for w in jumps.windows(2) {
        assert_eq!(w[1], w[0] + 60_000_000);
    }
}

#[test]
fn unaligned_bounds_rejected() {
    let r = TimeframeJumpGenerator::generate_timeframe_jumps(1, 60_000);
    assert_eq!(r, Err(BusinessError::UnalignedTimeframe));
}

#[test]
fn reversed_bounds_rejected() {
    let r = TimeframeJumpGenerator::generate_timeframe_jumps(120_000, 60_000);
    assert_eq!(r, Err(BusinessError::IncorrectArgumentOrder));
}

#[test]
fn plan_fetch_validates_like_planner() {
    assert_eq!(
        BinanceConnector::plan_fetch(1, 60_000),
        Err(BusinessError::UnalignedTimeframe)
    );
    assert_eq!(
        BinanceConnector::plan_fetch(120_000, 60_000),
        Err(BusinessError::IncorrectArgumentOrder)
    );
    let pages = BinanceConnector::plan_fetch(0, 60_000_000).unwrap();
    assert_eq!(pages, vec![0, 60_000_000]);
}
