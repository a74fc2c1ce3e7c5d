use mate::candle::{update_series, CandleSeries, FetchPlan, Fetched, MateCandle, SymbolOutcome, STALENESS_WINDOW_MS};

fn bar(datetime: u64, close: f64) -> MateCandle {
    MateCandle {
        close: close.to_bits(),
        datetime,
        high: (close + 1.0).to_bits(),
        low: (close - 1.0).to_bits(),
        open: close.to_bits(),
        volume: 1000,
    }
}

const DAY_MS: u64 = 86_400_000;

#[test]
fn staleness_window_is_eight_hours() {
    assert_eq!(STALENESS_WINDOW_MS, 8 * 60 * 60 * 1000);
}

#[test]
fn empty_series_fetches_full_history() {
    let s = CandleSeries::new();
    assert_eq!(s.plan_fetch(0), FetchPlan::FullHistory);
    assert_eq!(s.plan_fetch(1_606_284_000_000), FetchPlan::FullHistory);
}

#[test]
fn recent_series_is_left_alone() {
    let now = 1_606_284_000_000u64;
    let s = CandleSeries::from_candles(vec![bar(now - DAY_MS, 10.0), bar(now - STALENESS_WINDOW_MS, 11.0)]).unwrap();
    assert_eq!(s.plan_fetch(now), FetchPlan::UpToDate);
    let s = CandleSeries::from_candles(vec![bar(now - 1000, 10.0)]).unwrap();
    assert_eq!(s.plan_fetch(now), FetchPlan::UpToDate);
    assert_eq!(s.len(), 1);
}

#[test]
fn early_clock_does_not_underflow() {
    let s = CandleSeries::from_candles(vec![bar(0, 1.0)]).unwrap();
    assert_eq!(s.plan_fetch(5), FetchPlan::UpToDate);
    assert_eq!(s.plan_fetch(STALENESS_WINDOW_MS), FetchPlan::UpToDate);
    assert_eq!(s.plan_fetch(STALENESS_WINDOW_MS + 1), FetchPlan::LatestBar);
}

#[test]
fn stale_series_gains_exactly_one_bar() {
    let now = 1_606_284_000_000u64;
    let first = bar(now - 3 * DAY_MS, 10.41);
    let second = bar(now - 2 * DAY_MS, 10.86);
    let mut s = CandleSeries::from_candles(vec![first, second]).unwrap();
    assert_eq!(s.plan_fetch(now), FetchPlan::LatestBar);
    let latest = bar(now - 1000, 12.0);
    assert!(s.append_latest(latest));
    assert_eq!(s.candles(), &vec![first, second, latest]);
    assert_eq!(s.plan_fetch(now), FetchPlan::UpToDate);
}

#[test]
fn bar_older_than_series_is_refused() {
    let mut s = CandleSeries::from_candles(vec![bar(2000, 1.0), bar(3000, 2.0)]).unwrap();
    assert!(!s.append_latest(bar(2500, 3.0)));
    assert_eq!(s.len(), 2);
    assert!(s.append_latest(bar(3000, 4.0)));
    assert_eq!(s.len(), 3);
}

#[test]
fn append_to_empty_series() {
    let mut s = CandleSeries::new();
    assert!(s.append_latest(bar(7, 1.5)));
    assert_eq!(s.candles(), &vec![bar(7, 1.5)]);
}

#[test]
fn unordered_candles_are_not_a_series() {
    assert!(CandleSeries::from_candles(vec![bar(2, 1.0), bar(1, 1.0)]).is_none());
    assert!(CandleSeries::from_candles(vec![bar(1, 1.0), bar(1, 2.0), bar(5, 1.0)]).is_some());
    assert!(CandleSeries::from_candles(Vec::new()).is_some());
}

#[test]
fn prices_survive_exactly() {
    let c = bar(1_606_284_000_000, 10.525);
    assert_eq!(f64::from_bits(c.close), 10.525);
    assert_eq!(f64::from_bits(c.high), 11.525);
}

fn written(outcome: SymbolOutcome) -> Option<Vec<MateCandle>> {
    match outcome {
        SymbolOutcome::Write(s) => Some(s.candles().clone()),
        SymbolOutcome::Skip => None,
    }
}

#[test]
fn full_history_replaces_empty_series() {
    let history = vec![bar(1, 1.0), bar(2, 2.0)];
    let out = update_series(CandleSeries::new(), FetchPlan::FullHistory, Fetched::History(history.clone()));
    assert_eq!(written(out), Some(history));
    let out = update_series(CandleSeries::new(), FetchPlan::FullHistory, Fetched::History(Vec::new()));
    assert_eq!(written(out), Some(Vec::new()));
    let out = update_series(CandleSeries::new(), FetchPlan::FullHistory, Fetched::History(vec![bar(2, 1.0), bar(1, 1.0)]));
    assert_eq!(written(out), None);
}

#[test]
fn latest_bar_is_appended_once() {
    let s = CandleSeries::from_candles(vec![bar(10, 1.0)]).unwrap();
    let out = update_series(s, FetchPlan::LatestBar, Fetched::LatestBar(bar(20, 2.0)));
    assert_eq!(written(out), Some(vec![bar(10, 1.0), bar(20, 2.0)]));
    let s = CandleSeries::from_candles(vec![bar(10, 1.0)]).unwrap();
    assert_eq!(written(update_series(s, FetchPlan::LatestBar, Fetched::LatestBar(bar(5, 2.0)))), None);
}

#[test]
fn failed_or_skipped_fetch_keeps_stored_series() {
    let s = CandleSeries::from_candles(vec![bar(10, 1.0)]).unwrap();
    assert_eq!(written(update_series(s, FetchPlan::LatestBar, Fetched::Nothing)), None);
    let s = CandleSeries::from_candles(vec![bar(10, 1.0)]).unwrap();
    assert_eq!(written(update_series(s, FetchPlan::UpToDate, Fetched::Nothing)), None);
    let s = CandleSeries::from_candles(vec![bar(10, 1.0)]).unwrap();
    assert_eq!(written(update_series(s, FetchPlan::UpToDate, Fetched::LatestBar(bar(20, 1.0)))), None);
}
