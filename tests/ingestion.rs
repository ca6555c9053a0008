use pricing_daemon::config::{MongoPriceDBConfig, StoreTarget, DEFAULT_PORT};
use pricing_daemon::cycle::{cycle_step, run_cycle, CycleAction, CycleEvent, CycleState, MemoryPriceSource};
use pricing_daemon::decimal::{parse_decimal, Decimal};
use pricing_daemon::error::{ConfigError, CycleError, SourceError, StoreError};
use pricing_daemon::manager::{MemoryPriceManager, PriceManager};
use pricing_daemon::ohlc::{decode_candle, decode_candles, Cell, PairData, Row};
use pricing_daemon::scheduler::{after_cycle, RunMode, SchedulerAction};
use pricing_daemon::store::{retain_fresh, MemoryPriceStore};
use pricing_daemon::time::{epoch_if_valid, next_cursor, now_epoch, retention_cutoff, MAX_EPOCH};
use pricing_daemon::types::Price;

const JAN_1_2024: i64 = 1704067200;
const THIRTY_DAYS: i64 = 30 * 24 * 60 * 60;

fn text(s: &str) -> Cell {
    Cell::Text(s.as_bytes().to_vec())
}

fn candle_row(epoch: i64, open: &str) -> Row {
    Row::Tuple(vec![
        Cell::Integer(epoch as i128),
        text(open),
        text("26561.0"),
        text("26559.5"),
        text("26560.0"),
        text("-"),
        text("1.25"),
        Cell::Integer(7),
    ])
}

fn dec(units: u64, scale: usize) -> Decimal {
    Decimal { units, scale }
}

fn price_at(ts: i64) -> Price {
    Price {
        open: dec(265605, 1),
        high: dec(265610, 1),
        low: dec(265595, 1),
        close: dec(265600, 1),
        vwap: dec(125, 2),
        volume: dec(125, 2),
        count: 7,
        timestamp: ts,
    }
}

fn source_of(rows: Vec<Row>) -> MemoryPriceSource {
    MemoryPriceSource { data: PairData::Rows(rows) }
}

#[test]
fn decimal_with_fraction() {
    assert_eq!(parse_decimal(b"26560.5"), Some(dec(265605, 1)));
    assert_eq!(parse_decimal(b"0.00000000"), Some(dec(0, 8)));
    assert_eq!(parse_decimal(b"42"), Some(dec(42, 0)));
    assert_eq!(parse_decimal(b"007.50"), Some(dec(750, 2)));
}

#[test]
fn decimal_rejects_malformed_text() {
    assert_eq!(parse_decimal(b""), None);
    assert_eq!(parse_decimal(b"abc"), None);
    assert_eq!(parse_decimal(b"1..2"), None);
    assert_eq!(parse_decimal(b"1.2.3"), None);
    assert_eq!(parse_decimal(b".5"), None);
    assert_eq!(parse_decimal(b"5."), None);
    assert_eq!(parse_decimal(b"-1.0"), None);
    assert_eq!(parse_decimal(b"-"), None);
}

#[test]
fn decimal_width_limit() {
    assert_eq!(parse_decimal(b"18446744073709551615"), Some(dec(u64::MAX, 0)));
    assert_eq!(parse_decimal(b"1844674407370955161.5"), Some(dec(u64::MAX, 1)));
    assert_eq!(parse_decimal(b"18446744073709551616"), None);
}

#[test]
fn candle_decodes_positionally() {
    let p = decode_candle(&candle_row(JAN_1_2024, "26560.5")).unwrap();
    assert_eq!(p, price_at(JAN_1_2024));
}

#[test]
fn candle_with_bad_fields_is_rejected() {
    assert_eq!(decode_candle(&candle_row(JAN_1_2024, "abc")), None);
    assert_eq!(decode_candle(&candle_row(-1, "1.0")), None);
    assert_eq!(decode_candle(&candle_row(MAX_EPOCH + 1, "1.0")), None);
    assert_eq!(decode_candle(&Row::Other), None);
    let short = Row::Tuple(vec![Cell::Integer(JAN_1_2024 as i128), text("1.0")]);
    assert_eq!(decode_candle(&short), None);
    let big_count = Row::Tuple(vec![
        Cell::Integer(JAN_1_2024 as i128),
        text("1"),
        text("1"),
        text("1"),
        text("1"),
        text("-"),
        text("1"),
        Cell::Integer(u32::MAX as i128 + 1),
    ]);
    assert_eq!(decode_candle(&big_count), None);
    let epoch_as_text = Row::Tuple(vec![
        text("1704067200"),
        text("1"),
        text("1"),
        text("1"),
        text("1"),
        text("-"),
        text("1"),
        Cell::Integer(1),
    ]);
    assert_eq!(decode_candle(&epoch_as_text), None);
    let open_not_text = Row::Tuple(vec![
        Cell::Integer(JAN_1_2024 as i128),
        Cell::Other,
        text("1"),
        text("1"),
        text("1"),
        text("-"),
        text("1"),
        Cell::Integer(1),
    ]);
    assert_eq!(decode_candle(&open_not_text), None);
}

#[test]
fn fetch_drops_candles_before_since() {
    let data = PairData::Rows(vec![
        candle_row(JAN_1_2024, "1.0"),
        candle_row(JAN_1_2024 + 60, "2.0"),
        candle_row(JAN_1_2024 + 120, "3.0"),
    ]);
    let v = decode_candles(&data, JAN_1_2024 + 60).unwrap();
    assert_eq!(v.len(), 2);
    assert!(v.iter().all(|p| p.timestamp >= JAN_1_2024 + 60));
    assert_eq!(v[0].open, dec(20, 1));
    assert_eq!(v[1].timestamp, JAN_1_2024 + 120);
}

#[test]
fn fetch_errors() {
    assert_eq!(decode_candles(&PairData::Missing, 0), Err(SourceError::MissingPair));
    assert_eq!(decode_candles(&PairData::NotArray, 0), Err(SourceError::PayloadNotArray));
    let data = PairData::Rows(vec![
        candle_row(JAN_1_2024, "1.0"),
        candle_row(JAN_1_2024 + 60, "x"),
        candle_row(JAN_1_2024 + 120, "y"),
    ]);
    assert_eq!(decode_candles(&data, 0), Err(SourceError::MalformedCandle { index: 1 }));
}

#[test]
fn malformed_candle_before_since_still_fails() {
    let data = PairData::Rows(vec![candle_row(JAN_1_2024, "bad"), candle_row(JAN_1_2024 + 60, "1.0")]);
    assert_eq!(decode_candles(&data, JAN_1_2024 + 60), Err(SourceError::MalformedCandle { index: 0 }));
}

#[test]
fn cursor_arithmetic() {
    assert_eq!(next_cursor(Some(JAN_1_2024), JAN_1_2024 + 500), JAN_1_2024 + 60);
    assert_eq!(next_cursor(None, JAN_1_2024), JAN_1_2024 - THIRTY_DAYS);
    assert_eq!(retention_cutoff(JAN_1_2024), JAN_1_2024 - 2592000);
}

#[test]
fn empty_store_cursor_is_thirty_days_back() {
    let store = MemoryPriceStore::new();
    let now = JAN_1_2024 + 12345;
    assert_eq!(store.get_cursor(now), now - THIRTY_DAYS);
    assert_eq!(store.latest_timestamp(), None);
}

#[test]
fn clock_reads_a_valid_instant() {
    let now = now_epoch().unwrap();
    assert!(now >= JAN_1_2024);
    let store = MemoryPriceStore::new();
    let cursor = store.get_cursor(now);
    assert_eq!(cursor, now - THIRTY_DAYS);
}

#[test]
fn cursor_follows_latest_record() {
    let mut store = MemoryPriceStore::new();
    let t = JAN_1_2024;
    assert_eq!(store.insert_many(vec![price_at(t - 120), price_at(t)], t + 60), Ok(()));
    assert_eq!(store.get_cursor(t + 3600), t + 60);
}

#[test]
fn inserted_record_reads_back() {
    let mut store = MemoryPriceStore::new();
    let p = Price {
        open: dec(265605, 1),
        high: dec(2656123, 2),
        low: dec(1, 0),
        close: dec(0, 8),
        vwap: dec(999, 3),
        volume: dec(12345678, 4),
        count: 4242,
        timestamp: JAN_1_2024,
    };
    assert_eq!(store.insert_many(vec![p], JAN_1_2024), Ok(()));
    assert_eq!(store.find(JAN_1_2024), Some(p));
    assert_eq!(store.find(JAN_1_2024 + 60), None);
    assert_eq!(store.records().len(), 1);
}

#[test]
fn insert_purges_old_records() {
    let mut store = MemoryPriceStore::new();
    let old_now = JAN_1_2024;
    assert_eq!(
        store.insert_many(vec![price_at(old_now - 60), price_at(old_now)], old_now),
        Ok(())
    );
    let now = old_now + THIRTY_DAYS + 30;
    assert_eq!(store.insert_many(vec![price_at(now)], now), Ok(()));
    let cutoff = now - THIRTY_DAYS;
    assert!(store.records().iter().all(|p| p.timestamp >= cutoff));
    assert_eq!(store.records().len(), 1);
    assert_eq!(store.find(old_now), None);
}

#[test]
fn record_exactly_at_cutoff_is_kept() {
    let mut store = MemoryPriceStore::new();
    let now = JAN_1_2024 + THIRTY_DAYS;
    assert_eq!(store.insert_many(vec![price_at(JAN_1_2024)], JAN_1_2024), Ok(()));
    assert_eq!(store.insert_many(vec![price_at(now)], now), Ok(()));
    assert_eq!(store.records().len(), 2);
}

#[test]
fn empty_insert_is_a_no_op() {
    let mut store = MemoryPriceStore::new();
    assert_eq!(store.insert_many(vec![price_at(JAN_1_2024)], JAN_1_2024), Ok(()));
    let much_later = JAN_1_2024 + 3 * THIRTY_DAYS;
    assert_eq!(store.insert_many(vec![], much_later), Ok(()));
    assert_eq!(store.records().len(), 1);
}

#[test]
fn insert_refuses_duplicate_or_unordered_keys() {
    let mut store = MemoryPriceStore::new();
    assert_eq!(store.insert_many(vec![price_at(JAN_1_2024)], JAN_1_2024), Ok(()));
    assert_eq!(store.insert_many(vec![price_at(JAN_1_2024)], JAN_1_2024), Err(StoreError::Write));
    assert_eq!(
        store.insert_many(vec![price_at(JAN_1_2024 + 120), price_at(JAN_1_2024 + 60)], JAN_1_2024),
        Err(StoreError::Write)
    );
    assert_eq!(store.records().len(), 1);
}

#[test]
fn empty_fetch_finishes_without_insert() {
    let (state, action) = cycle_step(CycleState::AwaitFetch, CycleEvent::Fetched(Ok(vec![])));
    assert_eq!(state, CycleState::Finished);
    assert!(matches!(action, CycleAction::Finish(Ok(()))));
    let (state, action) = cycle_step(CycleState::AwaitFetch, CycleEvent::Fetched(Ok(vec![price_at(JAN_1_2024)])));
    assert_eq!(state, CycleState::AwaitInsert);
    assert!(matches!(action, CycleAction::Insert(ref v) if v.len() == 1));
}

#[test]
fn cycle_steps_in_order() {
    let (s, a) = cycle_step(CycleState::Idle, CycleEvent::Start);
    assert_eq!(s, CycleState::AwaitCursor);
    assert!(matches!(a, CycleAction::ReadCursor));
    let (s, a) = cycle_step(s, CycleEvent::CursorRead(Ok(JAN_1_2024)));
    assert_eq!(s, CycleState::AwaitFetch);
    assert!(matches!(a, CycleAction::Fetch(JAN_1_2024)));
    let (s, a) = cycle_step(CycleState::AwaitInsert, CycleEvent::Inserted(Ok(())));
    assert_eq!(s, CycleState::Finished);
    assert!(matches!(a, CycleAction::Finish(Ok(()))));
}

#[test]
fn cycle_failures_name_their_step() {
    let (s, a) = cycle_step(CycleState::AwaitCursor, CycleEvent::CursorRead(Err(StoreError::Read)));
    assert_eq!(s, CycleState::Finished);
    assert!(matches!(a, CycleAction::Finish(Err(CycleError::Store(StoreError::Read)))));
    let (_, a) = cycle_step(CycleState::AwaitFetch, CycleEvent::Fetched(Err(SourceError::Transport)));
    assert!(matches!(a, CycleAction::Finish(Err(CycleError::Source(SourceError::Transport)))));
    let (_, a) = cycle_step(CycleState::AwaitInsert, CycleEvent::Inserted(Err(StoreError::Write)));
    assert!(matches!(a, CycleAction::Finish(Err(CycleError::Store(StoreError::Write)))));
}

#[test]
fn malformed_payload_fails_cycle_and_keeps_store() {
    let mut store = MemoryPriceStore::new();
    assert_eq!(store.insert_many(vec![price_at(JAN_1_2024)], JAN_1_2024), Ok(()));
    let source = source_of(vec![candle_row(JAN_1_2024 + 60, "not-a-number")]);
    let r = run_cycle(&mut store, &source, JAN_1_2024 + THIRTY_DAYS + 600);
    assert_eq!(r, Err(CycleError::Source(SourceError::MalformedCandle { index: 0 })));
    assert_eq!(store.records().len(), 1);
    assert_eq!(store.find(JAN_1_2024), Some(price_at(JAN_1_2024)));
}

#[test]
fn cycle_resumes_after_latest_record() {
    let mut store = MemoryPriceStore::new();
    assert_eq!(store.insert_many(vec![price_at(JAN_1_2024)], JAN_1_2024), Ok(()));
    let now = JAN_1_2024 + 240;
    assert_eq!(store.get_cursor(now), JAN_1_2024 + 60);
    let source = source_of(vec![
        candle_row(JAN_1_2024, "26560.5"),
        candle_row(JAN_1_2024 + 60, "26560.5"),
        candle_row(JAN_1_2024 + 120, "26560.5"),
        candle_row(JAN_1_2024 + 180, "26560.5"),
    ]);
    assert_eq!(source.fetch(JAN_1_2024 + 60).unwrap().len(), 3);
    assert_eq!(run_cycle(&mut store, &source, now), Ok(()));
    assert_eq!(store.records().len(), 4);
    assert_eq!(store.find(JAN_1_2024 + 120), Some(price_at(JAN_1_2024 + 120)));
    assert_eq!(store.get_cursor(now), JAN_1_2024 + 240);
}

#[test]
fn empty_store_empty_upstream_cycle_writes_nothing() {
    let mut store = MemoryPriceStore::new();
    let source = source_of(vec![]);
    let now = JAN_1_2024;
    assert_eq!(run_cycle(&mut store, &source, now), Ok(()));
    assert_eq!(store.records().len(), 0);
    assert_eq!(store.get_cursor(now), now - THIRTY_DAYS);
}

#[test]
fn missing_pair_fails_cycle() {
    let mut store = MemoryPriceStore::new();
    let source = MemoryPriceSource { data: PairData::Missing };
    assert_eq!(
        run_cycle(&mut store, &source, JAN_1_2024),
        Err(CycleError::Source(SourceError::MissingPair))
    );
}

#[test]
fn manager_runs_one_cycle_per_call() {
    let mut manager = MemoryPriceManager {
        store: MemoryPriceStore::new(),
        source: source_of(vec![candle_row(JAN_1_2024 - 60, "1.0"), candle_row(JAN_1_2024, "2.0")]),
    };
    let now = JAN_1_2024 + 60;
    assert_eq!(manager.update_price_data(now), Ok(()));
    assert_eq!(manager.store.records().len(), 2);
    assert_eq!(manager.update_price_data(now), Ok(()));
    assert_eq!(manager.store.records().len(), 2);
    assert_eq!(manager.store.get_cursor(now), JAN_1_2024 + 60);
}

#[test]
fn scheduler_modes() {
    let failed = Err(CycleError::Store(StoreError::Connection));
    assert!(matches!(after_cycle(RunMode::Continuous, failed), SchedulerAction::Sleep { secs: 60 }));
    assert!(matches!(after_cycle(RunMode::Continuous, Ok(())), SchedulerAction::Sleep { secs: 60 }));
    assert!(matches!(
        after_cycle(RunMode::SingleShot, failed),
        SchedulerAction::Exit(Err(CycleError::Store(StoreError::Connection)))
    ));
    assert!(matches!(after_cycle(RunMode::SingleShot, Ok(())), SchedulerAction::Exit(Ok(()))));
}

#[test]
fn config_new_sets_every_field() {
    let c = MongoPriceDBConfig::new("user", "pw", "cluster.example.net", "prices");
    assert_eq!(c.username.as_deref(), Some("user"));
    assert_eq!(c.password.as_deref(), Some("pw"));
    assert_eq!(c.host.as_deref(), Some("cluster.example.net"));
    assert_eq!(c.db_name.as_deref(), Some("prices"));
    match c.target() {
        Ok(StoreTarget::Remote { username, password, host, db_name }) => {
            assert_eq!(username, "user");
            assert_eq!(password, "pw");
            assert_eq!(host, "cluster.example.net");
            assert_eq!(db_name, "prices");
        }
        other => panic!("unexpected target {:?}", other),
    }
}

#[test]
fn config_without_credentials_uses_defaults() {
    let c = MongoPriceDBConfig { username: None, password: None, host: None, db_name: Some("prices".to_string()) };
    match c.target() {
        Ok(StoreTarget::Local { host, port, db_name }) => {
            assert_eq!(host, "localhost");
            assert_eq!(port, 27017);
            assert_eq!(port, DEFAULT_PORT);
            assert_eq!(db_name, "prices");
        }
        other => panic!("unexpected target {:?}", other),
    }
    let c = MongoPriceDBConfig { username: None, password: None, host: Some("db.local".to_string()), db_name: Some("p".to_string()) };
    assert!(matches!(c.target(), Ok(StoreTarget::Local { ref host, port: 27017, .. }) if host == "db.local"));
}

#[test]
fn config_errors() {
    let mut c = MongoPriceDBConfig::new("user", "pw", "host", "db");
    c.db_name = None;
    assert!(matches!(c.target(), Err(ConfigError::MissingDbName)));
    c.db_name = Some("db".to_string());
    c.host = None;
    assert!(matches!(c.target(), Err(ConfigError::MissingHost)));
    c.password = None;
    assert!(matches!(c.target(), Err(ConfigError::MissingPassword)));
    c.password = Some("pw".to_string());
    c.username = None;
    assert!(matches!(c.target(), Err(ConfigError::MissingUsername)));
}

#[test]
fn stale_batch_records_are_purged_too() {
    let mut store = MemoryPriceStore::new();
    let now = 5184000;
    assert_eq!(store.insert_many(vec![price_at(0)], now), Ok(()));
    assert_eq!(store.records().len(), 0);
    let cutoff = now - THIRTY_DAYS;
    assert_eq!(
        store.insert_many(vec![price_at(cutoff - 60), price_at(cutoff), price_at(cutoff + 60)], now),
        Ok(())
    );
    assert_eq!(store.records().len(), 2);
    assert!(store.records().iter().all(|p| p.timestamp >= cutoff));
    assert_eq!(store.find(cutoff - 60), None);
    assert_eq!(store.find(cutoff), Some(price_at(cutoff)));
}

#[test]
fn idle_store_cycle_keeps_only_window() {
    let mut store = MemoryPriceStore::new();
    assert_eq!(store.insert_many(vec![price_at(JAN_1_2024)], JAN_1_2024), Ok(()));
    let now = JAN_1_2024 + THIRTY_DAYS + 120;
    let source = source_of(vec![
        candle_row(JAN_1_2024 + 60, "1.0"),
        candle_row(JAN_1_2024 + 120, "1.0"),
        candle_row(JAN_1_2024 + 180, "1.0"),
    ]);
    assert_eq!(run_cycle(&mut store, &source, now), Ok(()));
    assert_eq!(store.records().len(), 2);
    assert!(store.records().iter().all(|p| p.timestamp >= now - THIRTY_DAYS));
}

#[test]
fn retain_fresh_filters_in_order() {
    let v = retain_fresh(&vec![price_at(10), price_at(5), price_at(20)], 10);
    assert_eq!(v, vec![price_at(10), price_at(20)]);
    assert!(retain_fresh(&vec![], 0).is_empty());
}

#[test]
fn epoch_range_check() {
    assert_eq!(epoch_if_valid(0), Some(0));
    assert_eq!(epoch_if_valid(JAN_1_2024), Some(JAN_1_2024));
    assert_eq!(epoch_if_valid(MAX_EPOCH), Some(MAX_EPOCH));
    assert_eq!(epoch_if_valid(MAX_EPOCH + 1), None);
    assert_eq!(epoch_if_valid(-1), None);
}
