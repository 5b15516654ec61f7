use tiny_feeder::algorithm::PRICE_UNIT;
use tiny_feeder::alarm::{new_price_alarm, AlarmIds, AlarmType};
use tiny_feeder::quotes::AdapterOutcome;
use tiny_feeder::storage::Storage;
use tiny_feeder::tick::{
    after_tick, build_store, Envelope, TickAction, resolve, run_tick, scale_price, tick_from_outcomes, to_usd, validate,
    ConfigError, FeedConfig, TickError, EXCHANGE_SIZE,
};

const U: u64 = PRICE_UNIT;

fn config(algo: &str) -> FeedConfig {
    FeedConfig {
        coins: vec!["BTC".to_string(), "ETH".to_string(), "USDT".to_string()],
        decimals: vec![8, 8, 6],
        imitations: vec![],
        algorithms: vec![algo.to_string()],
        active: 0,
        usdt_active: 0,
        diffs: vec![],
        ratio: 66 * U / 100,
    }
}

fn row(p: Vec<u64>) -> AdapterOutcome {
    let n = p.len();
    AdapterOutcome::Row { prices: p, volumes: vec![1; n] }
}

#[test]
fn three_exchanges_publish_scaled_prices() {
    let cfg = config("average");
    let outcomes = vec![
        row(vec![30000 * U, 2000 * U, U]),
        row(vec![30010 * U, 2001 * U, 1_000_500_000]),
        row(vec![29990 * U, 1999 * U, 999_500_000]),
    ];
    let env = tick_from_outcomes(&cfg, &outcomes, 1_700_000_000_000).unwrap();
    assert_eq!(env.indices, vec![0, 1, 2]);
    assert_eq!(env.prices, vec![3_000_000_000_000, 200_000_000_000, 1_000_000]);
    assert_eq!(env.produced_at, 1_700_000_000_000);
    assert_eq!(env.indices.len(), env.prices.len());
}

#[test]
fn failed_exchange_keeps_its_row_empty() {
    let cfg = config("average");
    let outcomes = vec![
        AdapterOutcome::Failed,
        row(vec![30010 * U, 2001 * U, U]),
        row(vec![29990 * U, 1999 * U, U]),
    ];
    let store = build_store(&outcomes, 3);
    assert_eq!(store.tickers.len(), EXCHANGE_SIZE);
    assert_eq!(store.tickers[0].prices, vec![0, 0, 0]);
    assert_eq!(store.tickers[1].prices, vec![30010 * U, 2001 * U, U]);
    let env = tick_from_outcomes(&cfg, &outcomes, 5).unwrap();
    assert_eq!(env.indices, vec![0, 1, 2]);
    assert_eq!(env.prices, vec![3_000_000_000_000, 200_000_000_000, 1_000_000]);
}

#[test]
fn missing_usdt_aborts_tick() {
    let cfg = config("average");
    let outcomes = vec![row(vec![30000 * U, 2000 * U, 0]), row(vec![30010 * U, 2001 * U, 0])];
    assert_eq!(tick_from_outcomes(&cfg, &outcomes, 5).err(), Some(TickError::UsdtUnresolved));
    let mut ids = AlarmIds::new();
    let alarm = new_price_alarm(&mut ids, "Failed to obtain currency price!");
    assert_eq!(alarm.alarm_type, AlarmType::Price);
    assert_eq!(alarm.subject, "Price Alarm");
    assert_eq!(alarm.message_id, 1);
}

#[test]
fn usdt_must_be_configured() {
    let mut cfg = config("average");
    cfg.coins[2] = "USDC".to_string();
    let store = Storage::new(EXCHANGE_SIZE, 3);
    assert_eq!(run_tick(&cfg, &store, 1).err(), Some(TickError::UsdtMissing));
    assert_eq!(validate(&cfg), Err(ConfigError::UsdtNotOnce));
}

#[test]
fn failed_asset_is_left_out() {
    let cfg = config("average");
    let outcomes = vec![row(vec![30000 * U, 0, U])];
    let env = tick_from_outcomes(&cfg, &outcomes, 9).unwrap();
    assert_eq!(env.indices, vec![0, 2]);
    assert_eq!(env.prices, vec![3_000_000_000_000, 1_000_000]);
}

#[test]
fn single_usd_quote_fills_one_cell() {
    let outcomes = vec![AdapterOutcome::Single { asset: 2, price: U }];
    let store = build_store(&outcomes, 3);
    assert_eq!(store.tickers[0].prices, vec![0, 0, U]);
    assert_eq!(store.tickers[0].volumes, vec![0, 0, 0]);
}

#[test]
fn imitation_bypasses_aggregation() {
    let mut cfg = config("average");
    cfg.imitations = vec![("USDT".to_string(), 998_000_000)];
    let r = resolve(&cfg, &"USDT".to_string(), vec![0, 0, 0, 0], vec![], 0);
    assert_eq!(r, Some(998_000_000));
    let r = resolve(&cfg, &"USDT".to_string(), vec![5 * U, 7 * U], vec![], 0);
    assert_eq!(r, Some(998_000_000));
    let r = resolve(&cfg, &"BTC".to_string(), vec![5 * U, 7 * U], vec![], 0);
    assert_eq!(r, Some(6 * U));
}

#[test]
fn resolve_picks_algorithm_modulo_count() {
    let mut cfg = config("average");
    cfg.algorithms = vec!["max".to_string(), "average".to_string()];
    let col = vec![1 * U, 3 * U];
    assert_eq!(resolve(&cfg, &"BTC".to_string(), col.clone(), vec![], 2), Some(3 * U));
    assert_eq!(resolve(&cfg, &"BTC".to_string(), col, vec![], 3), Some(2 * U));
}

#[test]
fn resolve_uses_per_symbol_diff() {
    let mut cfg = config("backwad");
    cfg.diffs = vec![("BTC".to_string(), U / 100)];
    let col = vec![30000 * U, 30400 * U, 30400 * U, 0, 40000 * U];
    assert_eq!(resolve(&cfg, &"BTC".to_string(), col.clone(), vec![], 0), Some(30000 * U));
    assert_eq!(resolve(&cfg, &"ETH".to_string(), col, vec![], 0), None);
}

#[test]
fn scaling_is_floor_of_price_times_ten_to_decimals() {
    assert_eq!(scale_price(1_234_567_890, 2), 123);
    assert_eq!(scale_price(U, 6), 1_000_000);
    assert_eq!(scale_price(U / 2, 0), 0);
    assert_eq!(scale_price(0, 80), 0);
    assert_eq!(scale_price(u64::MAX, 20), u64::MAX);
    assert_eq!(scale_price(1, 60), u64::MAX);
}

#[test]
fn usd_conversion_through_anchor() {
    assert_eq!(to_usd(30000 * U, U), 30000 * U);
    assert_eq!(to_usd(2 * U, U / 2), U);
    assert_eq!(to_usd(u64::MAX, u64::MAX), u64::MAX);
}

#[test]
fn config_validation() {
    let mut cfg = config("average");
    assert_eq!(validate(&cfg), Ok(()));
    cfg.decimals.pop();
    assert_eq!(validate(&cfg), Err(ConfigError::DecimalsMismatch));
    let mut cfg = config("average");
    cfg.coins.push("USDT".to_string());
    cfg.decimals.push(6);
    assert_eq!(validate(&cfg), Err(ConfigError::UsdtNotOnce));
    let mut cfg = config("average");
    for _ in 0..300 {
        cfg.coins.push("X".to_string());
        cfg.decimals.push(1);
    }
    assert_eq!(validate(&cfg), Err(ConfigError::TooManyCoins));
}

#[test]
fn row_write_touches_only_its_slot() {
    let mut store = Storage::new(4, 3);
    store.write_row(2, &vec![1, 2, 3], &vec![4, 5, 6]);
    store.write_price(1, 0, 9);
    assert_eq!(store.tickers[0].prices, vec![0, 0, 0]);
    assert_eq!(store.tickers[1].prices, vec![9, 0, 0]);
    assert_eq!(store.tickers[2].prices, vec![1, 2, 3]);
    assert_eq!(store.tickers[2].volumes, vec![4, 5, 6]);
    assert_eq!(store.tickers[3].prices, vec![0, 0, 0]);
    let (p, v) = store.snapshot_column(2);
    assert_eq!(p, vec![0, 0, 3, 0]);
    assert_eq!(v, vec![0, 0, 6, 0]);
}

#[test]
fn tick_result_decides_publish_or_alarm() {
    let env = Envelope { indices: vec![0], prices: vec![5], produced_at: 9 };
    assert!(matches!(after_tick(Ok(env), false), TickAction::Publish(e) if e.prices == vec![5]));
    assert!(matches!(after_tick(Err(TickError::UsdtUnresolved), true), TickAction::Alarm));
    assert!(matches!(after_tick(Err(TickError::UsdtUnresolved), false), TickAction::Nothing));
}
