use vstd::prelude::*;

use crate::algorithm::{switch_algo, switch_spec, PRICE_UNIT};
use crate::quotes::AdapterOutcome;
use crate::storage::Storage;

verus! {

/// `diff_percent` used for an asset that `diffs` does not name (0.001 in
/// `PRICE_UNIT` fixed point).
pub const DEFAULT_DIFF: u64 = 1_000_000;

/// The part of the configuration that a tick reads. Prices, `diffs` and
/// `ratio` are in `PRICE_UNIT` fixed point.
#[derive(Debug, Clone)]
pub struct FeedConfig {
    pub coins: Vec<String>,
    pub decimals: Vec<u64>,
    /// Pinned prices by symbol; the first entry for a symbol counts.
    pub imitations: Vec<(String, u64)>,
    pub algorithms: Vec<String>,
    pub active: u8,
    pub usdt_active: u8,
    /// `diff_percent` overrides by symbol; the first entry for a symbol counts.
    pub diffs: Vec<(String, u64)>,
    pub ratio: u64,
}

/// A price vector ready for the chain: asset indices, prices scaled by
/// `10^decimals`, and the time it was produced (ms since the epoch).
#[derive(Debug, Clone)]
pub struct Envelope {
    pub indices: Vec<u8>,
    pub prices: Vec<u64>,
    pub produced_at: u64,
}

/// Why a tick published nothing.
#[derive(Debug, Clone, Copy, PartialEq, Eq, Structural)]
pub enum TickError {
    /// `USDT` is not among the coins.
    UsdtMissing,
    /// The USDT anchor price could not be resolved.
    UsdtUnresolved,
}

/// The value of the first pair whose key is `key`.
pub open spec fn lookup(pairs: Seq<(String, u64)>, key: Seq<char>) -> Option<u64>
    decreases pairs.len(),
{
    if pairs.len() == 0 {
        None
    } else if pairs[0].0@ == key {
        Some(pairs[0].1)
    } else {
        lookup(pairs.drop_first(), key)
    }
}

/// Index of the first coin named `name`.
pub open spec fn position_of(coins: Seq<String>, name: Seq<char>) -> Option<nat>
    decreases coins.len(),
{
    if coins.len() == 0 {
        None
    } else if coins.last()@ == name {
        match position_of(coins.drop_last(), name) {
            Some(i) => Some(i),
            None => Some((coins.len() - 1) as nat),
        }
    } else {
        position_of(coins.drop_last(), name)
    }
}

pub open spec fn column_prices(store: Storage, asset: int) -> Seq<u64> {
    Seq::new(store.tickers@.len(), |e: int| store.price(e, asset))
}

pub open spec fn column_volumes(store: Storage, asset: int) -> Seq<u64> {
    Seq::new(store.tickers@.len(), |e: int| store.volume(e, asset))
}

/// The price of `symbol` for a column: its pinned price if it has one, else
/// what algorithm `algorithms[active mod |algorithms|]` gives.
pub open spec fn resolve_spec(
    cfg: FeedConfig,
    symbol: Seq<char>,
    data: Seq<u64>,
    volume: Seq<u64>,
    active: u8,
) -> Option<u64> {
    match lookup(cfg.imitations@, symbol) {
        Some(v) => Some(v),
        None => if cfg.algorithms@.len() == 0 {
            None
        } else {
            let algo = cfg.algorithms@[(active as int) % (cfg.algorithms@.len() as int)];
            let diff = match lookup(cfg.diffs@, symbol) {
                Some(d) => d,
                None => DEFAULT_DIFF,
            };
            let r = switch_spec(algo@, data, volume, Some(diff), Some(cfg.ratio));
            if r.0 {
                Some(r.1)
            } else {
                None
            }
        },
    }
}

/// `p · u` in fixed point, truncated, capped at the largest `u64`.
pub open spec fn usd_of(p: u64, u: u64) -> int {
    let x = (p as int) * (u as int) / (PRICE_UNIT as int);
    if x > u64::MAX { u64::MAX as int } else { x }
}

pub open spec fn pow10(d: nat) -> int
    decreases d,
{
    if d == 0 { 1 } else { 10 * pow10((d - 1) as nat) }
}

/// A fixed-point price `p` as the chain's integer with `d` decimals:
/// `floor(p · 10^d)` for the value `p / PRICE_UNIT`, capped at the largest `u64`.
pub open spec fn chain_price(p: u64, d: u64) -> int {
    let x = (p as int) * pow10(d as nat) / (PRICE_UNIT as int);
    if x > u64::MAX { u64::MAX as int } else { x }
}

/// USD price of asset `i` in a tick whose USDT anchor is `u`.
pub open spec fn asset_usd(cfg: FeedConfig, store: Storage, i: int, usdt: int, u: u64) -> Option<u64> {
    if i == usdt {
        Some(u)
    } else {
        match resolve_spec(
            cfg,
            cfg.coins@[i]@,
            column_prices(store, i),
            column_volumes(store, i),
            cfg.active,
        ) {
            Some(p) => Some(usd_of(p, u) as u64),
            None => None,
        }
    }
}

/// Whether asset `i` goes into the envelope, and with which chain price.
pub open spec fn entry(cfg: FeedConfig, store: Storage, i: int, usdt: int, u: u64) -> Option<u64> {
    match asset_usd(cfg, store, i, usdt, u) {
        Some(p) => if p > 0 {
            Some(chain_price(p, cfg.decimals@[i]) as u64)
        } else {
            None
        },
        None => None,
    }
}

/// Indices of the first `n` assets that go into the envelope.
pub open spec fn envelope_indices(cfg: FeedConfig, store: Storage, usdt: int, u: u64, n: int) -> Seq<u8>
    decreases n,
{
    if n <= 0 {
        Seq::empty()
    } else {
        let prev = envelope_indices(cfg, store, usdt, u, n - 1);
        match entry(cfg, store, n - 1, usdt, u) {
            Some(_) => prev.push((n - 1) as u8),
            None => prev,
        }
    }
}

/// Chain prices of the first `n` assets that go into the envelope.
pub open spec fn envelope_prices(cfg: FeedConfig, store: Storage, usdt: int, u: u64, n: int) -> Seq<u64>
    decreases n,
{
    if n <= 0 {
        Seq::empty()
    } else {
        let prev = envelope_prices(cfg, store, usdt, u, n - 1);
        match entry(cfg, store, n - 1, usdt, u) {
            Some(p) => prev.push(p),
            None => prev,
        }
    }
}

/// Every row of the store has a cell for each coin.
pub open spec fn fits(cfg: FeedConfig, store: Storage) -> bool {
    store.wf(cfg.coins@.len())
}

/// What one tick yields for a configuration and a filled price matrix.
pub open spec fn tick_spec(cfg: FeedConfig, store: Storage, now_ms: u64) -> Result<
    (Seq<u8>, Seq<u64>, u64),
    TickError,
> {
    match position_of(cfg.coins@, "USDT"@) {
        None => Err(TickError::UsdtMissing),
        Some(usdt) => match resolve_spec(
            cfg,
            "USDT"@,
            column_prices(store, usdt as int),
            column_volumes(store, usdt as int),
            cfg.usdt_active,
        ) {
            None => Err(TickError::UsdtUnresolved),
            Some(u) => Ok(
                (
                    envelope_indices(cfg, store, usdt as int, u, cfg.coins@.len() as int),
                    envelope_prices(cfg, store, usdt as int, u, cfg.coins@.len() as int),
                    now_ms,
                ),
            ),
        },
    }
}

/// The value paired with `key` in `pairs` (the first such pair).
pub fn lookup_pair(pairs: &Vec<(String, u64)>, key: &String) -> (r: Option<u64>)
    ensures
        r == lookup(pairs@, key@),
{
    let mut i: usize = 0;
    assert(pairs@.skip(0) =~= pairs@);
    while i < pairs.len()
        invariant
            i <= pairs.len(),
            lookup(pairs@, key@) == lookup(pairs@.skip(i as int), key@),
        decreases pairs.len() - i,
    {
        let ghost rest = pairs@.skip(i as int);
        assert(rest.drop_first() =~= pairs@.skip(i as int + 1));
        if pairs[i].0 == *key {
            return Some(pairs[i].1);
        }
        i = i + 1;
    }
    None
}

/// Index of the first coin named `name`.
pub fn coin_position(coins: &Vec<String>, name: &String) -> (r: Option<usize>)
    ensures
        match r {
            Some(i) => position_of(coins@, name@) == Some(i as nat),
            None => position_of(coins@, name@) is None,
        },
{
    let mut i: usize = 0;
    while i < coins.len()
        invariant
            i <= coins.len(),
            position_of(coins@.take(i as int), name@) is None,
        decreases coins.len() - i,
    {
        assert(coins@.take(i as int + 1).drop_last() =~= coins@.take(i as int));
        if coins[i] == *name {
            assert(coins@.take(i as int + 1).last() == coins@[i as int]);
            proof {
                lemma_position_prefix(coins@, name@, i as int + 1);
            }
            return Some(i);
        }
        i = i + 1;
    }
    assert(coins@.take(coins.len() as int) =~= coins@);
    None
}

proof fn lemma_position_bound(coins: Seq<String>, name: Seq<char>)
    ensures
        position_of(coins, name) matches Some(i) ==> i < coins.len() && coins[i as int]@ == name,
    decreases coins.len(),
{
    if coins.len() > 0 {
        lemma_position_bound(coins.drop_last(), name);
    }
}

proof fn lemma_position_prefix(coins: Seq<String>, name: Seq<char>, n: int)
    requires
        0 < n <= coins.len(),
        position_of(coins.take(n), name) == Some((n - 1) as nat),
    ensures
        position_of(coins, name) == Some((n - 1) as nat),
    decreases coins.len(),
{
    if n < coins.len() {
        assert(coins.drop_last().take(n) =~= coins.take(n));
        lemma_position_prefix(coins.drop_last(), name, n);
    } else {
        assert(coins.take(n) =~= coins);
    }
}

/// The price of `symbol` for a column: its pinned price if `imitations`
/// names it, else the configured algorithm's result (`None` on failure).
pub fn resolve(
    cfg: &FeedConfig,
    symbol: &String,
    data: Vec<u64>,
    volume: Vec<u64>,
    active: u8,
) -> (r: Option<u64>)
    ensures
        r == resolve_spec(*cfg, symbol@, data@, volume@, active),
{
    match lookup_pair(&cfg.imitations, symbol) {
        Some(v) => Some(v),
        None => {
            if cfg.algorithms.len() == 0 {
                return None;
            }
            let k = (active as usize) % cfg.algorithms.len();
            let diff = match lookup_pair(&cfg.diffs, symbol) {
                Some(d) => d,
                None => DEFAULT_DIFF,
            };
            let (ok, price) = switch_algo(
                cfg.algorithms[k].as_str(),
                data,
                volume,
                Some(diff),
                Some(cfg.ratio),
            );
            if ok {
                Some(price)
            } else {
                None
            }
        },
    }
}

/// `p · u` for two fixed-point prices, truncated and capped at the largest `u64`.
pub fn to_usd(p: u64, u: u64) -> (r: u64)
    ensures
        r == usd_of(p, u),
{
    assert((p as int) * (u as int) <= u128::MAX) by (nonlinear_arith)
        requires
            p <= u64::MAX,
            u <= u64::MAX,
    ;
    let x: u128 = (p as u128 * u as u128) / (PRICE_UNIT as u128);
    if x > u64::MAX as u128 {
        u64::MAX
    } else {
        x as u64
    }
}

proof fn lemma_pow10_pos(d: nat)
    ensures
        pow10(d) >= 1,
    decreases d,
{
    if d > 0 {
        lemma_pow10_pos((d - 1) as nat);
    }
}

/// A fixed-point price as the chain's integer with `d` decimals:
/// `floor(p · 10^d)` for the value that `p` stands for, capped at the largest `u64`.
pub fn scale_price(p: u64, d: u64) -> (r: u64)
    ensures
        r == chain_price(p, d),
{
    if p == 0 {
        return 0;
    }
    let mut pw: u128 = 1;
    let mut k: u64 = 0;
    while k < d
        invariant
            p > 0,
            k <= d,
            pw == pow10(k as nat),
        decreases d - k,
    {
        if pw > u128::MAX / 10 {
            proof {
                lemma_pow10_pos(d as nat);
                lemma_pow10_grows(k as nat, d as nat);
                let big = pow10(d as nat);
                assert((p as int) * big >= big) by (nonlinear_arith)
                    requires
                        p >= 1,
                        big >= 1,
                ;
                assert((p as int) * big / (PRICE_UNIT as int) > u64::MAX) by (nonlinear_arith)
                    requires
                        (p as int) * big >= big,
                        big > 10 * (u128::MAX / 10) as int,
                ;
            }
            return u64::MAX;
        }
        pw = pw * 10;
        k = k + 1;
    }
    match (p as u128).checked_mul(pw) {
        None => {
            assert((p as int) * pw / (PRICE_UNIT as int) > u64::MAX) by (nonlinear_arith)
                requires
                    (p as int) * pw > u128::MAX,
            ;
            u64::MAX
        },
        Some(x) => {
            let q = x / (PRICE_UNIT as u128);
            if q > u64::MAX as u128 {
                u64::MAX
            } else {
                q as u64
            }
        },
    }
}

proof fn lemma_pow10_grows(k: nat, d: nat)
    requires
        k < d,
    ensures
        pow10(d) >= 10 * pow10(k),
    decreases d,
{
    lemma_pow10_pos(k);
    if k + 1 < d {
        lemma_pow10_grows(k, (d - 1) as nat);
        lemma_pow10_pos((d - 1) as nat);
    }
}

/// Largest number of coins: envelope indices are 8-bit.
pub const MAX_COINS: usize = 256;

/// Every published envelope is well formed: as many prices as indices, and
/// every index names one of the coins.
pub proof fn lemma_envelope_shape(cfg: FeedConfig, store: Storage, usdt: int, u: u64, n: int)
    requires
        n <= MAX_COINS,
    ensures
        envelope_indices(cfg, store, usdt, u, n).len() == envelope_prices(cfg, store, usdt, u, n).len(),
        forall|k: int|
            0 <= k < envelope_indices(cfg, store, usdt, u, n).len() ==> #[trigger] envelope_indices(
                cfg,
                store,
                usdt,
                u,
                n,
            )[k] < n,
    decreases n,
{
    if n > 0 {
        lemma_envelope_shape(cfg, store, usdt, u, n - 1);
    }
}

/// One tick over a filled price matrix: resolves the USDT anchor (with
/// `usdt_active`), then every other asset (with `active`), converts each to
/// USD through the anchor, scales it by `10^decimals`, and stamps `now_ms`.
/// Assets that fail to resolve, or whose USD price is zero, are left out.
pub fn run_tick(cfg: &FeedConfig, store: &Storage, now_ms: u64) -> (r: Result<Envelope, TickError>)
    requires
        fits(*cfg, *store),
        cfg.decimals@.len() == cfg.coins@.len(),
        cfg.coins@.len() <= MAX_COINS,
    ensures
        match (r, tick_spec(*cfg, *store, now_ms)) {
            (Ok(env), Ok(t)) => env.indices@ == t.0 && env.prices@ == t.1 && env.produced_at == t.2,
            (Err(e), Err(f)) => e == f,
            _ => false,
        },
        r is Ok ==> r->Ok_0.indices@.len() == r->Ok_0.prices@.len() && forall|k: int|
            0 <= k < r->Ok_0.indices@.len() ==> r->Ok_0.indices@[k] < cfg.coins@.len(),
{
    let usdt_name = "USDT".to_owned();
    let usdt = match coin_position(&cfg.coins, &usdt_name) {
        None => return Err(TickError::UsdtMissing),
        Some(i) => i,
    };
    proof {
        lemma_position_bound(cfg.coins@, usdt_name@);
        assert(store.wf(cfg.coins@.len()) && usdt < cfg.coins@.len());
    }
    let (up, uv) = store.snapshot_column(usdt);
    assert(up@ =~= column_prices(*store, usdt as int));
    assert(uv@ =~= column_volumes(*store, usdt as int));
    let u = match resolve(cfg, &usdt_name, up, uv, cfg.usdt_active) {
        None => return Err(TickError::UsdtUnresolved),
        Some(u) => u,
    };
    let n = cfg.coins.len();
    let mut indices: Vec<u8> = Vec::new();
    let mut prices: Vec<u64> = Vec::new();
    let mut i: usize = 0;
    while i < n
        invariant
            n == cfg.coins@.len(),
            n <= MAX_COINS,
            cfg.decimals@.len() == n,
            fits(*cfg, *store),
            usdt < n,
            i <= n,
            indices@ == envelope_indices(*cfg, *store, usdt as int, u, i as int),
            prices@ == envelope_prices(*cfg, *store, usdt as int, u, i as int),
        decreases n - i,
    {
        let usd: Option<u64> = if i == usdt {
            Some(u)
        } else {
            assert(store.wf(cfg.coins@.len()) && i < cfg.coins@.len());
            let (cp, cv) = store.snapshot_column(i);
            assert(cp@ =~= column_prices(*store, i as int));
            assert(cv@ =~= column_volumes(*store, i as int));
            match resolve(cfg, &cfg.coins[i], cp, cv, cfg.active) {
                Some(p) => Some(to_usd(p, u)),
                None => None,
            }
        };
        assert(usd == asset_usd(*cfg, *store, i as int, usdt as int, u));
        match usd {
            Some(p) => {
                if p > 0 {
                    indices.push(i as u8);
                    prices.push(scale_price(p, cfg.decimals[i]));
                }
            },
            None => {},
        }
        i = i + 1;
    }
    proof {
        lemma_envelope_shape(*cfg, *store, usdt as int, u, n as int);
    }
    Ok(Envelope { indices, prices, produced_at: now_ms })
}

/// Number of exchange slots (rows) in the price matrix.
pub const EXCHANGE_SIZE: usize = 20;

/// A pinned price bypasses aggregation: whatever the column holds, a symbol
/// that `imitations` names resolves to its pinned price.
pub proof fn lemma_imitation_bypass(
    cfg: FeedConfig,
    symbol: Seq<char>,
    data: Seq<u64>,
    volume: Seq<u64>,
    active: u8,
)
    requires
        lookup(cfg.imitations@, symbol) is Some,
    ensures
        resolve_spec(cfg, symbol, data, volume, active) == lookup(cfg.imitations@, symbol),
{
}

/// Whether an outcome can be written into a matrix with `n` assets.
pub open spec fn usable(o: AdapterOutcome, n: nat) -> bool {
    match o {
        AdapterOutcome::Row { prices, volumes } => prices@.len() == n && volumes@.len() == n,
        AdapterOutcome::Single { asset, price } => asset < n,
        AdapterOutcome::Failed => false,
    }
}

/// Price in cell (`e`, `t`) of the matrix built from per-slot outcomes.
pub open spec fn outcome_price(outcomes: Seq<AdapterOutcome>, n: nat, e: int, t: int) -> u64 {
    if 0 <= e < outcomes.len() && usable(outcomes[e], n) {
        match outcomes[e] {
            AdapterOutcome::Row { prices, volumes } => prices@[t],
            AdapterOutcome::Single { asset, price } => if asset == t { price } else { 0 },
            AdapterOutcome::Failed => 0,
        }
    } else {
        0
    }
}

/// Volume in cell (`e`, `t`) of the matrix built from per-slot outcomes.
pub open spec fn outcome_volume(outcomes: Seq<AdapterOutcome>, n: nat, e: int, t: int) -> u64 {
    if 0 <= e < outcomes.len() && usable(outcomes[e], n) {
        match outcomes[e] {
            AdapterOutcome::Row { prices, volumes } => volumes@[t],
            _ => 0,
        }
    } else {
        0
    }
}

/// The matrix of a tick: `EXCHANGE_SIZE` rows, where slot `e` holds what
/// `outcomes[e]` delivered (a malformed or failed outcome leaves it empty).
pub fn build_store(outcomes: &Vec<AdapterOutcome>, n: usize) -> (r: Storage)
    requires
        outcomes@.len() <= EXCHANGE_SIZE,
    ensures
        r.tickers@.len() == EXCHANGE_SIZE,
        r.wf(n as nat),
        forall|e: int, t: int|
            0 <= e < EXCHANGE_SIZE && 0 <= t < n ==> #[trigger] r.price(e, t) == outcome_price(
                outcomes@,
                n as nat,
                e,
                t,
            ) && r.volume(e, t) == outcome_volume(outcomes@, n as nat, e, t),
{
    let mut store = Storage::new(EXCHANGE_SIZE, n);
    let mut k: usize = 0;
    while k < outcomes.len()
        invariant
            outcomes@.len() <= EXCHANGE_SIZE,
            k <= outcomes@.len(),
            store.tickers@.len() == EXCHANGE_SIZE,
            store.wf(n as nat),
            forall|e: int, t: int|
                0 <= e < EXCHANGE_SIZE && 0 <= t < n ==> #[trigger] store.price(e, t) == (if e < k {
                    outcome_price(outcomes@, n as nat, e, t)
                } else {
                    0
                }) && store.volume(e, t) == (if e < k {
                    outcome_volume(outcomes@, n as nat, e, t)
                } else {
                    0
                }),
        decreases outcomes@.len() - k,
    {
        match &outcomes[k] {
            AdapterOutcome::Row { prices, volumes } => {
                if prices.len() == n && volumes.len() == n {
                    assert(store.tickers@[k as int].prices@.len() == n);
                    store.write_row(k, prices, volumes);
                }
            },
            AdapterOutcome::Single { asset, price } => {
                if *asset < n {
                    assert(store.tickers@[k as int].prices@.len() == n);
                    store.write_price(k, *asset, *price);
                }
            },
            AdapterOutcome::Failed => {},
        }
        assert forall|e: int, t: int| 0 <= e < EXCHANGE_SIZE && 0 <= t < n implies #[trigger] store.price(e, t) == (if e < k + 1 {
            outcome_price(outcomes@, n as nat, e, t)
        } else {
            0
        }) && store.volume(e, t) == (if e < k + 1 {
            outcome_volume(outcomes@, n as nat, e, t)
        } else {
            0
        }) by {
            assert(store.wf(n as nat));
            assert(store.tickers@[e].prices@.len() == n);
        }
        k = k + 1;
    }
    store
}

/// The whole decision part of a tick: the matrix from the exchanges'
/// outcomes (slot `e` is `outcomes[e]`), then `run_tick` over it.
pub fn tick_from_outcomes(cfg: &FeedConfig, outcomes: &Vec<AdapterOutcome>, now_ms: u64) -> (r: Result<
    Envelope,
    TickError,
>)
    requires
        outcomes@.len() <= EXCHANGE_SIZE,
        cfg.decimals@.len() == cfg.coins@.len(),
        cfg.coins@.len() <= MAX_COINS,
    ensures
        exists|s: Storage|
            {
                &&& s.tickers@.len() == EXCHANGE_SIZE
                &&& fits(*cfg, s)
                &&& forall|e: int, t: int|
                    0 <= e < EXCHANGE_SIZE && 0 <= t < cfg.coins@.len() ==> #[trigger] s.price(e, t)
                        == outcome_price(outcomes@, cfg.coins@.len(), e, t) && s.volume(e, t)
                        == outcome_volume(outcomes@, cfg.coins@.len(), e, t)
                &&& match (r, tick_spec(*cfg, s, now_ms)) {
                    (Ok(env), Ok(t)) => env.indices@ == t.0 && env.prices@ == t.1 && env.produced_at
                        == t.2,
                    (Err(e), Err(f)) => e == f,
                    _ => false,
                }
            },
{
    let store = build_store(outcomes, cfg.coins.len());
    let r = run_tick(cfg, &store, now_ms);
    assert(store.tickers@.len() == EXCHANGE_SIZE && fits(*cfg, store));
    r
}

/// Why a configuration cannot drive the feeder.
#[derive(Debug, Clone, Copy, PartialEq, Eq, Structural)]
pub enum ConfigError {
    /// `decimals` does not have one entry per coin.
    DecimalsMismatch,
    /// More coins than 8-bit indices can name.
    TooManyCoins,
    /// `USDT` is not among the coins exactly once.
    UsdtNotOnce,
}

/// How many coins are named `name`.
pub open spec fn count_named(coins: Seq<String>, name: Seq<char>) -> int
    decreases coins.len(),
{
    if coins.len() == 0 {
        0
    } else if coins.last()@ == name {
        count_named(coins.drop_last(), name) + 1
    } else {
        count_named(coins.drop_last(), name)
    }
}

/// Checks the configuration before the feeder starts.
pub fn validate(cfg: &FeedConfig) -> (r: Result<(), ConfigError>)
    ensures
        cfg.decimals@.len() != cfg.coins@.len() ==> r == Err::<(), ConfigError>(
            ConfigError::DecimalsMismatch,
        ),
        cfg.decimals@.len() == cfg.coins@.len() && cfg.coins@.len() > MAX_COINS ==> r == Err::<
            (),
            ConfigError,
        >(ConfigError::TooManyCoins),
        cfg.decimals@.len() == cfg.coins@.len() && cfg.coins@.len() <= MAX_COINS ==> (r is Ok
            <==> count_named(cfg.coins@, "USDT"@) == 1) && (r is Err ==> r == Err::<(), ConfigError>(
            ConfigError::UsdtNotOnce,
        )),
{
    if cfg.decimals.len() != cfg.coins.len() {
        return Err(ConfigError::DecimalsMismatch);
    }
    if cfg.coins.len() > MAX_COINS {
        return Err(ConfigError::TooManyCoins);
    }
    let usdt = "USDT".to_owned();
    let mut count: usize = 0;
    let mut i: usize = 0;
    while i < cfg.coins.len()
        invariant
            i <= cfg.coins@.len(),
            cfg.coins@.len() <= MAX_COINS,
            usdt@ == "USDT"@,
            count == count_named(cfg.coins@.take(i as int), "USDT"@),
            count <= i,
        decreases cfg.coins@.len() - i,
    {
        assert(cfg.coins@.take(i as int + 1).drop_last() =~= cfg.coins@.take(i as int));
        if cfg.coins[i] == usdt {
            count = count + 1;
        }
        i = i + 1;
    }
    assert(cfg.coins@.take(cfg.coins@.len() as int) =~= cfg.coins@);
    if count != 1 {
        return Err(ConfigError::UsdtNotOnce);
    }
    Ok(())
}

/// What the feeder loop does with a tick's result.
#[derive(Debug, Clone)]
pub enum TickAction {
    /// Put the envelope on the price channel.
    Publish(Envelope),
    /// Nothing to publish; send a price alarm.
    Alarm,
    /// Nothing to publish, and price alarms are off.
    Nothing,
}

/// A successful tick is published; a failed one raises a price alarm when
/// price alarms are enabled.
pub fn after_tick(result: Result<Envelope, TickError>, enable_price_alarm: bool) -> (r: TickAction)
    ensures
        result is Ok ==> r == TickAction::Publish(result->Ok_0),
        result is Err && enable_price_alarm ==> r is Alarm,
        result is Err && !enable_price_alarm ==> r is Nothing,
{
    match result {
        Ok(env) => TickAction::Publish(env),
        Err(_) => if enable_price_alarm {
            TickAction::Alarm
        } else {
            TickAction::Nothing
        },
    }
}

} // verus!
