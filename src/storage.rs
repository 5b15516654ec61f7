use vstd::prelude::*;

verus! {

/// One exchange's row of the price matrix: a price and a volume per asset,
/// zero where there is no quote.
#[derive(Debug)]
pub struct Ticker {
    pub prices: Vec<u64>,
    pub volumes: Vec<u64>,
}

impl Ticker {
    /// A row of `token_size` empty cells.
    pub fn new(token_size: usize) -> (r: Ticker)
        ensures
            r.prices@ == Seq::new(token_size as nat, |i: int| 0u64),
            r.volumes@ == Seq::new(token_size as nat, |i: int| 0u64),
    {
        let prices = vec![0u64; token_size];
        let volumes = vec![0u64; token_size];
        proof {
            assert(prices@ =~= Seq::new(token_size as nat, |i: int| 0u64));
            assert(volumes@ =~= Seq::new(token_size as nat, |i: int| 0u64));
        }
        Ticker { prices, volumes }
    }
}

/// The price matrix of one tick: a row per exchange slot, a column per asset.
#[derive(Debug)]
pub struct Storage {
    pub tickers: Vec<Ticker>,
}

impl Storage {
    /// Every row has `tokens` cells, in both prices and volumes.
    pub open spec fn wf(&self, tokens: nat) -> bool {
        forall|e: int|
            0 <= e < self.tickers@.len() ==> #[trigger] self.tickers@[e].prices@.len() == tokens
                && self.tickers@[e].volumes@.len() == tokens
    }

    pub open spec fn price(&self, e: int, t: int) -> u64 {
        self.tickers@[e].prices@[t]
    }

    pub open spec fn volume(&self, e: int, t: int) -> u64 {
        self.tickers@[e].volumes@[t]
    }

    /// A matrix of `exchange_size` rows of `token_size` empty cells.
    pub fn new(exchange_size: usize, token_size: usize) -> (r: Storage)
        ensures
            r.tickers@.len() == exchange_size,
            r.wf(token_size as nat),
            forall|e: int, t: int|
                0 <= e < exchange_size && 0 <= t < token_size ==> r.price(e, t) == 0 && r.volume(
                    e,
                    t,
                ) == 0,
    {
        let mut tickers: Vec<Ticker> = Vec::new();
        let mut i: usize = 0;
        while i < exchange_size
            invariant
                i <= exchange_size,
                tickers@.len() == i,
                forall|e: int|
                    0 <= e < i ==> #[trigger] tickers@[e].prices@ == Seq::new(
                        token_size as nat,
                        |k: int| 0u64,
                    ) && tickers@[e].volumes@ == Seq::new(token_size as nat, |k: int| 0u64),
            decreases exchange_size - i,
        {
            tickers.push(Ticker::new(token_size));
            i = i + 1;
        }
        Storage { tickers }
    }

    /// Writes an exchange's quotes into its own row: cell `t` of row `slot`
    /// takes `prices[t]` and `volumes[t]` for every `t < prices.len()`;
    /// every other cell keeps its value.
    pub fn write_row(&mut self, slot: usize, prices: &Vec<u64>, volumes: &Vec<u64>)
        requires
            slot < old(self).tickers@.len(),
            prices.len() <= old(self).tickers@[slot as int].prices@.len(),
            prices.len() <= old(self).tickers@[slot as int].volumes@.len(),
            volumes.len() == prices.len(),
        ensures
            final(self).tickers@.len() == old(self).tickers@.len(),
            forall|e: int|
                0 <= e < old(self).tickers@.len() ==> #[trigger] final(self).tickers@[e].prices@.len()
                    == old(self).tickers@[e].prices@.len() && final(self).tickers@[e].volumes@.len()
                    == old(self).tickers@[e].volumes@.len(),
            forall|e: int, t: int|
                0 <= e < old(self).tickers@.len() && 0 <= t < old(self).tickers@[e].prices@.len()
                    ==> #[trigger] final(self).price(e, t) == if e == slot && t < prices.len() {
                    prices@[t]
                } else {
                    old(self).price(e, t)
                },
            forall|e: int, t: int|
                0 <= e < old(self).tickers@.len() && 0 <= t < old(self).tickers@[e].volumes@.len()
                    ==> #[trigger] final(self).volume(e, t) == if e == slot && t < prices.len() {
                    volumes@[t]
                } else {
                    old(self).volume(e, t)
                },
    {
        let mut i: usize = 0;
        while i < prices.len()
            invariant
                i <= prices.len(),
                volumes.len() == prices.len(),
                slot < old(self).tickers@.len(),
                prices.len() <= old(self).tickers@[slot as int].prices@.len(),
                prices.len() <= old(self).tickers@[slot as int].volumes@.len(),
                self.tickers@.len() == old(self).tickers@.len(),
                forall|e: int|
                    0 <= e < old(self).tickers@.len() ==> #[trigger] self.tickers@[e].prices@.len()
                        == old(self).tickers@[e].prices@.len() && self.tickers@[e].volumes@.len()
                        == old(self).tickers@[e].volumes@.len(),
                forall|e: int, t: int|
                    0 <= e < old(self).tickers@.len() && 0 <= t < old(self).tickers@[e].prices@.len()
                        ==> #[trigger] self.price(e, t) == if e == slot && t < i {
                        prices@[t]
                    } else {
                        old(self).price(e, t)
                    },
                forall|e: int, t: int|
                    0 <= e < old(self).tickers@.len() && 0 <= t < old(self).tickers@[e].volumes@.len()
                        ==> #[trigger] self.volume(e, t) == if e == slot && t < i {
                        volumes@[t]
                    } else {
                        old(self).volume(e, t)
                    },
            decreases prices.len() - i,
        {
            let ghost before = self.tickers@;
            proof {
                assert forall|e: int, t: int|
                    0 <= e < old(self).tickers@.len() && 0 <= t < old(self).tickers@[e].prices@.len()
                        implies #[trigger] before[e].prices@[t] == (if e == slot && t < i {
                        prices@[t]
                    } else {
                        old(self).price(e, t)
                    }) by {
                    assert(self.price(e, t) == before[e].prices@[t]);
                }
                assert forall|e: int, t: int|
                    0 <= e < old(self).tickers@.len() && 0 <= t < old(self).tickers@[e].volumes@.len()
                        implies #[trigger] before[e].volumes@[t] == (if e == slot && t < i {
                        volumes@[t]
                    } else {
                        old(self).volume(e, t)
                    }) by {
                    assert(self.volume(e, t) == before[e].volumes@[t]);
                }
            }
            self.tickers[slot].prices[i] = prices[i];
            self.tickers[slot].volumes[i] = volumes[i];
            proof {
                assert forall|e: int| 0 <= e < before.len() && e != slot implies self.tickers@[e]
                    == before[e] by {}
                assert(self.tickers@[slot as int].prices@ == before[slot as int].prices@.update(
                    i as int,
                    prices@[i as int],
                ));
                assert(self.tickers@[slot as int].volumes@ == before[slot as int].volumes@.update(
                    i as int,
                    volumes@[i as int],
                ));
                assert(self.tickers@.len() == before.len());
                assert forall|e: int| 0 <= e < old(self).tickers@.len() implies #[trigger]
                    self.tickers@[e].prices@.len() == old(self).tickers@[e].prices@.len()
                        && self.tickers@[e].volumes@.len() == old(self).tickers@[e].volumes@.len() by {
                    assert(before[e].prices@.len() == old(self).tickers@[e].prices@.len());
                }
                assert forall|e: int, t: int|
                    0 <= e < old(self).tickers@.len() && 0 <= t < old(self).tickers@[e].prices@.len()
                        implies #[trigger] self.price(e, t) == if e == slot && t < i + 1 {
                        prices@[t]
                    } else {
                        old(self).price(e, t)
                    } by {
                    assert(before[e].prices@[t] == (if e == slot && t < i {
                        prices@[t]
                    } else {
                        old(self).price(e, t)
                    }));
                }
                assert forall|e: int, t: int|
                    0 <= e < old(self).tickers@.len() && 0 <= t < old(self).tickers@[e].volumes@.len()
                        implies #[trigger] self.volume(e, t) == if e == slot && t < i + 1 {
                        volumes@[t]
                    } else {
                        old(self).volume(e, t)
                    } by {
                    assert(before[e].volumes@[t] == (if e == slot && t < i {
                        volumes@[t]
                    } else {
                        old(self).volume(e, t)
                    }));
                }
            }
            i = i + 1;
        }
    }

    /// Writes a single price into row `slot` (exchanges that quote one asset only).
    pub fn write_price(&mut self, slot: usize, asset: usize, price: u64)
        requires
            slot < old(self).tickers@.len(),
            asset < old(self).tickers@[slot as int].prices@.len(),
        ensures
            final(self).tickers@.len() == old(self).tickers@.len(),
            forall|n: nat| old(self).wf(n) ==> final(self).wf(n),
            forall|e: int|
                0 <= e < old(self).tickers@.len() ==> #[trigger] final(self).tickers@[e].prices@.len()
                    == old(self).tickers@[e].prices@.len(),
            forall|e: int, t: int|
                0 <= e < old(self).tickers@.len() && 0 <= t < old(self).tickers@[e].prices@.len()
                    ==> #[trigger] final(self).price(e, t) == if e == slot && t == asset {
                    price
                } else {
                    old(self).price(e, t)
                },
            forall|e: int| 0 <= e < final(self).tickers@.len() ==> final(self).tickers@[e].volumes@
                == old(self).tickers@[e].volumes@,
    {
        self.tickers[slot].prices[asset] = price;
    }

    /// The prices and volumes of column `asset`, one entry per row.
    pub fn snapshot_column(&self, asset: usize) -> (r: (Vec<u64>, Vec<u64>))
        requires
            exists|n: nat| self.wf(n) && asset < n,
        ensures
            r.0@.len() == self.tickers@.len(),
            r.1@.len() == self.tickers@.len(),
            forall|e: int|
                0 <= e < self.tickers@.len() ==> r.0@[e] == self.price(e, asset as int) && r.1@[e]
                    == self.volume(e, asset as int),
    {
        let ghost n = choose|n: nat| self.wf(n) && asset < n;
        let mut p: Vec<u64> = Vec::new();
        let mut v: Vec<u64> = Vec::new();
        let mut e: usize = 0;
        while e < self.tickers.len()
            invariant
                self.wf(n),
                asset < n,
                e <= self.tickers@.len(),
                p@.len() == e,
                v@.len() == e,
                forall|k: int|
                    0 <= k < e ==> p@[k] == self.price(k, asset as int) && v@[k] == self.volume(
                        k,
                        asset as int,
                    ),
            decreases self.tickers@.len() - e,
        {
            assert(self.tickers@[e as int].prices@.len() == n);
            p.push(self.tickers[e].prices[asset]);
            v.push(self.tickers[e].volumes[asset]);
            e = e + 1;
        }
        (p, v)
    }
}

} // verus!
