use vstd::prelude::*;

verus! {

/// Object id of the chain's shared system clock.
pub const CLOCK_ID: &'static str = "0x6";

/// The arguments of the oracle-update call, in order.
#[derive(Debug, Clone)]
pub struct PackedParams {
    pub oracle_cap: String,
    pub price_oracle: String,
    pub clock: String,
    pub pool_indices: Vec<u8>,
    /// Widened to 256 bits on the chain; every `u64` fits.
    pub token_prices: Vec<u64>,
    /// One copy of the packing time per index.
    pub timestamps: Vec<u64>,
}

#[derive(Debug, Clone, Copy, PartialEq, Eq, Structural)]
pub enum PackError {
    /// Indices and prices differ in number.
    LengthMismatch,
}

/// Packs an envelope's vectors for the oracle-update call, stamping every
/// index with `now_ms`.
pub fn pack_params(
    oracle_cap: &String,
    price_oracle: &String,
    pool_ids: &Vec<u8>,
    token_prices: &Vec<u64>,
    now_ms: u64,
) -> (r: Result<PackedParams, PackError>)
    ensures
        pool_ids@.len() != token_prices@.len() <==> r == Err::<PackedParams, PackError>(
            PackError::LengthMismatch,
        ),
        r matches Ok(p) ==> p.oracle_cap@ == oracle_cap@ && p.price_oracle@ == price_oracle@
            && p.clock@ == CLOCK_ID@ && p.pool_indices@ == pool_ids@ && p.token_prices@
            == token_prices@ && p.timestamps@ == Seq::new(pool_ids@.len(), |i: int| now_ms),
{
    let n = pool_ids.len();
    if n != token_prices.len() {
        return Err(PackError::LengthMismatch);
    }
    let mut idxs: Vec<u8> = Vec::new();
    let mut prices: Vec<u64> = Vec::new();
    let mut tss: Vec<u64> = Vec::new();
    let mut i: usize = 0;
    while i < n
        invariant
            n == pool_ids@.len(),
            n == token_prices@.len(),
            i <= n,
            idxs@ == pool_ids@.take(i as int),
            prices@ == token_prices@.take(i as int),
            tss@ == Seq::new(i as nat, |k: int| now_ms),
        decreases n - i,
    {
        idxs.push(pool_ids[i]);
        prices.push(token_prices[i]);
        tss.push(now_ms);
        assert(idxs@ =~= pool_ids@.take(i as int + 1));
        assert(prices@ =~= token_prices@.take(i as int + 1));
        assert(tss@ =~= Seq::new((i + 1) as nat, |k: int| now_ms));
        i = i + 1;
    }
    assert(idxs@ =~= pool_ids@);
    assert(prices@ =~= token_prices@);
    Ok(
        PackedParams {
            oracle_cap: oracle_cap.clone(),
            price_oracle: price_oracle.clone(),
            clock: CLOCK_ID.to_owned(),
            pool_indices: idxs,
            token_prices: prices,
            timestamps: tss,
        },
    )
}

/// An envelope is stale when more than `interval_ms` passed since it was produced.
pub open spec fn is_stale(now_ms: u64, produced_at: u64, interval_ms: u64) -> bool {
    now_ms > produced_at && now_ms - produced_at > interval_ms
}

/// What to do with an envelope that arrived.
#[derive(Debug, Clone, Copy, PartialEq, Eq, Structural)]
pub struct Plan {
    /// Sample the wallet balance first.
    pub check_balance: bool,
    /// Submit it (false: drop it as stale).
    pub submit: bool,
}

/// What to do after a submission attempt.
#[derive(Debug, Clone, Copy, PartialEq, Eq, Structural)]
pub enum Next {
    /// It went through.
    Done,
    /// Switch to the endpoint at this index of `rpcs` and try once more.
    RetryOn(usize),
    /// Both attempts failed: drop the envelope.
    GiveUp,
}

/// The submitter's decisions: freshness, balance sampling, endpoint rotation.
#[derive(Debug, Clone)]
pub struct Submitter {
    pub interval_ms: u64,
    pub check_balance_interval_ms: u64,
    pub last_balance_check: u64,
    /// Counts rotations; the endpoint in use is `rpc_index mod rpc_count`.
    pub rpc_index: u64,
    pub rpc_count: usize,
}

impl Submitter {
    pub fn new(now_ms: u64, interval_ms: u64, check_balance_interval_ms: u64, rpc_count: usize) -> (r: Submitter)
        ensures
            r.interval_ms == interval_ms,
            r.check_balance_interval_ms == check_balance_interval_ms,
            r.last_balance_check == now_ms,
            r.rpc_index == 0,
            r.rpc_count == rpc_count,
    {
        Submitter { interval_ms, check_balance_interval_ms, last_balance_check: now_ms, rpc_index: 0, rpc_count }
    }

    /// Decides for an envelope produced at `produced_at` that arrives at
    /// `now_ms`: the balance is sampled when more than the sampling interval
    /// passed since the last sample (which then moves to `now_ms`), and the
    /// envelope is submitted only when it is not stale.
    pub fn on_envelope(&mut self, now_ms: u64, produced_at: u64) -> (r: Plan)
        ensures
            r.submit == !is_stale(now_ms, produced_at, old(self).interval_ms),
            r.check_balance == (now_ms > old(self).last_balance_check && now_ms - old(self).last_balance_check
                > old(self).check_balance_interval_ms),
            final(self).last_balance_check == if r.check_balance {
                now_ms
            } else {
                old(self).last_balance_check
            },
            final(self).interval_ms == old(self).interval_ms,
            final(self).check_balance_interval_ms == old(self).check_balance_interval_ms,
            final(self).rpc_index == old(self).rpc_index,
            final(self).rpc_count == old(self).rpc_count,
    {
        let check = now_ms > self.last_balance_check && now_ms - self.last_balance_check
            > self.check_balance_interval_ms;
        if check {
            self.last_balance_check = now_ms;
        }
        let stale = now_ms > produced_at && now_ms - produced_at > self.interval_ms;
        Plan { check_balance: check, submit: !stale }
    }

    /// After an attempt: a success ends the envelope; a failed first attempt
    /// advances the endpoint counter and names the endpoint to retry on; a
    /// failed retry gives up.
    pub fn after_attempt(&mut self, retried: bool, ok: bool) -> (r: Next)
        requires
            old(self).rpc_count > 0,
        ensures
            ok ==> r == Next::Done && *final(self) == *old(self),
            !ok && retried ==> r == Next::GiveUp && *final(self) == *old(self),
            !ok && !retried ==> final(self).rpc_index == (if old(self).rpc_index == u64::MAX {
                0
            } else {
                (old(self).rpc_index + 1) as u64
            }) && r == Next::RetryOn(
                (final(self).rpc_index as int % old(self).rpc_count as int) as usize,
            ) && final(self).interval_ms == old(self).interval_ms
                && final(self).check_balance_interval_ms == old(self).check_balance_interval_ms
                && final(self).last_balance_check == old(self).last_balance_check
                && final(self).rpc_count == old(self).rpc_count,
    {
        if ok {
            return Next::Done;
        }
        if retried {
            return Next::GiveUp;
        }
        self.rpc_index = if self.rpc_index == u64::MAX { 0 } else { self.rpc_index + 1 };
        let i = (self.rpc_index % (self.rpc_count as u64)) as usize;
        Next::RetryOn(i)
    }
}

/// What to do with a balance sample (in MIST).
#[derive(Debug, Clone, Copy, PartialEq, Eq, Structural)]
pub struct BalanceAction {
    /// Push the sample to the metrics gateway.
    pub push: bool,
    /// Send a balance alarm.
    pub alarm: bool,
}

/// A failed or zero sample is ignored; otherwise it is pushed, and an alarm
/// goes out when alarms are enabled and it is below `threshold`.
pub fn on_balance(sample: Option<u64>, enabled: bool, threshold: u64) -> (r: BalanceAction)
    ensures
        r.push == (sample matches Some(v) && v > 0),
        r.alarm == (sample matches Some(v) && v > 0 && enabled && v < threshold),
{
    match sample {
        Some(v) => {
            if v == 0 {
                BalanceAction { push: false, alarm: false }
            } else {
                BalanceAction { push: true, alarm: enabled && v < threshold }
            }
        },
        None => BalanceAction { push: false, alarm: false },
    }
}

/// The tick period: the configured one, or the command-line one when larger.
pub fn effective_interval(configured: u64, cli: u64) -> (r: u64)
    ensures
        r == if cli > configured { cli } else { configured },
{
    if cli > configured { cli } else { configured }
}

} // verus!
