use vstd::prelude::*;

verus! {

/// Why an aggregation produced no price.
#[derive(Debug, Clone, Copy, PartialEq, Eq, Structural)]
pub enum DataError {
    /// The column holds no non-zero price.
    EmptyData,
    /// Neither of the first two cells holds a quote, so there is no master price.
    MasterPriceMissing,
    /// Backward consensus needs at least four cells; the column had this many.
    InsufficientInput(usize),
    /// The share (in percent) of quotes that agree with the master price was too low.
    ConsensusBelowRatio(u16),
    /// No cell holds both a non-zero price and a non-zero volume.
    WeightedUndefined,
    /// The sum of price times volume does not fit in 128 bits.
    Overflow,
}

/// The non-zero entries of `s`, in their order.
pub open spec fn nonzero(s: Seq<u64>) -> Seq<u64>
    decreases s.len(),
{
    if s.len() == 0 {
        Seq::empty()
    } else if s.last() != 0 {
        nonzero(s.drop_last()).push(s.last())
    } else {
        nonzero(s.drop_last())
    }
}

pub open spec fn sum(s: Seq<u64>) -> int
    decreases s.len(),
{
    if s.len() == 0 {
        0
    } else {
        sum(s.drop_last()) + s.last()
    }
}

/// The largest entry of `s`, or 0 for an empty sequence.
pub open spec fn max_of(s: Seq<u64>) -> int
    decreases s.len(),
{
    if s.len() == 0 {
        0
    } else if s.last() > max_of(s.drop_last()) {
        s.last() as int
    } else {
        max_of(s.drop_last())
    }
}

/// Truncated mean of the non-zero entries (meaningful when there is one).
pub open spec fn average_of(s: Seq<u64>) -> int {
    sum(nonzero(s)) / (nonzero(s).len() as int)
}

pub open spec fn is_sorted(s: Seq<u64>) -> bool {
    forall|i: int, j: int| 0 <= i <= j < s.len() ==> s[i] <= s[j]
}

/// `t` with `x` inserted before its first entry greater than `x`.
pub open spec fn insert_sorted(t: Seq<u64>, x: u64) -> Seq<u64>
    decreases t.len(),
{
    if t.len() == 0 {
        seq![x]
    } else if t[0] > x {
        seq![x] + t
    } else {
        seq![t[0]] + insert_sorted(t.drop_first(), x)
    }
}

/// `s` in ascending order (insertion sort, front to back).
pub open spec fn sorted(s: Seq<u64>) -> Seq<u64>
    decreases s.len(),
{
    if s.len() == 0 {
        Seq::empty()
    } else {
        insert_sorted(sorted(s.drop_last()), s.last())
    }
}

/// Middle of a sorted non-empty sequence: the middle entry for an odd
/// length, the truncated mean of the two middle entries for an even one.
pub open spec fn middle_of(t: Seq<u64>) -> int {
    let h = (t.len() / 2) as int;
    if t.len() % 2 == 1 {
        t[h] as int
    } else {
        (t[h - 1] + t[h]) / 2
    }
}

/// Median of the non-zero entries of a column.
pub open spec fn median_of(data: Seq<u64>) -> int {
    middle_of(sorted(nonzero(data)))
}

/// Volume of cell `i`; a missing cell counts as zero.
pub open spec fn vol_at(vol: Seq<u64>, i: int) -> int {
    if 0 <= i < vol.len() {
        vol[i] as int
    } else {
        0
    }
}

/// A cell takes part in the weighted mean when price and volume are both non-zero.
pub open spec fn weighs(data: Seq<u64>, vol: Seq<u64>, i: int) -> bool {
    data[i] != 0 && vol_at(vol, i) != 0
}

/// Sum of price times volume over the first `n` cells that take part.
pub open spec fn weighted_num(data: Seq<u64>, vol: Seq<u64>, n: int) -> int
    decreases n,
{
    if n <= 0 {
        0
    } else if weighs(data, vol, n - 1) {
        weighted_num(data, vol, n - 1) + data[n - 1] * vol_at(vol, n - 1)
    } else {
        weighted_num(data, vol, n - 1)
    }
}

/// Sum of the volumes over the first `n` cells that take part.
pub open spec fn weighted_den(data: Seq<u64>, vol: Seq<u64>, n: int) -> int
    decreases n,
{
    if n <= 0 {
        0
    } else if weighs(data, vol, n - 1) {
        weighted_den(data, vol, n - 1) + vol_at(vol, n - 1)
    } else {
        weighted_den(data, vol, n - 1)
    }
}

pub open spec fn weighted_of(data: Seq<u64>, vol: Seq<u64>) -> int {
    weighted_num(data, vol, data.len() as int) / weighted_den(data, vol, data.len() as int)
}

/// Deviation of `d` from `master` in whole percent, truncated, and capped at
/// the largest `u16`.
pub open spec fn deviation_percent(master: u64, d: u64) -> int {
    let diff: int = if master >= d { master - d } else { d - master };
    let p = diff * 100 / (master as int);
    if p > 65535 { 65535 } else { p }
}

/// How many entries of `v` lie within `diff` percent of `master`.
pub open spec fn count_within(v: Seq<u64>, master: u64, diff: u16) -> int
    decreases v.len(),
{
    if v.len() == 0 {
        0
    } else if deviation_percent(master, v.last()) <= diff {
        count_within(v.drop_last(), master, diff) + 1
    } else {
        count_within(v.drop_last(), master, diff)
    }
}

/// The first cell if it holds a quote, else the second.
pub open spec fn master_of(data: Seq<u64>) -> u64 {
    if data[0] != 0 { data[0] } else { data[1] }
}

/// Share, in truncated percent, of the quotes that agree with the master price.
pub open spec fn agreement_of(data: Seq<u64>, diff: u16) -> int {
    count_within(nonzero(data), master_of(data), diff) * 100 / (nonzero(data).len() as int)
}

/// What backward consensus yields for a column.
pub open spec fn backwad_result(data: Seq<u64>, diff: u16, ratio: u16) -> Result<u64, DataError> {
    if data.len() < 4 {
        Err(DataError::InsufficientInput(data.len() as usize))
    } else if master_of(data) == 0 {
        Err(DataError::MasterPriceMissing)
    } else if agreement_of(data, diff) < ratio {
        Err(DataError::ConsensusBelowRatio(agreement_of(data, diff) as u16))
    } else {
        Ok(master_of(data))
    }
}

proof fn lemma_take_step(s: Seq<u64>, i: int)
    requires
        0 <= i < s.len(),
    ensures
        s.take(i + 1).drop_last() == s.take(i),
        s.take(i + 1).last() == s[i],
{
    assert(s.take(i + 1).drop_last() =~= s.take(i));
}

proof fn lemma_insert_sorted(t: Seq<u64>, x: u64, j: int)
    requires
        0 <= j <= t.len(),
        forall|k: int| 0 <= k < j ==> t[k] <= x,
        j < t.len() ==> t[j] > x,
    ensures
        t.insert(j, x) == insert_sorted(t, x),
    decreases t.len(),
{
    if t.len() == 0 {
        assert(t.insert(j, x) =~= seq![x]);
    } else if j == 0 {
        assert(t.insert(j, x) =~= seq![x] + t);
    } else {
        let u = t.drop_first();
        assert forall|k: int| 0 <= k < j - 1 implies u[k] <= x by {
            assert(u[k] == t[k + 1]);
        }
        if j - 1 < u.len() {
            assert(u[j - 1] == t[j]);
        }
        lemma_insert_sorted(u, x, j - 1);
        assert(t.insert(j, x) =~= seq![t[0]] + u.insert(j - 1, x));
    }
}

proof fn lemma_nonzero_len(s: Seq<u64>)
    ensures
        nonzero(s).len() <= s.len(),
        nonzero(s).len() == 0 ==> forall|i: int| 0 <= i < s.len() ==> s[i] == 0,
    decreases s.len(),
{
    if s.len() > 0 {
        lemma_nonzero_len(s.drop_last());
        if nonzero(s).len() == 0 {
            assert forall|i: int| 0 <= i < s.len() implies s[i] == 0 by {
                if i < s.len() - 1 {
                    assert(s.drop_last()[i] == s[i]);
                }
            }
        }
    }
}

proof fn lemma_count_within_len(v: Seq<u64>, master: u64, diff: u16)
    ensures
        0 <= count_within(v, master, diff) <= v.len(),
    decreases v.len(),
{
    if v.len() > 0 {
        lemma_count_within_len(v.drop_last(), master, diff);
    }
}

proof fn lemma_weighted_num_monotone(data: Seq<u64>, vol: Seq<u64>, m: int, n: int)
    requires
        0 <= m <= n,
    ensures
        weighted_num(data, vol, m) <= weighted_num(data, vol, n),
    decreases n,
{
    if m < n {
        lemma_weighted_num_monotone(data, vol, m, n - 1);
        if weighs(data, vol, n - 1) {
            assert(data[n - 1] * vol_at(vol, n - 1) >= 0) by (nonlinear_arith)
                requires
                    data[n - 1] >= 0,
                    vol_at(vol, n - 1) >= 0,
            ;
        }
    }
}

proof fn lemma_weighted_den_zero(data: Seq<u64>, vol: Seq<u64>, n: int)
    requires
        0 <= n <= data.len(),
    ensures
        weighted_den(data, vol, n) >= 0,
        weighted_den(data, vol, n) == 0 <==> weighted_num(data, vol, n) == 0,
        weighted_den(data, vol, n) == 0 ==> forall|i: int| 0 <= i < n ==> !weighs(data, vol, i),
    decreases n,
{
    if n > 0 {
        lemma_weighted_den_zero(data, vol, n - 1);
        lemma_weighted_num_monotone(data, vol, 0, n - 1);
        if weighs(data, vol, n - 1) {
            let p = data[n - 1] as int;
            let w = vol_at(vol, n - 1);
            assert(p * w > 0) by (nonlinear_arith)
                requires
                    p > 0,
                    w > 0,
            ;
        }
    }
}

/// A column of quotes (price and volume per exchange) for one asset.
#[derive(Debug, Clone)]
pub struct PriceList {
    pub data: Vec<u64>,
    pub volume: Vec<u64>,
}

impl PriceList {
    pub fn new(data: Vec<u64>, volume: Vec<u64>) -> (r: PriceList)
        ensures
            r.data@ == data@,
            r.volume@ == volume@,
    {
        PriceList { data, volume }
    }

    /// Middle value of the sorted non-zero prices.
    pub fn median(&self) -> (r: Result<u64, DataError>)
        ensures
            nonzero(self.data@).len() == 0 ==> r == Err::<u64, DataError>(DataError::EmptyData),
            nonzero(self.data@).len() > 0 ==> r == Ok::<u64, DataError>(median_of(self.data@) as u64)
                && 0 <= median_of(self.data@) <= u64::MAX,
            nonzero(self.data@).len() > 0 ==> exists|t: Seq<u64>|
                is_sorted(t) && t.to_multiset() == nonzero(self.data@).to_multiset()
                    && median_of(self.data@) == middle_of(t),
    {
        let v = nonzero_prices(&self.data);
        let len = v.len();
        if len == 0 {
            return Err(DataError::EmptyData);
        }
        let s = sort_prices(&v);
        proof {
            s@.to_multiset_ensures();
            v@.to_multiset_ensures();
        }
        let d = len / 2;
        let m: u64 = if len % 2 == 1 {
            s[d]
        } else {
            ((s[d - 1] as u128 + s[d] as u128) / 2) as u64
        };
        assert(m == middle_of(s@));
        proof {
            lemma_middle_bounded(s@);
        }
        Ok(m)
    }

    /// Truncated mean of the non-zero prices.
    pub fn average(&self) -> (r: Result<u64, DataError>)
        ensures
            nonzero(self.data@).len() == 0 ==> r == Err::<u64, DataError>(DataError::EmptyData),
            nonzero(self.data@).len() > 0 ==> r == Ok::<u64, DataError>(
                average_of(self.data@) as u64,
            ),
            nonzero(self.data@).len() > 0 ==> 0 <= average_of(self.data@) <= u64::MAX,
    {
        let n = self.data.len();
        let mut total: u128 = 0;
        let mut count: usize = 0;
        let mut i: usize = 0;
        while i < n
            invariant
                n == self.data.len(),
                i <= n,
                total == sum(nonzero(self.data@.take(i as int))),
                count == nonzero(self.data@.take(i as int)).len(),
                count <= i,
                total <= count * 0xFFFF_FFFF_FFFF_FFFFu128,
            decreases n - i,
        {
            proof {
                lemma_take_step(self.data@, i as int);
            }
            let x = self.data[i];
            if x != 0 {
                proof {
                    let prev = nonzero(self.data@.take(i as int));
                    assert(prev.push(x).drop_last() =~= prev);
                }
                total = total + x as u128;
                count = count + 1;
            }
            i = i + 1;
        }
        assert(self.data@.take(n as int) =~= self.data@);
        if count == 0 {
            return Err(DataError::EmptyData);
        }
        let q = total / (count as u128);
        assert(q <= 0xFFFF_FFFF_FFFF_FFFFu128) by (nonlinear_arith)
            requires
                q == total / (count as u128),
                count > 0,
                total <= count * 0xFFFF_FFFF_FFFF_FFFFu128,
        ;
        Ok(q as u64)
    }

    /// `Σ price·volume / Σ volume` (truncated) over the cells where both are non-zero.
    pub fn weighted_average(&self) -> (r: Result<u64, DataError>)
        ensures
            weighted_num(self.data@, self.volume@, self.data@.len() as int) > u128::MAX
                <==> r == Err::<u64, DataError>(DataError::Overflow),
            weighted_num(self.data@, self.volume@, self.data@.len() as int) <= u128::MAX
                ==> (weighted_den(self.data@, self.volume@, self.data@.len() as int) == 0
                <==> r == Err::<u64, DataError>(DataError::WeightedUndefined)),
            weighted_num(self.data@, self.volume@, self.data@.len() as int) <= u128::MAX
                && weighted_den(self.data@, self.volume@, self.data@.len() as int) != 0
                ==> r == Ok::<u64, DataError>(weighted_of(self.data@, self.volume@) as u64)
                && 0 <= weighted_of(self.data@, self.volume@) <= u64::MAX,
    {
        let n = self.data.len();
        let ghost data = self.data@;
        let ghost vol = self.volume@;
        let mut num: u128 = 0;
        let mut den: u128 = 0;
        let mut i: usize = 0;
        while i < n
            invariant
                n == self.data.len(),
                data == self.data@,
                vol == self.volume@,
                i <= n,
                num == weighted_num(data, vol, i as int),
                den == weighted_den(data, vol, i as int),
                den <= i * 0xFFFF_FFFF_FFFF_FFFFu128,
                num <= den * 0xFFFF_FFFF_FFFF_FFFFu128,
            decreases n - i,
        {
            let x = self.data[i];
            let w: u64 = if i < self.volume.len() { self.volume[i] } else { 0 };
            assert(w == vol_at(vol, i as int));
            if x != 0 && w != 0 {
                assert((x as int) * (w as int) <= 0xFFFF_FFFF_FFFF_FFFFu64 as int * 0xFFFF_FFFF_FFFF_FFFFu64 as int)
                    by (nonlinear_arith)
                    requires
                        x <= 0xFFFF_FFFF_FFFF_FFFFu64,
                        w <= 0xFFFF_FFFF_FFFF_FFFFu64,
                ;
                let prod: u128 = x as u128 * w as u128;
                assert(prod <= 0xFFFF_FFFF_FFFF_FFFFu128 * w) by (nonlinear_arith)
                    requires
                        prod == x as u128 * w as u128,
                        x <= 0xFFFF_FFFF_FFFF_FFFFu64,
                ;
                match num.checked_add(prod) {
                    Some(t) => {
                        num = t;
                    },
                    None => {
                        proof {
                            lemma_weighted_num_monotone(data, vol, i as int + 1, n as int);
                        }
                        return Err(DataError::Overflow);
                    },
                }
                den = den + w as u128;
            }
            i = i + 1;
        }
        proof {
            lemma_weighted_den_zero(data, vol, n as int);
        }
        if den == 0 {
            return Err(DataError::WeightedUndefined);
        }
        let q = num / den;
        assert(q <= 0xFFFF_FFFF_FFFF_FFFFu128) by (nonlinear_arith)
            requires
                q == num / den,
                den > 0,
                num <= den * 0xFFFF_FFFF_FFFF_FFFFu128,
        ;
        Ok(q as u64)
    }

    /// Backward consensus: accept the master price when enough of the
    /// non-zero quotes lie within `diff_percent` percent of it.
    pub fn backwad(&self, diff_percent: u16, expected_ratio: u16) -> (r: Result<u64, DataError>)
        ensures
            r == backwad_result(self.data@, diff_percent, expected_ratio),
    {
        let len = self.data.len();
        if len < 4 {
            return Err(DataError::InsufficientInput(len));
        }
        let mut master = self.data[0];
        if master == 0 {
            master = self.data[1];
        }
        if master == 0 {
            return Err(DataError::MasterPriceMissing);
        }
        let ghost data = self.data@;
        let mut vlen: usize = 0;
        let mut agreeing: usize = 0;
        let mut i: usize = 0;
        while i < len
            invariant
                len == self.data.len(),
                data == self.data@,
                master == master_of(data),
                master != 0,
                i <= len,
                vlen == nonzero(data.take(i as int)).len(),
                agreeing == count_within(nonzero(data.take(i as int)), master, diff_percent),
                agreeing <= vlen <= i,
            decreases len - i,
        {
            proof {
                lemma_take_step(data, i as int);
            }
            let d = self.data[i];
            if d != 0 {
                let gap: u64 = if master >= d { master - d } else { d - master };
                let p: u128 = (gap as u128 * 100) / master as u128;
                let pct: u16 = if p > 65535 { 65535 } else { p as u16 };
                assert(pct == deviation_percent(master, d));
                proof {
                    assert(nonzero(data.take(i as int + 1)).drop_last() == nonzero(
                        data.take(i as int),
                    ));
                }
                if pct <= diff_percent {
                    agreeing = agreeing + 1;
                }
                vlen = vlen + 1;
            }
            i = i + 1;
        }
        assert(data.take(len as int) =~= data);
        proof {
            lemma_nonzero_len(data);
            if data[0] != 0 {
                assert(data[0] != 0);
            } else {
                assert(data[1] != 0);
            }
        }
        let actual: u128 = (agreeing as u128 * 100) / vlen as u128;
        assert(actual <= 100) by (nonlinear_arith)
            requires
                actual == (agreeing as int * 100) / (vlen as int),
                agreeing <= vlen,
                vlen > 0,
        ;
        let actual_ratio = actual as u16;
        if actual_ratio < expected_ratio {
            return Err(DataError::ConsensusBelowRatio(actual_ratio));
        }
        Ok(master)
    }

    /// Largest non-zero price.
    pub fn max(&self) -> (r: Result<u64, DataError>)
        ensures
            nonzero(self.data@).len() == 0 ==> r == Err::<u64, DataError>(DataError::EmptyData),
            nonzero(self.data@).len() > 0 ==> r == Ok::<u64, DataError>(
                max_of(nonzero(self.data@)) as u64,
            ),
    {
        let n = self.data.len();
        let ghost data = self.data@;
        let mut m: u64 = 0;
        let mut count: usize = 0;
        let mut i: usize = 0;
        while i < n
            invariant
                n == self.data.len(),
                data == self.data@,
                i <= n,
                m == max_of(nonzero(data.take(i as int))),
                count == nonzero(data.take(i as int)).len(),
                count <= i,
            decreases n - i,
        {
            proof {
                lemma_take_step(data, i as int);
            }
            let x = self.data[i];
            if x != 0 {
                proof {
                    let prev = nonzero(data.take(i as int));
                    assert(prev.push(x).drop_last() =~= prev);
                }
                if x > m {
                    m = x;
                }
                count = count + 1;
            }
            i = i + 1;
        }
        assert(data.take(n as int) =~= data);
        if count == 0 {
            return Err(DataError::EmptyData);
        }
        Ok(m)
    }
}

/// The non-zero prices of `data`, in order.
pub fn nonzero_prices(data: &Vec<u64>) -> (r: Vec<u64>)
    ensures
        r@ == nonzero(data@),
{
    let mut r: Vec<u64> = Vec::new();
    let mut i: usize = 0;
    while i < data.len()
        invariant
            i <= data.len(),
            r@ == nonzero(data@.take(i as int)),
        decreases data.len() - i,
    {
        proof {
            lemma_take_step(data@, i as int);
        }
        if data[i] != 0 {
            r.push(data[i]);
        }
        i = i + 1;
    }
    assert(data@.take(data.len() as int) =~= data@);
    r
}

/// The entries of `v` in ascending order.
pub fn sort_prices(v: &Vec<u64>) -> (r: Vec<u64>)
    ensures
        r@ == sorted(v@),
        is_sorted(r@),
        r@.to_multiset() == v@.to_multiset(),
{
    let mut r: Vec<u64> = Vec::new();
    let mut i: usize = 0;
    proof {
        assert(v@.take(0) =~= Seq::<u64>::empty());
    }
    while i < v.len()
        invariant
            i <= v.len(),
            r.len() == i,
            r@ == sorted(v@.take(i as int)),
            is_sorted(r@),
            r@.to_multiset() == v@.take(i as int).to_multiset(),
        decreases v.len() - i,
    {
        let x = v[i];
        let mut j: usize = 0;
        while j < r.len() && r[j] <= x
            invariant
                j <= r.len(),
                forall|k: int| 0 <= k < j ==> r@[k] <= x,
            decreases r.len() - j,
        {
            j = j + 1;
        }
        let ghost old_r = r@;
        proof {
            lemma_take_step(v@, i as int);
            if j < old_r.len() {
                assert(!(old_r[j as int] <= x));
            }
            lemma_insert_sorted(old_r, x, j as int);
        }
        r.insert(j, x);
        proof {
            assert(v@.take(i as int + 1) =~= v@.take(i as int).push(x));
            v@.take(i as int).to_multiset_ensures();
            r@.to_multiset_ensures();
            assert(r@.remove(j as int) =~= old_r);
            assert(r@.to_multiset() =~= old_r.to_multiset().insert(x));
            assert forall|a: int, b: int| 0 <= a <= b < r@.len() implies r@[a] <= r@[b] by {
                if a < j && b > j {
                    assert(r@[b] == old_r[b - 1]);
                    if j < old_r.len() {
                        assert(old_r[j as int] > x);
                    }
                }
                if a == j && b > j {
                    assert(old_r[j as int] > x);
                    assert(old_r[j as int] <= old_r[b - 1]);
                }
            }
        }
        i = i + 1;
    }
    assert(v@.take(v.len() as int) =~= v@);
    r
}

/// Fixed-point scale of prices, volumes and user-level fractions: a value `x`
/// is held as the integer `floor(x · PRICE_UNIT)`.
pub const PRICE_UNIT: u64 = 1_000_000_000;

/// The aggregation algorithms, by the names that configuration uses.
#[derive(Debug, Clone, Copy, PartialEq, Eq, Structural)]
pub enum Algorithm {
    Average,
    Median,
    Backwad,
    Weighted,
    Max,
}

pub open spec fn algorithm_named(name: Seq<char>) -> Option<Algorithm> {
    if name == "average"@ {
        Some(Algorithm::Average)
    } else if name == "median"@ {
        Some(Algorithm::Median)
    } else if name == "backwad"@ {
        Some(Algorithm::Backwad)
    } else if name == "weighted"@ {
        Some(Algorithm::Weighted)
    } else if name == "max"@ {
        Some(Algorithm::Max)
    } else {
        None
    }
}

impl Algorithm {
    /// The algorithm called `name`, if there is one.
    pub fn from_name(name: &str) -> (r: Option<Algorithm>)
        ensures
            r == algorithm_named(name@),
    {
        let n = name.to_owned();
        if n == "average".to_owned() {
            Some(Algorithm::Average)
        } else if n == "median".to_owned() {
            Some(Algorithm::Median)
        } else if n == "backwad".to_owned() {
            Some(Algorithm::Backwad)
        } else if n == "weighted".to_owned() {
            Some(Algorithm::Weighted)
        } else if n == "max".to_owned() {
            Some(Algorithm::Max)
        } else {
            None
        }
    }
}

/// A user-level fraction held in `PRICE_UNIT` fixed point, as whole
/// hundredths (`floor(x · 100)`), capped at the largest `u16`.
pub open spec fn hundredths(x: u64) -> int {
    let p = (x as int) * 100 / (PRICE_UNIT as int);
    if p > 65535 { 65535 } else { p }
}

pub fn to_hundredths(x: u64) -> (r: u16)
    ensures
        r == hundredths(x),
{
    let p: u128 = (x as u128 * 100) / (PRICE_UNIT as u128);
    if p > 65535 { 65535 } else { p as u16 }
}

/// What an algorithm yields for a column; `diff` and `ratio` (whole
/// percent) matter to backward consensus only.
pub open spec fn aggregate(
    alg: Algorithm,
    data: Seq<u64>,
    volume: Seq<u64>,
    diff: u16,
    ratio: u16,
) -> Result<u64, DataError> {
    match alg {
        Algorithm::Average => if nonzero(data).len() == 0 {
            Err(DataError::EmptyData)
        } else {
            Ok(average_of(data) as u64)
        },
        Algorithm::Median => if nonzero(data).len() == 0 {
            Err(DataError::EmptyData)
        } else {
            Ok(median_of(data) as u64)
        },
        Algorithm::Backwad => backwad_result(data, diff, ratio),
        Algorithm::Weighted => if weighted_num(data, volume, data.len() as int) > u128::MAX {
            Err(DataError::Overflow)
        } else if weighted_den(data, volume, data.len() as int) == 0 {
            Err(DataError::WeightedUndefined)
        } else {
            Ok(weighted_of(data, volume) as u64)
        },
        Algorithm::Max => if nonzero(data).len() == 0 {
            Err(DataError::EmptyData)
        } else {
            Ok(max_of(nonzero(data)) as u64)
        },
    }
}

/// The pair that the per-name entry points return: success and the price (0 on failure).
pub open spec fn flag_of(r: Result<u64, DataError>) -> (bool, u64) {
    match r {
        Ok(v) => (true, v),
        Err(_) => (false, 0),
    }
}

fn flagged(r: Result<u64, DataError>) -> (out: (bool, u64))
    ensures
        out == flag_of(r),
{
    match r {
        Ok(v) => (true, v),
        Err(_) => (false, 0),
    }
}

/// Truncated mean of the non-zero prices; `(false, 0)` when there is none.
pub fn average(data: Vec<u64>) -> (r: (bool, u64))
    ensures
        r == flag_of(aggregate(Algorithm::Average, data@, Seq::empty(), 0, 0)),
        r.0 <==> nonzero(data@).len() > 0,
        r.0 ==> r.1 == average_of(data@),
{
    let pl = PriceList::new(data, Vec::new());
    flagged(pl.average())
}

/// Median of the non-zero prices; `(false, 0)` when there is none.
pub fn median(data: Vec<u64>) -> (r: (bool, u64))
    ensures
        r == flag_of(aggregate(Algorithm::Median, data@, Seq::empty(), 0, 0)),
        r.0 <==> nonzero(data@).len() > 0,
        r.0 ==> r.1 == median_of(data@),
{
    let pl = PriceList::new(data, Vec::new());
    flagged(pl.median())
}

proof fn lemma_middle_bounded(t: Seq<u64>)
    requires
        t.len() > 0,
    ensures
        0 <= middle_of(t) <= u64::MAX,
{
}

/// Backward consensus over `data`; `(false, 0)` when it fails.
pub fn backwad(data: Vec<u64>, diff_percent: u16, expected_ratio: u16) -> (r: (bool, u64))
    ensures
        r == flag_of(backwad_result(data@, diff_percent, expected_ratio)),
{
    let pl = PriceList::new(data, Vec::new());
    flagged(pl.backwad(diff_percent, expected_ratio))
}

/// Volume-weighted mean; `(false, 0)` when it is undefined or too large.
pub fn weighted(data: Vec<u64>, volume: Vec<u64>) -> (r: (bool, u64))
    ensures
        r == flag_of(aggregate(Algorithm::Weighted, data@, volume@, 0, 0)),
        r.0 ==> r.1 == weighted_of(data@, volume@),
{
    let pl = PriceList::new(data, volume);
    flagged(pl.weighted_average())
}

/// Largest non-zero price; `(false, 0)` when there is none.
pub fn max(data: Vec<u64>) -> (r: (bool, u64))
    ensures
        r == flag_of(aggregate(Algorithm::Max, data@, Seq::empty(), 0, 0)),
        r.0 ==> r.1 == max_of(nonzero(data@)),
{
    let pl = PriceList::new(data, Vec::new());
    proof {
        lemma_max_bounded(nonzero(pl.data@));
    }
    flagged(pl.max())
}

proof fn lemma_max_bounded(s: Seq<u64>)
    ensures
        0 <= max_of(s) <= u64::MAX,
    decreases s.len(),
{
    if s.len() > 0 {
        lemma_max_bounded(s.drop_last());
    }
}

/// What the selector returns for an algorithm name and a column.
pub open spec fn switch_spec(
    algo: Seq<char>,
    data: Seq<u64>,
    volume: Seq<u64>,
    diff_percent: Option<u64>,
    expected_ratio: Option<u64>,
) -> (bool, u64) {
    match algorithm_named(algo) {
        None => (false, 0),
        Some(Algorithm::Backwad) => match (diff_percent, expected_ratio) {
            (Some(d), Some(e)) => flag_of(
                backwad_result(data, hundredths(d) as u16, hundredths(e) as u16),
            ),
            _ => (false, 0),
        },
        Some(alg) => flag_of(aggregate(alg, data, volume, 0, 0)),
    }
}

/// Runs the algorithm called `algo` on a column. `diff_percent` and
/// `expected_ratio` are fractions in `PRICE_UNIT` fixed point, needed by
/// backward consensus only, which takes them as whole hundredths. An unknown
/// name, or backward consensus without both fractions, gives `(false, 0)`.
pub fn switch_algo(
    algo: &str,
    data: Vec<u64>,
    volume: Vec<u64>,
    diff_percent: Option<u64>,
    expected_ratio: Option<u64>,
) -> (r: (bool, u64))
    ensures
        r == switch_spec(algo@, data@, volume@, diff_percent, expected_ratio),
{
    match Algorithm::from_name(algo) {
        None => (false, 0),
        Some(Algorithm::Average) => average(data),
        Some(Algorithm::Median) => median(data),
        Some(Algorithm::Backwad) => match (diff_percent, expected_ratio) {
            (Some(d), Some(e)) => backwad(data, to_hundredths(d), to_hundredths(e)),
            _ => (false, 0),
        },
        Some(Algorithm::Weighted) => weighted(data, volume),
        Some(Algorithm::Max) => max(data),
    }
}

proof fn lemma_nonzero_idempotent(s: Seq<u64>)
    ensures
        nonzero(nonzero(s)) == nonzero(s),
    decreases s.len(),
{
    if s.len() > 0 {
        lemma_nonzero_idempotent(s.drop_last());
        let r = nonzero(s.drop_last());
        if s.last() != 0 {
            assert(r.push(s.last()).drop_last() =~= r);
        }
    }
}

/// Zero cells do not count: the mean of a column equals the mean of its
/// non-zero cells, and it fails exactly when there is no non-zero cell.
pub proof fn lemma_average_ignores_zeros(v: Seq<u64>)
    ensures
        average_of(nonzero(v)) == average_of(v),
        nonzero(nonzero(v)).len() == 0 <==> nonzero(v).len() == 0,
{
    lemma_nonzero_idempotent(v);
}

/// With zero tolerance and a zero expected ratio, backward consensus over at
/// least four cells whose first cell holds a quote returns that quote.
pub proof fn lemma_backwad_trivial_consensus(data: Seq<u64>)
    requires
        data.len() >= 4,
        data[0] != 0,
    ensures
        backwad_result(data, 0, 0) == Ok::<u64, DataError>(data[0]),
{
    lemma_count_within_len(nonzero(data), data[0], 0);
    let c = count_within(nonzero(data), data[0], 0);
    let n = nonzero(data).len() as int;
    lemma_nonzero_len(data);
    assert(c * 100 / n >= 0) by (nonlinear_arith)
        requires
            c >= 0,
            n > 0,
    ;
}

/// The weighted mean fails exactly when both of its sums are zero: over the
/// cells whose price and volume are both non-zero, the volume sum is zero
/// if and only if the price-times-volume sum is, and then no cell weighs.
pub proof fn lemma_weighted_sums_vanish_together(data: Seq<u64>, vol: Seq<u64>)
    ensures
        weighted_den(data, vol, data.len() as int) == 0 <==> weighted_num(
            data,
            vol,
            data.len() as int,
        ) == 0,
        weighted_den(data, vol, data.len() as int) == 0 ==> forall|i: int|
            0 <= i < data.len() ==> !weighs(data, vol, i),
{
    lemma_weighted_den_zero(data, vol, data.len() as int);
}

} // verus!
