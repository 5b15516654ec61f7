use vstd::prelude::*;

use crate::exchange::{find_key, key_index};

verus! {

/// One row of an exchange's ticker response, numbers already in
/// `PRICE_UNIT` fixed point.
#[derive(Debug, Clone)]
pub struct QuoteRow {
    /// The exchange's pair key (e.g. `BTCUSDT`).
    pub key: String,
    pub price: u64,
    pub volume: u64,
    /// When the exchange stamped the quote (ms since the epoch), if it does.
    pub ts: Option<u64>,
}

/// A quote is fresh unless it carries a time more than `max_staleness_ms` ago.
pub open spec fn row_fresh(row: QuoteRow, now_ms: u64, max_staleness_ms: u64) -> bool {
    match row.ts {
        None => true,
        Some(t) => !(now_ms > t && now_ms - t > max_staleness_ms),
    }
}

/// Prices and volumes after the first `n` rows were applied to zeroed
/// arrays: a fresh row whose key is known writes the cell of its asset.
pub open spec fn filled(
    keys: Seq<String>,
    rows: Seq<QuoteRow>,
    now_ms: u64,
    max_staleness_ms: u64,
    n: int,
) -> (Seq<u64>, Seq<u64>)
    decreases n,
{
    if n <= 0 {
        (Seq::new(keys.len(), |i: int| 0u64), Seq::new(keys.len(), |i: int| 0u64))
    } else {
        let prev = filled(keys, rows, now_ms, max_staleness_ms, n - 1);
        let row = rows[n - 1];
        match key_index(keys, row.key@) {
            Some(i) => if row_fresh(row, now_ms, max_staleness_ms) {
                (prev.0.update(i as int, row.price), prev.1.update(i as int, row.volume))
            } else {
                prev
            },
            None => prev,
        }
    }
}

/// Aligns an exchange's response to the asset order: `keys[i]` is the pair
/// key of asset `i`; rows with an unknown key, or stale, are left out, and
/// assets without a row stay at zero.
pub fn fill_quotes(keys: &Vec<String>, rows: &Vec<QuoteRow>, now_ms: u64, max_staleness_ms: u64) -> (r: (
    Vec<u64>,
    Vec<u64>,
))
    ensures
        r.0@ == filled(keys@, rows@, now_ms, max_staleness_ms, rows@.len() as int).0,
        r.1@ == filled(keys@, rows@, now_ms, max_staleness_ms, rows@.len() as int).1,
        r.0@.len() == keys@.len(),
        r.1@.len() == keys@.len(),
{
    let mut prices = vec![0u64; keys.len()];
    let mut volumes = vec![0u64; keys.len()];
    proof {
        assert(prices@ =~= Seq::new(keys@.len(), |i: int| 0u64));
        assert(volumes@ =~= Seq::new(keys@.len(), |i: int| 0u64));
    }
    let mut j: usize = 0;
    while j < rows.len()
        invariant
            j <= rows@.len(),
            prices@ == filled(keys@, rows@, now_ms, max_staleness_ms, j as int).0,
            volumes@ == filled(keys@, rows@, now_ms, max_staleness_ms, j as int).1,
            prices@.len() == keys@.len(),
            volumes@.len() == keys@.len(),
        decreases rows@.len() - j,
    {
        let row = &rows[j];
        match find_key(keys, row.key.as_str()) {
            Some(i) => {
                let fresh = match row.ts {
                    None => true,
                    Some(t) => !(now_ms > t && now_ms - t > max_staleness_ms),
                };
                if fresh {
                    prices.set(i, row.price);
                    volumes.set(i, row.volume);
                }
            },
            None => {},
        }
        j = j + 1;
    }
    (prices, volumes)
}

/// What an exchange task left for its slot of the matrix.
#[derive(Debug, Clone)]
pub enum AdapterOutcome {
    /// Prices and volumes for every asset, in asset order.
    Row { prices: Vec<u64>, volumes: Vec<u64> },
    /// One price, for one asset (exchanges that quote USDT only).
    Single { asset: usize, price: u64 },
    /// The request or its parsing failed: the row stays empty.
    Failed,
}

pub open spec fn is_digit(c: char) -> bool {
    '0' <= c && c <= '9'
}

pub open spec fn digit_val(c: char) -> int {
    (c as int) - ('0' as int)
}

pub open spec fn all_digits(s: Seq<char>) -> bool {
    forall|i: int| 0 <= i < s.len() ==> is_digit(#[trigger] s[i])
}

/// The number that a run of decimal digits spells.
pub open spec fn digits_value(s: Seq<char>) -> int
    decreases s.len(),
{
    if s.len() == 0 {
        0
    } else {
        digits_value(s.drop_last()) * 10 + digit_val(s.last())
    }
}

/// The first `k` fraction digits of `f` as an integer, padded with zeros.
pub open spec fn frac_value(f: Seq<char>, k: nat) -> int
    decreases k,
{
    if k == 0 {
        0
    } else {
        frac_value(f, (k - 1) as nat) * 10 + if k - 1 < f.len() {
            digit_val(f[k - 1])
        } else {
            0
        }
    }
}

/// Position of the first `'.'`.
pub open spec fn point_index(s: Seq<char>) -> Option<int>
    decreases s.len(),
{
    if s.len() == 0 {
        None
    } else {
        match point_index(s.drop_last()) {
            Some(p) => Some(p),
            None => if s.last() == '.' {
                Some(s.len() - 1)
            } else {
                None
            },
        }
    }
}

/// Digits of a plain decimal number in `PRICE_UNIT` fixed point:
/// `whole[.fraction]`, at least one digit, fraction digits past the ninth
/// truncated.
pub open spec fn decimal_fixed(s: Seq<char>) -> Option<int> {
    let w = match point_index(s) {
        Some(p) => s.take(p),
        None => s,
    };
    let f = match point_index(s) {
        Some(p) => s.skip(p + 1),
        None => Seq::empty(),
    };
    if all_digits(w) && all_digits(f) && w.len() + f.len() > 0 {
        Some(digits_value(w) * 1_000_000_000 + frac_value(f, 9))
    } else {
        None
    }
}

proof fn lemma_digits_prefix(s: Seq<char>, i: int)
    requires
        0 <= i <= s.len(),
        all_digits(s),
    ensures
        digits_value(s.take(i)) <= digits_value(s),
        0 <= digits_value(s.take(i)),
    decreases s.len(),
{
    if i < s.len() {
        assert(s.drop_last().take(i) =~= s.take(i));
        lemma_digits_prefix(s.drop_last(), i);
        lemma_digits_prefix(s.drop_last(), s.len() - 1);
        assert(s.take(s.len() - 1) =~= s.drop_last());
    } else {
        assert(s.take(i) =~= s);
        if s.len() > 0 {
            lemma_digits_prefix(s.drop_last(), s.len() - 1);
            assert(s.drop_last().take(s.len() - 1) =~= s.drop_last());
        }
    }
}

proof fn lemma_point_none(s: Seq<char>, p: int)
    requires
        0 <= p <= s.len(),
        forall|k: int| 0 <= k < p ==> s[k] != '.',
    ensures
        point_index(s.take(p)) is None,
    decreases p,
{
    if p > 0 {
        assert(s.take(p).drop_last() =~= s.take(p - 1));
        lemma_point_none(s, p - 1);
    }
}

proof fn lemma_point_found(s: Seq<char>, p: int)
    requires
        0 <= p <= s.len(),
        forall|k: int| 0 <= k < p ==> s[k] != '.',
        p < s.len() ==> s[p] == '.',
    ensures
        p < s.len() ==> point_index(s) == Some(p),
        p == s.len() ==> point_index(s) is None,
    decreases s.len(),
{
    if p < s.len() {
        if p < s.len() - 1 {
            lemma_point_found(s.drop_last(), p);
        } else {
            lemma_point_none(s, p);
            assert(s.take(p) =~= s.drop_last());
        }
    } else {
        lemma_point_none(s, p);
        assert(s.take(p) =~= s);
    }
}

/// Why a number text was refused.
#[derive(Debug, Clone, Copy, PartialEq, Eq, Structural)]
pub enum ParseError {
    /// Not a plain decimal number.
    Malformed,
    /// Its fixed-point value does not fit in a `u64`.
    TooLarge,
}

/// A plain decimal text (e.g. `"30000.125"`) in `PRICE_UNIT` fixed point.
pub fn parse_price(s: &str) -> (r: Result<u64, ParseError>)
    ensures
        r == match decimal_fixed(s@) {
            Some(v) => if v <= u64::MAX {
                Ok(v as u64)
            } else {
                Err(ParseError::TooLarge)
            },
            None => Err(ParseError::Malformed),
        },
{
    let n = s.unicode_len();
    let ghost t = s@;
    let mut p: usize = 0;
    while p < n && s.get_char(p) != '.'
        invariant
            p <= n,
            n == t.len(),
            t == s@,
            forall|k: int| 0 <= k < p ==> t[k] != '.',
        decreases n - p,
    {
        p = p + 1;
    }
    proof {
        lemma_point_found(t, p as int);
    }
    let ghost w = t.take(p as int);
    let ghost f = if p < n { t.skip(p as int + 1) } else { Seq::<char>::empty() };
    assert(w == match point_index(t) { Some(q) => t.take(q), None => t }) by {
        if p == n {
            assert(t.take(p as int) =~= t);
        }
    }
    let fstart: usize = if p < n { p + 1 } else { n };
    assert(f =~= t.subrange(fstart as int, n as int));
    assert(f == match point_index(t) { Some(q) => t.skip(q + 1), None => Seq::<char>::empty() });
    // every fraction character must be a digit
    let mut j: usize = fstart;
    while j < n
        invariant
            fstart <= j <= n,
            n == t.len(),
            t == s@,
            f =~= t.subrange(fstart as int, n as int),
            f == match point_index(t) { Some(q) => t.skip(q + 1), None => Seq::<char>::empty() },
            w == match point_index(t) { Some(q) => t.take(q), None => t },
            forall|k: int| fstart <= k < j ==> is_digit(t[k]),
        decreases n - j,
    {
        let c = s.get_char(j);
        if !('0' <= c && c <= '9') {
            assert(!all_digits(f)) by {
                assert(f[j - fstart] == t[j as int]);
            }
            return Err(ParseError::Malformed);
        }
        j = j + 1;
    }
    assert(all_digits(f)) by {
        assert forall|i: int| 0 <= i < f.len() implies is_digit(#[trigger] f[i]) by {
            assert(f[i] == t[fstart + i]);
        }
    }
    if p + (n - fstart) == 0 {
        return Err(ParseError::Malformed);
    }
    let mut m: usize = 0;
    while m < p
        invariant
            m <= p <= n,
            n == t.len(),
            t == s@,
            w == t.take(p as int),
            w == match point_index(t) { Some(q) => t.take(q), None => t },
            forall|k: int| 0 <= k < m ==> is_digit(t[k]),
        decreases p - m,
    {
        let c = s.get_char(m);
        if !('0' <= c && c <= '9') {
            assert(!all_digits(w)) by {
                assert(w[m as int] == t[m as int]);
            }
            return Err(ParseError::Malformed);
        }
        m = m + 1;
    }
    assert(all_digits(w)) by {
        assert forall|i: int| 0 <= i < w.len() implies is_digit(#[trigger] w[i]) by {
            assert(w[i] == t[i]);
        }
    }
    let mut whole: u64 = 0;
    let mut i: usize = 0;
    while i < p
        invariant
            i <= p <= n,
            n == t.len(),
            t == s@,
            w == t.take(p as int),
            all_digits(w),
            all_digits(w.take(i as int)),
            whole == digits_value(w.take(i as int)),
            w == match point_index(t) { Some(q) => t.take(q), None => t },
            f == match point_index(t) { Some(q) => t.skip(q + 1), None => Seq::<char>::empty() },
            f =~= t.subrange(fstart as int, n as int),
            fstart <= n,
            p + (n - fstart) > 0,
            all_digits(f),
        decreases p - i,
    {
        let c = s.get_char(i);
        assert(w.take(i as int + 1).drop_last() =~= w.take(i as int));
        assert(w.take(i as int + 1).last() == c);
        assert(w[i as int] == c);
        let d = (c as u32 - '0' as u32) as u64;
        if whole > (u64::MAX - d) / 10 {
            proof {
                assert(all_digits(w.take(i as int + 1))) by {
                    assert forall|k: int| 0 <= k < i + 1 implies is_digit(#[trigger] w.take(i as int + 1)[k]) by {
                        if k < i {
                            assert(w.take(i as int + 1)[k] == w.take(i as int)[k]);
                        }
                    }
                }
                assert(digits_value(w.take(i as int + 1)) > u64::MAX);
                lemma_frac_nonneg(f, 9);
                if all_digits(w) {
                    lemma_digits_prefix(w, i as int + 1);
                    let dv = digits_value(w);
                    let fv = frac_value(f, 9);
                    assert(dv * 1_000_000_000 + fv > u64::MAX) by (nonlinear_arith)
                        requires
                            dv > u64::MAX,
                            fv >= 0,
                    ;
                }
            }
            return Err(ParseError::TooLarge);
        }
        whole = whole * 10 + d;
        assert(all_digits(w.take(i as int + 1))) by {
            assert forall|k: int| 0 <= k < i + 1 implies is_digit(#[trigger] w.take(i as int + 1)[k]) by {
                if k < i {
                    assert(w.take(i as int + 1)[k] == w.take(i as int)[k]);
                }
            }
        }
        i = i + 1;
    }
    assert(w.take(p as int) =~= w);
    let mut frac: u64 = 0;
    let mut k: usize = 0;
    while k < 9
        invariant
            k <= 9,
            fstart <= n,
            n == t.len(),
            t == s@,
            f =~= t.subrange(fstart as int, n as int),
            all_digits(f),
            frac == frac_value(f, k as nat),
            frac < pow10_small(k as nat),
        decreases 9 - k,
    {
        proof {
            lemma_pow10_small_bound(k as nat);
        }
        let d: u64 = if k < n - fstart {
            let c = s.get_char(fstart + k);
            assert(c == f[k as int]);
            (c as u32 - '0' as u32) as u64
        } else {
            0
        };
        frac = frac * 10 + d;
        k = k + 1;
    }
    proof {
        lemma_pow10_small_bound(8);
    }
    let total: u128 = whole as u128 * 1_000_000_000 + frac as u128;
    if total > u64::MAX as u128 {
        Err(ParseError::TooLarge)
    } else {
        Ok(total as u64)
    }
}

/// A traded quantity in `PRICE_UNIT` fixed point, capped at the largest
/// `u64` (it only weighs prices against each other); `None` when the text is
/// not a plain decimal number.
pub fn parse_volume(s: &str) -> (r: Option<u64>)
    ensures
        r == match decimal_fixed(s@) {
            Some(v) => Some(if v <= u64::MAX { v as u64 } else { u64::MAX }),
            None => None::<u64>,
        },
{
    match parse_price(s) {
        Ok(v) => Some(v),
        Err(ParseError::TooLarge) => Some(u64::MAX),
        Err(ParseError::Malformed) => None,
    }
}

proof fn lemma_frac_nonneg(f: Seq<char>, k: nat)
    requires
        all_digits(f),
    ensures
        frac_value(f, k) >= 0,
    decreases k,
{
    if k > 0 {
        lemma_frac_nonneg(f, (k - 1) as nat);
    }
}

proof fn lemma_pow10_small_bound(k: nat)
    requires
        k < 9,
    ensures
        pow10_small(k) >= 1,
        10 * pow10_small(k) <= 1_000_000_000,
{
    reveal_with_fuel(pow10_small, 10);
    if k == 0 {
    } else if k == 1 {
    } else if k == 2 {
    } else if k == 3 {
    } else if k == 4 {
    } else if k == 5 {
    } else if k == 6 {
    } else if k == 7 {
    } else {
    }
}

pub open spec fn pow10_small(k: nat) -> int
    decreases k,
{
    if k == 0 { 1 } else { 10 * pow10_small((k - 1) as nat) }
}

} // verus!
