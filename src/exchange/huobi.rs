use vstd::prelude::*;
use vstd::string::StringExecFns;

use crate::exchange::{lower_of, lowercase};
use crate::text::join2;

verus! {

pub const API_BASE_URL: &'static str = "https://api.huobi.pro/market/detail/merged";

pub const API_ALL_URL: &'static str = "https://api.huobi.pro//market/tickers";

/// URL of the merged ticker of one pair (the pair key in lower case).
pub fn get_latest_price_url(base: &str, currency: &str) -> (r: String)
    ensures
        r@ == API_BASE_URL@ + "?symbol="@ + lower_of(base@ + currency@),
{
    let pair = join2(base, currency);
    let lower = lowercase(pair.as_str());
    let mut s = join2(API_BASE_URL, "?symbol=");
    s.append(lower.as_str());
    s
}

/// Pair keys `lower(BASE + currency)` (e.g. `btcusdt`), by asset index.
pub fn get_pairs(bases: &Vec<String>, currency: &str) -> (r: Vec<String>)
    ensures
        r@.len() == bases@.len(),
        forall|i: int| 0 <= i < bases@.len() ==> #[trigger] r@[i]@ == lower_of(bases@[i]@ + currency@),
{
    let mut r: Vec<String> = Vec::new();
    let mut i: usize = 0;
    while i < bases.len()
        invariant
            i <= bases@.len(),
            r@.len() == i,
            forall|k: int| 0 <= k < i ==> #[trigger] r@[k]@ == lower_of(bases@[k]@ + currency@),
        decreases bases@.len() - i,
    {
        let pair = join2(bases[i].as_str(), currency);
        r.push(lowercase(pair.as_str()));
        i = i + 1;
    }
    r
}

/// URL of the tickers of every pair.
pub fn get_latest_price_url_v2() -> (r: String)
    ensures
        r@ == API_ALL_URL@,
{
    API_ALL_URL.to_owned()
}

} // verus!
