use vstd::prelude::*;
use vstd::string::StringExecFns;

use crate::exchange::pair_keys;
use crate::text::{join2, join3};

verus! {

pub const API_BASE_URL: &'static str = "https://api.binance.com";

pub const API_BASE_US_URL: &'static str = "https://api.binance.us";

/// The API version the endpoints use.
enum APIVersion {
    V3,
}

fn get_api_version_string(version: APIVersion) -> (r: String)
    ensures
        r@ == "v3"@,
{
    match version {
        APIVersion::V3 => "v3".to_owned(),
    }
}

/// URL of the single-pair ticker on the US endpoint.
pub fn get_latest_price_url(base: &str, currency: &str) -> (r: String)
    ensures
        r@ == API_BASE_US_URL@ + "/api/"@ + "v3"@ + "/ticker?symbol="@ + base@ + currency@,
{
    let mut s = join3(API_BASE_US_URL, "/api/", get_api_version_string(APIVersion::V3).as_str());
    s.append("/ticker?symbol=");
    s.append(base);
    s.append(currency);
    s
}

/// Pair keys `BASE + currency` (e.g. `BTCUSDT`), by asset index.
pub fn get_pairs(bases: &Vec<String>, currency: &str) -> (r: Vec<String>)
    ensures
        r@.len() == bases@.len(),
        forall|i: int| 0 <= i < bases@.len() ==> #[trigger] r@[i]@ == bases@[i]@ + currency@,
{
    let r = pair_keys(bases, "", currency);
    proof {
        reveal_strlit("");
    }
    assert forall|i: int| 0 <= i < bases@.len() implies #[trigger] r@[i]@ == bases@[i]@ + currency@ by {
        assert(bases@[i]@ + ""@ =~= bases@[i]@);
    }
    r
}

/// Quoted pair keys of every base but USDT, separated by commas.
pub open spec fn quoted_symbols(bases: Seq<String>, currency: Seq<char>) -> Seq<char>
    decreases bases.len(),
{
    if bases.len() == 0 {
        Seq::empty()
    } else {
        let prev = quoted_symbols(bases.drop_last(), currency);
        if bases.last()@ == "USDT"@ {
            prev
        } else if prev.len() == 0 {
            bases.last()@ + currency
        } else {
            prev + "\",\""@ + bases.last()@ + currency
        }
    }
}

/// URL of the multi-pair mini ticker for every base but USDT.
pub fn get_latest_price_url_v2(bases: &Vec<String>, currency: &str) -> (r: String)
    ensures
        r@ == API_BASE_URL@ + "/api/"@ + "v3"@ + "/ticker?type=MINI&symbols=[\""@ + quoted_symbols(
            bases@,
            currency@,
        ) + "\"]"@,
{
    let usdt = "USDT".to_owned();
    let mut joined = "".to_owned();
    proof {
        reveal_strlit("");
        assert(bases@.take(0) =~= Seq::<String>::empty());
    }
    let mut i: usize = 0;
    while i < bases.len()
        invariant
            i <= bases@.len(),
            usdt@ == "USDT"@,
            joined@ == quoted_symbols(bases@.take(i as int), currency@),
        decreases bases@.len() - i,
    {
        assert(bases@.take(i as int + 1).drop_last() =~= bases@.take(i as int));
        if bases[i] != usdt {
            if joined.unicode_len() == 0 {
                joined = join2(bases[i].as_str(), currency);
            } else {
                joined.append("\",\"");
                joined.append(bases[i].as_str());
                joined.append(currency);
            }
        }
        i = i + 1;
    }
    assert(bases@.take(bases@.len() as int) =~= bases@);
    let mut s = join3(API_BASE_URL, "/api/", get_api_version_string(APIVersion::V3).as_str());
    s.append("/ticker?type=MINI&symbols=[\"");
    s.append(joined.as_str());
    s.append("\"]");
    s
}

} // verus!
