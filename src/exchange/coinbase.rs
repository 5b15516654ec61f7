use vstd::prelude::*;
use vstd::string::StringExecFns;

use crate::exchange::pair_keys;

verus! {

pub const API_BASE_URL: &'static str = "https://api.coinbase.com";

/// The API versions the endpoints use.
enum APIVersion {
    V2,
}

fn get_api_version_string(version: APIVersion) -> (r: String)
    ensures
        version is V2 ==> r@ == "v2"@,
{
    match version {
        APIVersion::V2 => "v2".to_owned(),
    }
}

/// Pair keys: the bases themselves, by asset index; the currency is not used.
pub fn get_pairs(bases: &Vec<String>, currency: &str) -> (r: Vec<String>)
    ensures
        r@.len() == bases@.len(),
        forall|i: int| 0 <= i < bases@.len() ==> #[trigger] r@[i]@ == bases@[i]@,
{
    let mut r: Vec<String> = Vec::new();
    let mut i: usize = 0;
    while i < bases.len()
        invariant
            i <= bases@.len(),
            r@.len() == i,
            forall|k: int| 0 <= k < i ==> #[trigger] r@[k]@ == bases@[k]@,
        decreases bases@.len() - i,
    {
        r.push(bases[i].clone());
        i = i + 1;
    }
    r
}

/// URL of the spot price of one pair.
pub fn get_latest_price_url(base: &str, currency: &str) -> (r: String)
    ensures
        r@ == ""@ + API_BASE_URL@ + "/"@ + "v2"@ + "/prices/"@ + base@ + "-"@ + currency@ + "/spot"@,
{
    let mut s = "".to_owned();
    s.append(API_BASE_URL);
    s.append("/");
    s.append(get_api_version_string(APIVersion::V2).as_str());
    s.append("/prices/");
    s.append(base);
    s.append("-");
    s.append(currency);
    s.append("/spot");
    s
}

} // verus!
