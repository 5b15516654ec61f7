use vstd::prelude::*;
use vstd::string::StringExecFns;

use crate::exchange::pair_keys;

verus! {

pub const API_BASE_URL: &'static str = "https://api.kraken.com";

/// The API versions the endpoints use.
enum APIVersion {
    V0,
}

fn get_api_version_string(version: APIVersion) -> (r: String)
    ensures
        version is V0 ==> r@ == "0"@,
{
    match version {
        APIVersion::V0 => "0".to_owned(),
    }
}

/// Pair keys `BASE + "ZUSD"`, by asset index; the currency is not used.
pub fn get_pairs(bases: &Vec<String>, currency: &str) -> (r: Vec<String>)
    ensures
        r@.len() == bases@.len(),
        forall|i: int| 0 <= i < bases@.len() ==> #[trigger] r@[i]@ == bases@[i]@ + ""@ + "ZUSD"@,
{
    pair_keys(bases, "", "ZUSD")
}

/// URL of the single-pair ticker.
pub fn get_latest_price_url(base: &str, currency: &str) -> (r: String)
    ensures
        r@ == ""@ + API_BASE_URL@ + "/"@ + "0"@ + "/public/Ticker?pair="@ + base@ + currency@,
{
    let mut s = "".to_owned();
    s.append(API_BASE_URL);
    s.append("/");
    s.append(get_api_version_string(APIVersion::V0).as_str());
    s.append("/public/Ticker?pair=");
    s.append(base);
    s.append(currency);
    s
}

} // verus!
