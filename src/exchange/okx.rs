use vstd::prelude::*;
use vstd::string::StringExecFns;

use crate::exchange::pair_keys;

verus! {

pub const API_BASE_URL: &'static str = "https://www.okx.com/api";

/// The API versions the endpoints use.
enum APIVersion {
    V5,
}

fn get_api_version_string(version: APIVersion) -> (r: String)
    ensures
        version is V5 ==> r@ == "v5"@,
{
    match version {
        APIVersion::V5 => "v5".to_owned(),
    }
}

/// Pair keys `BASE-currency`, by asset index.
pub fn get_pairs(bases: &Vec<String>, currency: &str) -> (r: Vec<String>)
    ensures
        r@.len() == bases@.len(),
        forall|i: int| 0 <= i < bases@.len() ==> #[trigger] r@[i]@ == bases@[i]@ + "-"@ + currency@,
{
    pair_keys(bases, "-", currency)
}

/// URL of the spot tickers of every pair.
pub fn get_latest_price_url_v2() -> (r: String)
    ensures
        r@ == ""@ + API_BASE_URL@ + "/"@ + "v5"@ + "/market/tickers?instType=SPOT"@,
{
    let mut s = "".to_owned();
    s.append(API_BASE_URL);
    s.append("/");
    s.append(get_api_version_string(APIVersion::V5).as_str());
    s.append("/market/tickers?instType=SPOT");
    s
}

} // verus!
