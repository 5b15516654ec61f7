use vstd::prelude::*;
use vstd::string::StringExecFns;

use crate::exchange::pair_keys;

verus! {

pub const API_BASE_URL: &'static str = "https://api.gateio.ws/api";

/// The API versions the endpoints use.
enum APIVersion {
    V4,
}

fn get_api_version_string(version: APIVersion) -> (r: String)
    ensures
        version is V4 ==> r@ == "v4"@,
{
    match version {
        APIVersion::V4 => "v4".to_owned(),
    }
}

/// Pair keys `BASE_currency`, by asset index.
pub fn get_pairs(bases: &Vec<String>, currency: &str) -> (r: Vec<String>)
    ensures
        r@.len() == bases@.len(),
        forall|i: int| 0 <= i < bases@.len() ==> #[trigger] r@[i]@ == bases@[i]@ + "_"@ + currency@,
{
    pair_keys(bases, "_", currency)
}

/// URL of the spot tickers of every pair.
pub fn get_latest_price_url_v2() -> (r: String)
    ensures
        r@ == ""@ + API_BASE_URL@ + "/"@ + "v4"@ + "/spot/tickers"@,
{
    let mut s = "".to_owned();
    s.append(API_BASE_URL);
    s.append("/");
    s.append(get_api_version_string(APIVersion::V4).as_str());
    s.append("/spot/tickers");
    s
}

} // verus!
