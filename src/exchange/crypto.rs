use vstd::prelude::*;
use vstd::string::StringExecFns;

use crate::exchange::pair_keys;

verus! {

pub const API_BASE_URL: &'static str = "https://api.crypto.com";

/// The API versions the endpoints use.
enum APIVersion {
    V2,
}

fn get_api_version_string(version: APIVersion) -> (r: String)
    ensures
        version is V2 ==> r@ == "v2"@,
{
    match version {
        APIVersion::V2 => "v2".to_owned(),
    }
}

/// Pair keys `BASE_currency`, by asset index.
pub fn get_pairs(bases: &Vec<String>, currency: &str) -> (r: Vec<String>)
    ensures
        r@.len() == bases@.len(),
        forall|i: int| 0 <= i < bases@.len() ==> #[trigger] r@[i]@ == bases@[i]@ + "_"@ + currency@,
{
    pair_keys(bases, "_", currency)
}

/// URL of the single-instrument ticker.
pub fn get_latest_price_url(base: &str, currency: &str) -> (r: String)
    ensures
        r@ == ""@ + API_BASE_URL@ + "/"@ + "v2"@ + "/public/get-ticker?instrument_name="@ + base@ + "_"@ + currency@,
{
    let mut s = "".to_owned();
    s.append(API_BASE_URL);
    s.append("/");
    s.append(get_api_version_string(APIVersion::V2).as_str());
    s.append("/public/get-ticker?instrument_name=");
    s.append(base);
    s.append("_");
    s.append(currency);
    s
}

} // verus!
