use vstd::prelude::*;
use vstd::string::StringExecFns;

use crate::exchange::pair_keys;

verus! {

pub const API_BASE_URL: &'static str = "https://api.bitget.com";

/// The API versions the endpoints use.
enum APIVersion {
    V1,
}

fn get_api_version_string(version: APIVersion) -> (r: String)
    ensures
        version is V1 ==> r@ == "v1"@,
{
    match version {
        APIVersion::V1 => "v1".to_owned(),
    }
}

/// Pair keys `BASE + currency`, by asset index.
pub fn get_pairs(bases: &Vec<String>, currency: &str) -> (r: Vec<String>)
    ensures
        r@.len() == bases@.len(),
        forall|i: int| 0 <= i < bases@.len() ==> #[trigger] r@[i]@ == bases@[i]@ + currency@,
{
    let r = pair_keys(bases, "", currency);
    proof {
        reveal_strlit("");
        assert forall|i: int| 0 <= i < bases@.len() implies #[trigger] r@[i]@ == bases@[i]@ + currency@ by {
            assert(bases@[i]@ + ""@ =~= bases@[i]@);
        }
    }
    r
}

/// URL of the spot tickers of every pair.
pub fn get_latest_price_url_v2() -> (r: String)
    ensures
        r@ == ""@ + API_BASE_URL@ + "/api/spot/"@ + "v1"@ + "/market/tickers"@,
{
    let mut s = "".to_owned();
    s.append(API_BASE_URL);
    s.append("/api/spot/");
    s.append(get_api_version_string(APIVersion::V1).as_str());
    s.append("/market/tickers");
    s
}

} // verus!
