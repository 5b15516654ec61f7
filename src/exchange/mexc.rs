use vstd::prelude::*;
use vstd::string::StringExecFns;

use crate::exchange::pair_keys;

verus! {

pub const API_BASE_URL: &'static str = "https://api.mexc.com/api";

/// The API versions the endpoints use.
enum APIVersion {
    V3,
}

fn get_api_version_string(version: APIVersion) -> (r: String)
    ensures
        version is V3 ==> r@ == "v3"@,
{
    match version {
        APIVersion::V3 => "v3".to_owned(),
    }
}

/// Pair keys `BASE + currency`, by asset index.
pub fn get_pairs(bases: &Vec<String>, currency: &str) -> (r: Vec<String>)
    ensures
        r@.len() == bases@.len(),
        forall|i: int| 0 <= i < bases@.len() ==> #[trigger] r@[i]@ == bases@[i]@ + currency@,
{
    let r = pair_keys(bases, "", currency);
    proof {
        reveal_strlit("");
        assert forall|i: int| 0 <= i < bases@.len() implies #[trigger] r@[i]@ == bases@[i]@ + currency@ by {
            assert(bases@[i]@ + ""@ =~= bases@[i]@);
        }
    }
    r
}

/// URL of the 24-hour tickers of every pair.
pub fn get_latest_price_url_v2() -> (r: String)
    ensures
        r@ == ""@ + API_BASE_URL@ + "/"@ + "v3"@ + "/ticker/24hr"@,
{
    let mut s = "".to_owned();
    s.append(API_BASE_URL);
    s.append("/");
    s.append(get_api_version_string(APIVersion::V3).as_str());
    s.append("/ticker/24hr");
    s
}

} // verus!
