use vstd::prelude::*;

use crate::text::join3;

pub mod binance;
pub mod bitget;
pub mod bitmart;
pub mod coinbase;
pub mod crypto;
pub mod gate;
pub mod huobi;
pub mod kraken;
pub mod mexc;
pub mod okx;

verus! {

/// Relies on `str::to_lowercase`: the result depends on the characters alone.
pub uninterp spec fn lower_of(s: Seq<char>) -> Seq<char>;

/// Relies on `str::to_lowercase` to lower-case a pair key.
#[verifier::external_body]
pub(crate) fn lowercase(s: &str) -> (r: String)
    ensures
        r@ == lower_of(s@),
{
    s.to_lowercase()
}

/// The pair key of every base: `bases[i] + sep + currency`.
pub fn pair_keys(bases: &Vec<String>, sep: &str, currency: &str) -> (r: Vec<String>)
    ensures
        r@.len() == bases@.len(),
        forall|i: int| 0 <= i < bases@.len() ==> #[trigger] r@[i]@ == bases@[i]@ + sep@ + currency@,
{
    let mut r: Vec<String> = Vec::new();
    let mut i: usize = 0;
    while i < bases.len()
        invariant
            i <= bases@.len(),
            r@.len() == i,
            forall|k: int| 0 <= k < i ==> #[trigger] r@[k]@ == bases@[k]@ + sep@ + currency@,
        decreases bases@.len() - i,
    {
        r.push(join3(bases[i].as_str(), sep, currency));
        i = i + 1;
    }
    r
}

/// Index of the first pair key equal to `key`: where a response row goes.
pub open spec fn key_index(keys: Seq<String>, key: Seq<char>) -> Option<nat>
    decreases keys.len(),
{
    if keys.len() == 0 {
        None
    } else {
        match key_index(keys.drop_last(), key) {
            Some(i) => Some(i),
            None => if keys.last()@ == key {
                Some((keys.len() - 1) as nat)
            } else {
                None
            },
        }
    }
}

/// Index of the first pair key equal to `key`.
pub fn find_key(keys: &Vec<String>, key: &str) -> (r: Option<usize>)
    ensures
        match r {
            Some(i) => key_index(keys@, key@) == Some(i as nat) && i < keys@.len(),
            None => key_index(keys@, key@) is None,
        },
{
    let k = key.to_owned();
    let mut i: usize = 0;
    while i < keys.len()
        invariant
            i <= keys@.len(),
            k@ == key@,
            key_index(keys@.take(i as int), key@) is None,
        decreases keys@.len() - i,
    {
        assert(keys@.take(i as int + 1).drop_last() =~= keys@.take(i as int));
        if keys[i] == k {
            proof {
                lemma_key_index_prefix(keys@, key@, i as int + 1);
            }
            return Some(i);
        }
        i = i + 1;
    }
    assert(keys@.take(keys@.len() as int) =~= keys@);
    None
}

proof fn lemma_key_index_prefix(keys: Seq<String>, key: Seq<char>, n: int)
    requires
        0 < n <= keys.len(),
        key_index(keys.take(n), key) == Some((n - 1) as nat),
    ensures
        key_index(keys, key) == Some((n - 1) as nat),
    decreases keys.len(),
{
    if n < keys.len() {
        assert(keys.drop_last().take(n) =~= keys.take(n));
        lemma_key_index_prefix(keys.drop_last(), key, n);
    } else {
        assert(keys.take(n) =~= keys);
    }
}

} // verus!
