use vstd::prelude::*;
use vstd::string::StringExecFns;

use crate::text::push_char;

verus! {

/// Relies on `base64_light::base64_decode`: the bytes depend on the text alone.
pub uninterp spec fn base64_decoded(s: Seq<char>) -> Seq<u8>;

/// Relies on `bip39::Mnemonic::from_phrase` with `Language::English`:
/// whether it accepts depends on the phrase alone.
pub uninterp spec fn bip39_english_accepts(s: Seq<char>) -> bool;

/// Relies on `base64_light::base64_decode` to decode a base64 text.
#[verifier::external_body]
fn decode_base64(s: &str) -> (r: Vec<u8>)
    ensures
        r@ == base64_decoded(s@),
{
    base64_light::base64_decode(s)
}

/// Relies on `bip39::Mnemonic::from_phrase` to check an English BIP-39 phrase
/// (word list and checksum).
#[verifier::external_body]
fn bip39_english_ok(s: &str) -> (r: bool)
    ensures
        r == bip39_english_accepts(s@),
{
    match bip39::Mnemonic::from_phrase(s, bip39::Language::English) {
        Ok(_) => true,
        Err(_) => false,
    }
}

/// The credentials the wallet is initialised with; an empty string means absent.
#[derive(Debug, Clone)]
pub struct SuiKey {
    pub key: String,
    pub mnemonic: String,
}

/// A decoded private key is usable when it has 33 bytes, the first being
/// the scheme flag 0 (Ed25519).
pub open spec fn key_bytes_ok(b: Seq<u8>) -> bool {
    b.len() == 33 && b[0] == 0
}

/// Whether decoded private-key bytes have the expected shape.
pub fn key_bytes_valid(decoded: &Vec<u8>) -> (r: bool)
    ensures
        r == key_bytes_ok(decoded@),
{
    decoded.len() == 33 && decoded[0] == 0
}

/// Accepts a non-empty base64 text that decodes to 33 bytes starting with 0.
pub fn is_valid_base64_key(key: &str) -> (r: bool)
    ensures
        r == (key@.len() > 0 && key_bytes_ok(base64_decoded(key@))),
{
    if key.unicode_len() == 0 {
        return false;
    }
    let decoded = decode_base64(key);
    key_bytes_valid(&decoded)
}

/// Accepts a non-empty phrase that is a valid English BIP-39 mnemonic.
pub fn is_valid_mnemonic(mne: &str) -> (r: bool)
    ensures
        r == (mne@.len() > 0 && bip39_english_accepts(mne@)),
{
    if mne.unicode_len() == 0 {
        return false;
    }
    bip39_english_ok(mne)
}

/// The credentials in force: those typed in, then the `KEY` / `MNEMONIC`
/// environment variables where set, then the command-line flags where not
/// empty, each overriding the one before. `None` when both end up empty.
pub open spec fn merged_key(
    typed: (Seq<char>, Seq<char>),
    env_key: Option<Seq<char>>,
    env_mnemonic: Option<Seq<char>>,
    flag_key: Seq<char>,
    flag_mnemonic: Seq<char>,
) -> (Seq<char>, Seq<char>) {
    let k1 = match env_key {
        Some(k) => k,
        None => typed.0,
    };
    let m1 = match env_mnemonic {
        Some(m) => m,
        None => typed.1,
    };
    let k2 = if flag_key.len() > 0 { flag_key } else { k1 };
    let m2 = if flag_mnemonic.len() > 0 { flag_mnemonic } else { m1 };
    (k2, m2)
}

/// Layers the key sources as `merged_key` says; `None` when no key and no
/// mnemonic remain.
pub fn merge_keys(
    typed: SuiKey,
    env_key: Option<String>,
    env_mnemonic: Option<String>,
    flag_key: &str,
    flag_mnemonic: &str,
) -> (r: Option<SuiKey>)
    ensures
        ({
            let m = merged_key(
                (typed.key@, typed.mnemonic@),
                match env_key {
                    Some(k) => Some(k@),
                    None => None,
                },
                match env_mnemonic {
                    Some(k) => Some(k@),
                    None => None,
                },
                flag_key@,
                flag_mnemonic@,
            );
            match r {
                Some(k) => k.key@ == m.0 && k.mnemonic@ == m.1 && (m.0.len() > 0 || m.1.len() > 0),
                None => m.0.len() == 0 && m.1.len() == 0,
            }
        }),
{
    let mut key = typed.key;
    let mut mnemonic = typed.mnemonic;
    match env_key {
        Some(k) => {
            key = k;
        },
        None => {},
    }
    match env_mnemonic {
        Some(m) => {
            mnemonic = m;
        },
        None => {},
    }
    if flag_key.unicode_len() > 0 {
        key = flag_key.to_owned();
    }
    if flag_mnemonic.unicode_len() > 0 {
        mnemonic = flag_mnemonic.to_owned();
    }
    if key.as_str().unicode_len() == 0 && mnemonic.as_str().unicode_len() == 0 {
        return None;
    }
    Some(SuiKey { key, mnemonic })
}

/// Unicode `White_Space`, the set that `char::is_whitespace` tests.
pub open spec fn is_white_spec(c: char) -> bool {
    ('\u{9}' <= c && c <= '\u{d}') || c == ' ' || c == '\u{85}' || c == '\u{a0}' || c == '\u{1680}'
        || ('\u{2000}' <= c && c <= '\u{200a}') || c == '\u{2028}' || c == '\u{2029}' || c
        == '\u{202f}' || c == '\u{205f}' || c == '\u{3000}'
}

pub fn is_white(c: char) -> (r: bool)
    ensures
        r == is_white_spec(c),
{
    ('\u{9}' <= c && c <= '\u{d}') || c == ' ' || c == '\u{85}' || c == '\u{a0}' || c == '\u{1680}'
        || ('\u{2000}' <= c && c <= '\u{200a}') || c == '\u{2028}' || c == '\u{2029}' || c
        == '\u{202f}' || c == '\u{205f}' || c == '\u{3000}'
}

/// Index of the first character that is not white space (or the length).
pub open spec fn first_solid(s: Seq<char>, from: int) -> int
    decreases s.len() - from,
{
    if from >= s.len() || !is_white_spec(s[from]) {
        from
    } else {
        first_solid(s, from + 1)
    }
}

/// One past the last character before `to` that is not white space (or `lo`).
pub open spec fn last_solid(s: Seq<char>, lo: int, to: int) -> int
    decreases to - lo,
{
    if to <= lo || !is_white_spec(s[to - 1]) {
        to
    } else {
        last_solid(s, lo, to - 1)
    }
}

/// `s` without leading and trailing white space.
pub open spec fn trimmed(s: Seq<char>) -> Seq<char> {
    let a = first_solid(s, 0);
    s.subrange(a, last_solid(s, a, s.len() as int))
}

/// `t` with every white-space character that follows another one removed.
pub open spec fn collapsed(t: Seq<char>) -> Seq<char>
    decreases t.len(),
{
    if t.len() == 0 {
        Seq::empty()
    } else if t.len() >= 2 && is_white_spec(t.last()) && is_white_spec(t[t.len() - 2]) {
        collapsed(t.drop_last())
    } else {
        collapsed(t.drop_last()).push(t.last())
    }
}

/// Typed-in credentials, trimmed, with each run of white space cut to its
/// first character.
pub fn strip_input(input: &str) -> (r: String)
    ensures
        r@ == collapsed(trimmed(input@)),
{
    let n = input.unicode_len();
    let mut a: usize = 0;
    while a < n && is_white(input.get_char(a))
        invariant
            a <= n,
            n == input@.len(),
            first_solid(input@, 0) == first_solid(input@, a as int),
        decreases n - a,
    {
        a = a + 1;
    }
    let mut b: usize = n;
    while b > a && is_white(input.get_char(b - 1))
        invariant
            a <= b <= n,
            n == input@.len(),
            a == first_solid(input@, 0),
            last_solid(input@, a as int, n as int) == last_solid(input@, a as int, b as int),
        decreases b - a,
    {
        b = b - 1;
    }
    let ghost t = input@.subrange(a as int, b as int);
    assert(t == trimmed(input@));
    let mut r = String::new();
    let mut i: usize = a;
    while i < b
        invariant
            a <= i <= b <= n,
            n == input@.len(),
            t == input@.subrange(a as int, b as int),
            r@ == collapsed(t.subrange(0, i - a)),
        decreases b - i,
    {
        let c = input.get_char(i);
        let ghost u = t.subrange(0, i - a + 1);
        assert(u.drop_last() =~= t.subrange(0, i - a));
        assert(u.last() == c);
        if i > a && is_white(c) && is_white(input.get_char(i - 1)) {
            assert(u[u.len() - 2] == input@[i - 1]);
        } else {
            if i > a {
                assert(u[u.len() - 2] == input@[i - 1]);
            }
            push_char(&mut r, c);
        }
        i = i + 1;
    }
    assert(t.subrange(0, b - a) =~= t);
    r
}

} // verus!
