use vstd::prelude::*;

verus! {

/// Relies on `std::time::SystemTime::now` and `duration_since(UNIX_EPOCH)`:
/// whole seconds since the epoch, `None` when the clock is before it. Any
/// value may come back.
#[verifier::external_body]
fn unix_secs() -> (r: Option<u64>) {
    match std::time::SystemTime::now().duration_since(std::time::UNIX_EPOCH) {
        Ok(n) => Some(n.as_secs()),
        Err(_) => None,
    }
}

/// Milliseconds for a clock reading in whole seconds: `secs · 1000`, capped
/// at the largest `u64`; 0 when the clock is before the epoch.
pub fn millis_of(secs: Option<u64>) -> (r: u64)
    ensures
        r == match secs {
            Some(s) => if s * 1000 > u64::MAX { u64::MAX as int } else { s * 1000 },
            None => 0,
        },
{
    match secs {
        Some(s) => {
            if s > u64::MAX / 1000 {
                u64::MAX
            } else {
                s * 1000
            }
        },
        None => 0,
    }
}

/// The time now in milliseconds since the epoch, at whole-second resolution.
pub fn get_timestamp() -> (r: u64)
    ensures
        r % 1000 == 0 || r == u64::MAX,
{
    millis_of(unix_secs())
}

} // verus!
