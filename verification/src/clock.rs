//! The wall clock, in whole seconds.

use std::time::{SystemTime, UNIX_EPOCH};
use vstd::prelude::*;

verus! {

/// `SystemTime::now`: the seconds since the Unix epoch by the machine's
/// clock, zero for a clock set before the epoch. Nothing is promised of it.
#[verifier::external_body]
pub(crate) fn unix_now() -> u64 {
    match SystemTime::now().duration_since(UNIX_EPOCH) {
        Ok(d) => d.as_secs(),
        Err(_) => 0,
    }
}

/// Whether `now` lies more than `ttl` seconds after `stamp`.
pub open spec fn older_than(stamp: u64, ttl: u64, now: u64) -> bool {
    now > stamp + ttl
}

/// Whether `now` lies more than `ttl` seconds after `stamp`, computed
/// without overflow.
pub fn is_older_than(stamp: u64, ttl: u64, now: u64) -> (r: bool)
    ensures
        r == older_than(stamp, ttl, now),
{
    now >= stamp && now - stamp > ttl
}

} // verus!
