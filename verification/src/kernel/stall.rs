//! When a job counts as stalled.

use vstd::prelude::*;

verus! {

/// Returns true if a job's lock has expired, which makes the job stalled.
/// Both times are milliseconds since the Unix epoch.
pub fn is_stalled(lock_expires_at: u64, now: u64) -> (stalled: bool)
    ensures
        stalled == (now > lock_expires_at),
{
    now > lock_expires_at
}

/// A lock holds up to and including the moment at which it expires; after that the job is
/// stalled, and stays so.
pub proof fn law_stalled_after_expiry(
    lock_expires_at: u64,
    now: u64,
    later: u64,
    stalled: bool,
    stalled_later: bool,
)
    requires
        call_ensures(is_stalled, (lock_expires_at, now), stalled),
        call_ensures(is_stalled, (lock_expires_at, later), stalled_later),
        now <= later,
    ensures
        now <= lock_expires_at ==> !stalled,
        now > lock_expires_at ==> stalled,
        stalled ==> stalled_later,
{
}

} // verus!
