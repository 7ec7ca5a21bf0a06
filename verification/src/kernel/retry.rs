//! Whether and when a failed job runs again.

use vstd::prelude::*;
use crate::kernel::backoff::{compute_delay, delay_after, BackoffStrategy};

verus! {

/// Whether a job that has been attempted `attempts_made` times may be attempted once more.
pub fn should_retry(attempts_made: u32, max_attempts: u32) -> (retry: bool)
    ensures
        retry == (attempts_made < max_attempts),
{
    attempts_made < max_attempts
}

/// The delay before the next retry; without a strategy the retry is immediate.
pub open spec fn retry_delay(strategy: Option<BackoffStrategy>, attempt: nat) -> int {
    match strategy {
        Some(s) => delay_after(s, attempt),
        None => 0,
    }
}

/// Returns the delay in milliseconds before the next retry. 0 means immediate.
pub fn next_retry_delay(strategy: Option<&BackoffStrategy>, attempt: u32) -> (delay: u64)
    ensures
        delay == retry_delay(
            match strategy {
                Some(s) => Some(*s),
                None => None,
            },
            attempt as nat,
        ),
{
    match strategy {
        Some(s) => compute_delay(s, attempt),
        None => 0,
    }
}

/// A job is attempted as often as it may be, and no more often: there is a next attempt exactly
/// while fewer were made than are allowed, so that one more allowed attempt gives one more.
pub proof fn law_attempts_used_up(made: u32, allowed: u32, retry: bool, once_more: bool)
    requires
        made < u32::MAX,
        allowed < u32::MAX,
        call_ensures(should_retry, (made, allowed), retry),
        call_ensures(should_retry, ((made + 1) as u32, (allowed + 1) as u32), once_more),
    ensures
        retry == once_more,
        allowed == 0 ==> !retry,
        made < allowed ==> retry,
        made >= allowed ==> !retry,
{
}

/// Without a strategy the retry is immediate; with one it waits as long as the strategy says.
pub proof fn law_next_retry_delay(
    strategy: BackoffStrategy,
    attempt: u32,
    without: u64,
    delay: u64,
    computed: u64,
)
    requires
        call_ensures(next_retry_delay, (None::<&BackoffStrategy>, attempt), without),
        call_ensures(next_retry_delay, (Some(&strategy), attempt), delay),
        call_ensures(compute_delay, (&strategy, attempt), computed),
    ensures
        without == 0,
        delay == computed,
{
}

} // verus!
