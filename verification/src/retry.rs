//! Retry policy: pure functions deciding whether a failed job is tried again
//! and when the next attempt is scheduled.
//!
//! Times are naive UTC timestamps measured in whole seconds; delays are
//! measured in whole minutes. The backoff is exponential without jitter:
//! the delay before the next attempt is `base_delay_minutes * 2^retries`.

use vstd::prelude::*;

verus! {

use vstd::arithmetic::power2::pow2;

/// Whether a job whose attempt count is `retries` gets another attempt when
/// the bound is `max_retries`.
pub open spec fn spec_should_retry(retries: int, max_retries: int) -> bool {
    retries < max_retries
}

/// Minutes to wait before the next attempt: `base_delay_minutes * 2^retries`.
pub open spec fn spec_delay_minutes(retries: nat, base_delay_minutes: u32) -> nat {
    (base_delay_minutes * pow2(retries)) as nat
}

/// The next scheduled time: `time` plus `base_delay_minutes * 2^retries`
/// minutes, expressed in seconds.
pub open spec fn spec_backoff(time: i64, retries: nat, base_delay_minutes: u32) -> int {
    time + 60 * spec_delay_minutes(retries, base_delay_minutes)
}

/// True when the exponential delay and the resulting time fit the machine
/// types, so that `backoff` can return the exact value.
pub open spec fn backoff_fits(time: i64, retries: int, base_delay_minutes: u32) -> bool {
    &&& 0 <= retries
    &&& pow2(retries as nat) <= u32::MAX
    &&& spec_delay_minutes(retries as nat, base_delay_minutes) <= u32::MAX
    &&& spec_backoff(time, retries as nat, base_delay_minutes) <= i64::MAX
}

pub fn should_retry(retries: i32, max_retries: i32) -> (r: bool)
    ensures
        r == spec_should_retry(retries as int, max_retries as int),
{
    retries < max_retries
}

pub fn calculate_delay_minutes(retries: i32, base_delay_minutes: u32) -> (r: u32)
    requires
        0 <= retries,
        pow2(retries as nat) <= u32::MAX,
        spec_delay_minutes(retries as nat, base_delay_minutes) <= u32::MAX,
    ensures
        r == spec_delay_minutes(retries as nat, base_delay_minutes),
{
    let mut p: u32 = 1;
    let mut i: i32 = 0;
    proof {
        vstd::arithmetic::power2::lemma2_to64();
    }
    while i < retries
        invariant
            0 <= i <= retries,
            p == pow2(i as nat),
            pow2(retries as nat) <= u32::MAX,
        decreases retries - i,
    {
        proof {
            if (i + 1) < retries {
                vstd::arithmetic::power2::lemma_pow2_strictly_increases(
                    (i + 1) as nat,
                    retries as nat,
                );
            }
            vstd::arithmetic::power2::lemma_pow2_unfold((i + 1) as nat);
        }
        p = p * 2;
        i = i + 1;
    }
    base_delay_minutes * p
}

pub fn backoff(time: i64, retries: i32, base_delay_minutes: u32) -> (r: i64)
    requires
        backoff_fits(time, retries as int, base_delay_minutes),
    ensures
        r == spec_backoff(time, retries as nat, base_delay_minutes),
{
    let delay_minutes = calculate_delay_minutes(retries, base_delay_minutes);
    time + 60 * (delay_minutes as i64)
}

} // verus!
