//! Retry limits and the exponential backoff schedule shared by both stages.
//!
//! A failed attempt number `n` is retried after `100 ms * 2^n`. Retries are
//! only ever scheduled for attempts below the per-stage limit, so the
//! exponent never exceeds [`BACKOFF_ATTEMPT_CEILING`]; larger attempt numbers
//! are clamped to it.

use vstd::prelude::*;

verus! {

/// A signing attempt numbered this high or higher is not retried when it fails.
pub const MAX_SIGNING_ATTEMPTS: u64 = 16;

/// A submission attempt numbered this high or higher is not retried when it fails.
pub const MAX_EXECUTION_ATTEMPTS: u64 = 16;

/// Delay after the failure of attempt zero, in milliseconds.
pub const BASE_DELAY_MS: u64 = 100;

/// The highest attempt number after which a retry is still scheduled.
pub const BACKOFF_ATTEMPT_CEILING: u64 = 15;

/// The longest delay of the schedule, in milliseconds: `100 * 2^15`.
pub const MAX_DELAY_MS: u64 = 3_276_800;

/// Two to the power `e`.
pub open spec fn pow2(e: nat) -> nat
    decreases e,
{
    if e == 0 {
        1
    } else {
        2 * pow2((e - 1) as nat)
    }
}

/// The attempt number that the schedule uses for `attempt`: the number
/// itself up to the ceiling, the ceiling above it.
pub open spec fn capped_attempt(attempt: u64) -> nat {
    if attempt <= BACKOFF_ATTEMPT_CEILING {
        attempt as nat
    } else {
        BACKOFF_ATTEMPT_CEILING as nat
    }
}

/// The delay, in milliseconds, between the failure of attempt `attempt` and
/// the launch of the next one: `100 * 2^attempt`.
pub open spec fn backoff_ms(attempt: u64) -> nat {
    BASE_DELAY_MS as nat * pow2(capped_attempt(attempt))
}

/// `pow2` never decreases.
pub proof fn lemma_pow2_monotonic(a: nat, b: nat)
    requires
        a <= b,
    ensures
        pow2(a) <= pow2(b),
    decreases b,
{
    if a < b {
        lemma_pow2_monotonic(a, (b - 1) as nat);
    }
}

/// `pow2` is positive, and `2^15` is 32768.
pub proof fn lemma_pow2_values()
    ensures
        forall|e: nat| pow2(e) >= 1,
        pow2(15) == 32768,
{
    assert forall|e: nat| pow2(e) >= 1 by {
        lemma_pow2_monotonic(0, e);
    }
    reveal_with_fuel(pow2, 16);
}

/// Computes the backoff delay in milliseconds for a failed attempt.
pub fn delay_ms(attempt_times: u64) -> (ms: u64)
    ensures
        ms == backoff_ms(attempt_times),
        BASE_DELAY_MS <= ms <= MAX_DELAY_MS,
{
    let capped: u64 = if attempt_times <= BACKOFF_ATTEMPT_CEILING {
        attempt_times
    } else {
        BACKOFF_ATTEMPT_CEILING
    };
    let mut ms: u64 = BASE_DELAY_MS;
    let mut doubled: u64 = 0;
    proof {
        lemma_pow2_values();
    }
    while doubled < capped
        invariant
            doubled <= capped <= 15,
            capped == capped_attempt(attempt_times),
            ms == 100 * pow2(doubled as nat),
            pow2(15) == 32768,
        decreases capped - doubled,
    {
        proof {
            lemma_pow2_monotonic((doubled + 1) as nat, 15);
        }
        ms = ms * 2;
        doubled = doubled + 1;
    }
    proof {
        lemma_pow2_monotonic(0, doubled as nat);
        lemma_pow2_monotonic(doubled as nat, 15);
    }
    ms
}

/// Every delay of the schedule lies between the first and the longest.
pub proof fn lemma_backoff_bounds(attempt: u64)
    ensures
        BASE_DELAY_MS <= backoff_ms(attempt) <= MAX_DELAY_MS,
{
    lemma_pow2_values();
    lemma_pow2_monotonic(capped_attempt(attempt), 15);
}

/// Delays never shrink as the attempt number grows.
pub proof fn lemma_backoff_monotonic(earlier: u64, later: u64)
    requires
        earlier <= later,
    ensures
        backoff_ms(earlier) <= backoff_ms(later),
{
    lemma_pow2_monotonic(capped_attempt(earlier), capped_attempt(later));
    assert(100 * pow2(capped_attempt(earlier)) <= 100 * pow2(capped_attempt(later)));
}

/// Below the ceiling each delay is exactly twice the one before it.
pub proof fn lemma_backoff_doubles(attempt: u64)
    requires
        attempt < BACKOFF_ATTEMPT_CEILING,
    ensures
        backoff_ms((attempt + 1) as u64) == 2 * backoff_ms(attempt),
{
}

} // verus!
