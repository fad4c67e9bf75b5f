//! Retry policy for responses that ask the client to try again later.
use vstd::prelude::*;

verus! {

/// How often, and after what pause, a delayed request is retried.
///
/// The pause starts at `initial_delay_millis`, doubles with each retry and
/// never exceeds `max_delay_millis`; after `max_retries` retries the
/// response is returned as it is.
#[derive(Debug, Clone, Copy, PartialEq, Eq, Structural)]
pub struct RetryPolicy {
    /// Number of retries before giving up.
    pub max_retries: u32,
    /// Pause before the first retry, in milliseconds.
    pub initial_delay_millis: u64,
    /// Longest pause between retries, in milliseconds.
    pub max_delay_millis: u64,
}

/// The pause before retry number `retry` (counting from zero).
pub open spec fn backoff(initial: u64, max: u64, retry: nat) -> u64
    decreases retry,
{
    if retry == 0 {
        if initial <= max { initial } else { max }
    } else {
        let previous = backoff(initial, max, (retry - 1) as nat);
        if previous as int * 2 <= max as int { (previous * 2) as u64 } else { max }
    }
}

impl RetryPolicy {
    /// A policy with the given limits.
    pub fn new(max_retries: u32, initial_delay_millis: u64, max_delay_millis: u64) -> (p: Self)
        ensures
            p == (RetryPolicy { max_retries, initial_delay_millis, max_delay_millis }),
    {
        RetryPolicy { max_retries, initial_delay_millis, max_delay_millis }
    }

    /// A policy that never retries.
    pub fn never() -> (p: Self)
        ensures
            p.max_retries == 0,
    {
        RetryPolicy { max_retries: 0, initial_delay_millis: 0, max_delay_millis: 0 }
    }

    /// The pause before retry number `retry`, or `None` once the retries
    /// are used up.
    pub open spec fn spec_delay_for_retry(self, retry: u32) -> Option<u64> {
        if retry >= self.max_retries {
            None
        } else {
            Some(backoff(self.initial_delay_millis, self.max_delay_millis, retry as nat))
        }
    }

    /// The pause in milliseconds before retry number `retry` (counting from
    /// zero), or `None` once the retries are used up.
    pub fn delay_for_retry(&self, retry: u32) -> (d: Option<u64>)
        ensures
            d == self.spec_delay_for_retry(retry),
            d matches Some(ms) ==> ms <= self.max_delay_millis,
    {
        if retry >= self.max_retries {
            return None;
        }
        let mut delay = if self.initial_delay_millis <= self.max_delay_millis {
            self.initial_delay_millis
        } else {
            self.max_delay_millis
        };
        let mut i: u32 = 0;
        while i < retry
            invariant
                i <= retry,
                delay == backoff(self.initial_delay_millis, self.max_delay_millis, i as nat),
                delay <= self.max_delay_millis,
            decreases retry - i,
        {
            delay = if delay <= self.max_delay_millis / 2 { delay * 2 } else { self.max_delay_millis };
            i = i + 1;
        }
        Some(delay)
    }
}

impl RetryPolicy {
    /// The default policy: five retries, starting at 100 ms and doubling up
    /// to two seconds.
    pub open spec fn spec_default() -> RetryPolicy {
        RetryPolicy { max_retries: 5, initial_delay_millis: 100, max_delay_millis: 2000 }
    }
}

impl Default for RetryPolicy {
    /// Five retries, starting at 100 ms and doubling up to two seconds.
    fn default() -> (p: Self)
        ensures
            p == RetryPolicy::spec_default(),
    {
        RetryPolicy { max_retries: 5, initial_delay_millis: 100, max_delay_millis: 2000 }
    }
}

/// Pauses never shrink from one retry to the next, and never pass the
/// policy's maximum.
pub proof fn law_backoff_monotone(initial: u64, max: u64, a: nat, b: nat)
    requires
        a <= b,
    ensures
        backoff(initial, max, a) <= backoff(initial, max, b) <= max,
    decreases b,
{
    if b > 0 && a < b {
        law_backoff_monotone(initial, max, a, (b - 1) as nat);
    }
    if b > 0 {
        law_backoff_monotone(initial, max, (b - 1) as nat, (b - 1) as nat);
    }
}

} // verus!
