//! The retry policy: exponential backoff with a cap on each delay and on the
//! total time spent on one operation.
use vstd::prelude::*;

verus! {

/// Delays are in milliseconds.
#[derive(Clone, Copy, Debug, PartialEq, Eq, Structural)]
pub struct RetryPolicy {
    pub initial_delay: u64,
    pub factor: u64,
    pub max_delay: u64,
    pub max_elapsed: u64,
}

/// What to do after a failed attempt.
#[derive(Clone, Copy, Debug, PartialEq, Eq, Structural)]
pub enum RetryDecision {
    RetryAfter(u64),
    /// The operation took too long: it fails for good.
    GiveUp,
}

/// `initial * factor^attempt`, not capped.
pub open spec fn backoff(initial: nat, factor: nat, attempt: nat) -> nat
    decreases attempt,
{
    if attempt == 0 {
        initial
    } else {
        backoff(initial, factor, (attempt - 1) as nat) * factor
    }
}

/// The delay before retry number `attempt` (from zero): the backoff, capped.
pub open spec fn retry_delay(p: RetryPolicy, attempt: nat) -> u64 {
    if backoff(p.initial_delay as nat, p.factor as nat, attempt) < p.max_delay {
        backoff(p.initial_delay as nat, p.factor as nat, attempt) as u64
    } else {
        p.max_delay
    }
}

proof fn lemma_backoff_grows(initial: nat, factor: nat, attempt: nat)
    requires
        factor >= 1,
    ensures
        backoff(initial, factor, attempt) <= backoff(initial, factor, attempt + 1),
{
    assert(backoff(initial, factor, attempt) * factor >= backoff(initial, factor, attempt))
        by (nonlinear_arith)
        requires
            factor >= 1,
    ;
}

impl RetryPolicy {
    /// The delay before retry number `attempt`.
    pub fn delay(&self, attempt: u32) -> (r: u64)
        ensures
            r == retry_delay(*self, attempt as nat),
    {
        let mut d: u64 = self.initial_delay;
        let mut i: u32 = 0;
        while i < attempt
            invariant
                i <= attempt,
                d as nat == backoff(self.initial_delay as nat, self.factor as nat, i as nat),
            decreases attempt - i,
        {
            if self.factor >= 1 && d >= self.max_delay {
                proof {
                    lemma_backoff_stays_capped(*self, i as nat, attempt as nat);
                }
                return self.max_delay;
            }
            if self.factor != 0 && d > self.max_delay / self.factor {
                proof {
                    assert((d as nat) * (self.factor as nat) >= self.max_delay as nat)
                        by (nonlinear_arith)
                        requires
                            self.factor != 0,
                            d > self.max_delay / self.factor,
                    ;
                    lemma_backoff_stays_capped(*self, (i + 1) as nat, attempt as nat);
                }
                return self.max_delay;
            }
            proof {
                assert((d as nat) * (self.factor as nat) <= self.max_delay as nat)
                    by (nonlinear_arith)
                    requires
                        self.factor == 0 || d <= self.max_delay / self.factor,
                ;
            }
            d = d * self.factor;
            i = i + 1;
        }
        if d >= self.max_delay {
            self.max_delay
        } else {
            d
        }
    }

    /// After attempt number `attempt` failed, `elapsed` into the operation:
    /// retry after the delay, unless that would run past the time allowed.
    pub fn next(&self, attempt: u32, elapsed: u64) -> (r: RetryDecision)
        ensures
            (elapsed as int) + (retry_delay(*self, attempt as nat) as int)
                > self.max_elapsed as int ==> r == RetryDecision::GiveUp,
            (elapsed as int) + (retry_delay(*self, attempt as nat) as int)
                <= self.max_elapsed as int ==> r == RetryDecision::RetryAfter(
                retry_delay(*self, attempt as nat),
            ),
    {
        let d = self.delay(attempt);
        if elapsed > self.max_elapsed || d > self.max_elapsed - elapsed {
            RetryDecision::GiveUp
        } else {
            RetryDecision::RetryAfter(d)
        }
    }
}

/// Once the backoff reaches the cap it stays there: with a factor of at least
/// one it never shrinks.
proof fn lemma_backoff_stays_capped(p: RetryPolicy, from: nat, to: nat)
    requires
        p.factor >= 1,
        from <= to,
        backoff(p.initial_delay as nat, p.factor as nat, from) >= p.max_delay,
    ensures
        backoff(p.initial_delay as nat, p.factor as nat, to) >= p.max_delay,
    decreases to - from,
{
    if from < to {
        lemma_backoff_grows(p.initial_delay as nat, p.factor as nat, from);
        lemma_backoff_stays_capped(p, from + 1, to);
    }
}

} // verus!
