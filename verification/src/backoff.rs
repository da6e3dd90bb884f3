//! How long a failed job waits before it may run again.
use vstd::arithmetic::power2::{
    lemma2_to64, lemma_pow2_strictly_increases, lemma_pow2_unfold, pow2,
};
use vstd::prelude::*;

verus! {

/// The first delay of a policy made by [`BackoffPolicy::default_policy`], in ticks.
pub const DEFAULT_BACKOFF_BASE: u64 = 1_000;

/// The longest delay of a policy made by [`BackoffPolicy::default_policy`], in ticks.
pub const DEFAULT_BACKOFF_CAP: u64 = 60_000;

/// `base` doubled `times` times.
pub open spec fn grown(base: nat, times: nat) -> nat {
    base * pow2(times)
}

/// The delay after attempt number `attempt` has failed: `base` after the
/// first, twice the previous one after each further attempt, never more than
/// `cap`.
pub open spec fn backoff_delay(base: nat, cap: nat, attempt: nat) -> nat {
    let doublings = if attempt == 0 { 0nat } else { (attempt - 1) as nat };
    if grown(base, doublings) < cap {
        grown(base, doublings)
    } else {
        cap
    }
}

/// Not doubled at all, `base` is itself.
pub proof fn lemma_grown_start(base: nat)
    ensures
        grown(base, 0) == base,
{
    lemma2_to64();
}

/// One more doubling is twice as much.
pub proof fn lemma_grown_step(base: nat, times: nat)
    ensures
        grown(base, times + 1) == 2 * grown(base, times),
{
    lemma_pow2_unfold(times + 1);
    assert(base * (2 * pow2(times)) == 2 * (base * pow2(times))) by (nonlinear_arith);
}

/// More doublings never give less.
pub proof fn lemma_grown_monotone(base: nat, fewer: nat, more: nat)
    requires
        fewer <= more,
    ensures
        grown(base, fewer) <= grown(base, more),
{
    if fewer < more {
        lemma_pow2_strictly_increases(fewer, more);
    }
    let a = pow2(fewer);
    let b = pow2(more);
    assert(a <= b ==> base * a <= base * b) by (nonlinear_arith);
}

/// The delay never shrinks from one attempt to a later one.
pub proof fn lemma_delay_monotone(base: nat, cap: nat, earlier: nat, later: nat)
    requires
        earlier <= later,
    ensures
        backoff_delay(base, cap, earlier) <= backoff_delay(base, cap, later),
{
    let e = if earlier == 0 { 0nat } else { (earlier - 1) as nat };
    let l = if later == 0 { 0nat } else { (later - 1) as nat };
    lemma_grown_monotone(base, e, l);
}

/// The delay never exceeds the cap.
pub proof fn lemma_delay_capped(base: nat, cap: nat, attempt: nat)
    ensures
        backoff_delay(base, cap, attempt) <= cap,
{
}

/// Exponential backoff with a cap.
#[derive(Clone, Copy, Debug, PartialEq, Eq, Structural)]
pub struct BackoffPolicy {
    /// The delay after the first failed attempt.
    pub base: u64,
    /// The longest delay.
    pub cap: u64,
}

impl BackoffPolicy {
    pub fn new(base: u64, cap: u64) -> (policy: Self)
        ensures
            policy.base == base,
            policy.cap == cap,
    {
        BackoffPolicy { base, cap }
    }

    /// One second at first, a minute at most, where a tick is a millisecond.
    pub fn default_policy() -> (policy: Self)
        ensures
            policy.base == DEFAULT_BACKOFF_BASE,
            policy.cap == DEFAULT_BACKOFF_CAP,
    {
        BackoffPolicy { base: DEFAULT_BACKOFF_BASE, cap: DEFAULT_BACKOFF_CAP }
    }

    /// The delay of this policy after attempt number `attempt`.
    pub open spec fn delay_of(self, attempt: nat) -> nat {
        backoff_delay(self.base as nat, self.cap as nat, attempt)
    }

    /// How long a job waits after attempt number `attempt` has failed.
    pub fn delay(&self, attempt: u32) -> (ticks: u64)
        ensures
            ticks == self.delay_of(attempt as nat),
            ticks <= self.cap,
    {
        let doublings: u32 = if attempt == 0 { 0 } else { attempt - 1 };
        if self.base >= self.cap {
            proof {
                lemma_grown_start(self.base as nat);
                lemma_grown_monotone(self.base as nat, 0, doublings as nat);
            }
            return self.cap;
        }
        if self.base == 0 {
            assert(grown(0, doublings as nat) == 0) by (nonlinear_arith)
                requires
                    grown(0, doublings as nat) == 0 * pow2(doublings as nat),
            ;
            return 0;
        }
        let mut ticks: u64 = self.base;
        let mut done: u32 = 0;
        proof {
            lemma_grown_start(self.base as nat);
        }
        while done < doublings && ticks < self.cap
            invariant
                done <= doublings,
                ticks <= self.cap,
                ticks == if grown(self.base as nat, done as nat) < self.cap {
                    grown(self.base as nat, done as nat)
                } else {
                    self.cap as nat
                },
            decreases doublings - done,
        {
            proof {
                lemma_grown_step(self.base as nat, done as nat);
            }
            if ticks > self.cap - ticks {
                ticks = self.cap;
            } else {
                ticks = ticks + ticks;
            }
            done = done + 1;
        }
        proof {
            if done < doublings {
                lemma_grown_monotone(self.base as nat, done as nat, doublings as nat);
            }
        }
        ticks
    }
}

} // verus!
