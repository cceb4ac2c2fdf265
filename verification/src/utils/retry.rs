//! Retrying transient failures with exponential backoff.
//!
//! The waiting itself is the caller's: this module decides, after each
//! failed attempt, whether to try again and after how long.

use crate::constants::{MAX_RETRIES, RETRY_BASE_DELAY_MS, RETRY_JITTER_PERMILLE, RETRY_MAX_DELAY_MS};
use crate::error::MailflowError;
use crate::foreign::random_u64;
use vstd::prelude::*;

verus! {

/// How often and how long to wait.
#[derive(Debug, Clone, Copy, PartialEq, Eq, Structural)]
pub struct RetryConfig {
    /// Retries after the first attempt.
    pub max_retries: u32,
    /// Delay before the first retry, in milliseconds.
    pub base_delay_ms: u64,
    /// Longest delay before jitter, in milliseconds.
    pub max_delay_ms: u64,
    /// Jitter, in thousandths of the delay; more than 1000 counts as 1000.
    pub jitter_permille: u64,
}

/// Two to the power `n`.
pub open spec fn pow2(n: nat) -> nat
    decreases n,
{
    if n == 0 {
        1
    } else {
        2 * pow2((n - 1) as nat)
    }
}

/// The smaller of two numbers.
pub open spec fn min_nat(a: nat, b: nat) -> nat {
    if a <= b {
        a
    } else {
        b
    }
}

/// The delay before retry number `attempt` (counted from 0), before jitter:
/// `base * 2^attempt`, capped at `max`.
pub open spec fn backoff_ms(base: nat, max: nat, attempt: nat) -> nat {
    min_nat(base * pow2(attempt), max)
}

/// The jitter in force: `permille`, or 1000 when it is more.
pub open spec fn jitter_in_force(permille: nat) -> nat {
    min_nat(permille, 1000)
}

/// The factor, in thousandths, that the random number `draw` picks: one of
/// the `2j + 1` values from `1000 - j` to `1000 + j`, for the jitter `j` in
/// force.
pub open spec fn jitter_factor(permille: nat, draw: nat) -> nat {
    let j = jitter_in_force(permille);
    (1000 - j + draw % (2 * j + 1)) as nat
}

/// The delay `capped` with jitter applied: scaled by the factor that `draw`
/// picks, and never more than `u64::MAX`.
pub open spec fn jittered_ms(capped: nat, permille: nat, draw: nat) -> nat {
    min_nat(capped * jitter_factor(permille, draw) / 1000, u64::MAX as nat)
}

/// A jittered delay lies within the jitter of the delay it was made from.
pub proof fn lemma_jitter_bounds(capped: nat, permille: nat, draw: nat)
    ensures
        1000 - jitter_in_force(permille) <= jitter_factor(permille, draw) <= 1000
            + jitter_in_force(permille),
        jittered_ms(capped, permille, draw) >= min_nat(
            capped * ((1000 - jitter_in_force(permille)) as nat) / 1000,
            u64::MAX as nat,
        ),
        jittered_ms(capped, permille, draw) <= capped * (1000 + jitter_in_force(permille)) / 1000,
{
    let j = jitter_in_force(permille);
    let f = jitter_factor(permille, draw);
    let low = (1000 - j) as nat;
    let high = 1000 + j;
    assert(0 <= draw % (2 * j + 1) < 2 * j + 1);
    assert(low <= f <= high);
    assert(capped * low <= capped * f) by (nonlinear_arith)
        requires
            low <= f,
    ;
    assert(capped * f <= capped * high) by (nonlinear_arith)
        requires
            f <= high,
    ;
    assert(capped * low / 1000 <= capped * f / 1000) by (nonlinear_arith)
        requires
            capped * low <= capped * f,
    ;
    assert(capped * f / 1000 <= capped * high / 1000) by (nonlinear_arith)
        requires
            capped * f <= capped * high,
    ;
}

/// Whether the operation is tried again after attempt number `attempt`
/// (counted from 0) failed with `error`: the error must be transient and
/// retries must be left.
pub open spec fn tries_again(max_retries: nat, attempt: nat, error: MailflowError) -> bool {
    error.retriable() && attempt < max_retries
}

/// What one attempt of an operation came to, as far as retrying goes.
pub ghost enum Outcome {
    Success,
    Failure(MailflowError),
}

/// The number of attempts made when the attempts, from number `attempt` on,
/// come out as `outcomes` in turn: attempts go on as long as outcomes are
/// left and each failure is one that is tried again.
pub open spec fn attempts_made(max_retries: nat, attempt: nat, outcomes: Seq<Outcome>) -> nat
    decreases outcomes.len(),
{
    if outcomes.len() == 0 {
        0
    } else {
        match outcomes[0] {
            Outcome::Success => 1,
            Outcome::Failure(e) => if tries_again(max_retries, attempt, e) {
                1 + attempts_made(max_retries, attempt + 1, outcomes.drop_first())
            } else {
                1
            },
        }
    }
}

/// An operation that fails with a transient error every time it is tried is
/// tried once and then retried `max_retries` times, no more: of
/// `max_retries + 1` or more such outcomes exactly `max_retries + 1` are
/// consumed.
pub proof fn lemma_retries_exhausted(max_retries: nat, attempt: nat, outcomes: Seq<Outcome>)
    requires
        attempt <= max_retries,
        outcomes.len() >= max_retries - attempt + 1,
        forall|i: int|
            0 <= i < outcomes.len() ==> (#[trigger] outcomes[i]) is Failure
                && outcomes[i]->Failure_0.retriable(),
    ensures
        attempts_made(max_retries, attempt, outcomes) == max_retries - attempt + 1,
    decreases max_retries - attempt,
{
    let first = outcomes[0];
    assert(first is Failure && first->Failure_0.retriable());
    if attempt < max_retries {
        let rest = outcomes.drop_first();
        assert forall|i: int| 0 <= i < rest.len() implies (#[trigger] rest[i]) is Failure
            && rest[i]->Failure_0.retriable() by {
            assert(rest[i] == outcomes[i + 1]);
        }
        lemma_retries_exhausted(max_retries, attempt + 1, rest);
    }
}

/// An operation that fails with a permanent error is tried exactly once.
pub proof fn lemma_permanent_error_not_retried(
    max_retries: nat,
    outcomes: Seq<Outcome>,
    error: MailflowError,
)
    requires
        outcomes.len() >= 1,
        outcomes[0] == Outcome::Failure(error),
        !error.retriable(),
    ensures
        attempts_made(max_retries, 0, outcomes) == 1,
{
}

/// What to do after a failed attempt.
#[derive(Debug, Clone, PartialEq, Eq)]
pub enum RetryDecision {
    /// Give up and report this error.
    Fail(MailflowError),
    /// Wait `delay_ms` milliseconds, then make attempt number `next_attempt`.
    Sleep { delay_ms: u64, next_attempt: u32 },
}

impl RetryConfig {
    /// A configuration with the default jitter.
    pub fn new(max_retries: u32, base_delay_ms: u64, max_delay_ms: u64) -> (r: Self)
        ensures
            r == (RetryConfig {
                max_retries,
                base_delay_ms,
                max_delay_ms,
                jitter_permille: RETRY_JITTER_PERMILLE,
            }),
    {
        RetryConfig { max_retries, base_delay_ms, max_delay_ms, jitter_permille: RETRY_JITTER_PERMILLE }
    }

    /// The delay before retry number `attempt`, before jitter.
    pub fn capped_delay(&self, attempt: u32) -> (d: u64)
        ensures
            d == backoff_ms(self.base_delay_ms as nat, self.max_delay_ms as nat, attempt as nat),
    {
        let base = self.base_delay_ms;
        let max = self.max_delay_ms;
        if base == 0 {
            assert(0 * pow2(attempt as nat) == 0) by (nonlinear_arith);
            return 0;
        }
        let mut d: u64 = if base < max {
            base
        } else {
            max
        };
        let mut i: u32 = 0;
        proof {
            assert(base as nat * pow2(0) == base as nat) by (nonlinear_arith)
                requires
                    pow2(0) == 1,
            ;
        }
        while i < attempt && d < max
            invariant
                i <= attempt,
                base == self.base_delay_ms,
                max == self.max_delay_ms,
                d as nat == min_nat(base as nat * pow2(i as nat), max as nat),
            decreases attempt - i,
        {
            proof {
                assert(base as nat * pow2((i + 1) as nat) == 2 * (base as nat * pow2(i as nat)))
                    by (nonlinear_arith)
                    requires
                        pow2((i + 1) as nat) == 2 * pow2(i as nat),
                ;
            }
            if d > max / 2 {
                d = max;
            } else {
                d = d * 2;
            }
            i += 1;
        }
        proof {
            if i < attempt {
                lemma_backoff_stays_capped(base as nat, max as nat, i as nat, attempt as nat);
            }
        }
        d
    }

    /// The delay `capped` scaled by the jitter factor that `draw` picks.
    pub fn apply_jitter(&self, capped: u64, draw: u64) -> (d: u64)
        ensures
            d == jittered_ms(capped as nat, self.jitter_permille as nat, draw as nat),
            d <= capped as nat * (1000 + jitter_in_force(self.jitter_permille as nat)) / 1000,
            d >= min_nat(
                capped as nat * ((1000 - jitter_in_force(self.jitter_permille as nat)) as nat)
                    / 1000,
                u64::MAX as nat,
            ),
    {
        proof {
            lemma_jitter_bounds(capped as nat, self.jitter_permille as nat, draw as nat);
        }
        let j: u64 = if self.jitter_permille > 1000 {
            1000
        } else {
            self.jitter_permille
        };
        let factor: u64 = 1000 - j + draw % (2 * j + 1);
        assert(capped as nat * factor as nat <= 0xFFFF_FFFF_FFFF_FFFF * 3000) by (nonlinear_arith)
            requires
                capped <= 0xFFFF_FFFF_FFFF_FFFF,
                factor <= 3000,
        ;
        let scaled: u128 = (capped as u128) * (factor as u128) / 1000;
        if scaled > u64::MAX as u128 {
            u64::MAX
        } else {
            scaled as u64
        }
    }

    /// The delay before retry number `attempt` (counted from 0):
    /// `min(base * 2^attempt, max)`, scaled by a random factor within the
    /// jitter.
    pub fn calculate_delay(&self, attempt: u32) -> (d: u64)
        ensures
            exists|draw: nat|
                d == jittered_ms(
                    backoff_ms(self.base_delay_ms as nat, self.max_delay_ms as nat, attempt as nat),
                    self.jitter_permille as nat,
                    draw,
                ),
            d <= backoff_ms(self.base_delay_ms as nat, self.max_delay_ms as nat, attempt as nat) * (
            1000 + jitter_in_force(self.jitter_permille as nat)) / 1000,
            d >= min_nat(
                backoff_ms(self.base_delay_ms as nat, self.max_delay_ms as nat, attempt as nat) * ((
                1000 - jitter_in_force(self.jitter_permille as nat)) as nat) / 1000,
                u64::MAX as nat,
            ),
    {
        let capped = self.capped_delay(attempt);
        let draw = random_u64();
        let d = self.apply_jitter(capped, draw);
        assert(d == jittered_ms(capped as nat, self.jitter_permille as nat, draw as nat));
        d
    }

    /// What to do after attempt number `attempt` (counted from 0) failed with
    /// `error`, when the next wait would be `delay_ms` and `remaining_ms` is
    /// left until the deadline of the invocation, if it has one. A permanent
    /// error, an error after the last retry, and an error whose wait would
    /// reach the deadline are reported as they are; otherwise the operation
    /// is tried again after the wait.
    pub fn decide(
        &self,
        attempt: u32,
        error: MailflowError,
        delay_ms: u64,
        remaining_ms: Option<u64>,
    ) -> (r: RetryDecision)
        ensures
            r == (if tries_again(self.max_retries as nat, attempt as nat, error) && !deadline_reached(
                delay_ms,
                remaining_ms,
            ) {
                RetryDecision::Sleep { delay_ms, next_attempt: (attempt + 1) as u32 }
            } else {
                RetryDecision::Fail(error)
            }),
    {
        if !error.is_retriable() {
            return RetryDecision::Fail(error);
        }
        if attempt >= self.max_retries {
            return RetryDecision::Fail(error);
        }
        match remaining_ms {
            Some(left) => {
                if delay_ms >= left {
                    return RetryDecision::Fail(error);
                }
            },
            None => {},
        }
        RetryDecision::Sleep { delay_ms, next_attempt: attempt + 1 }
    }

    /// What to do after attempt number `attempt` failed with `error`: as
    /// [`RetryConfig::decide`], with a freshly drawn delay. An error that
    /// is tried again leads to a wait whenever the longest wait that can be
    /// drawn ends before the deadline; the wait is the backoff of the
    /// attempt, scaled by a factor within the jitter.
    pub fn on_failure(&self, attempt: u32, error: MailflowError, remaining_ms: Option<u64>) -> (r:
        RetryDecision)
        ensures
            !tries_again(self.max_retries as nat, attempt as nat, error) ==> r
                == RetryDecision::Fail(error),
            tries_again(self.max_retries as nat, attempt as nat, error) && (remaining_ms is None
                || remaining_ms->0 > backoff_ms(
                self.base_delay_ms as nat,
                self.max_delay_ms as nat,
                attempt as nat,
            ) * (1000 + jitter_in_force(self.jitter_permille as nat)) / 1000) ==> r is Sleep,
            match r {
                RetryDecision::Fail(e) => e == error,
                RetryDecision::Sleep { delay_ms, next_attempt } => {
                    &&& tries_again(self.max_retries as nat, attempt as nat, error)
                    &&& next_attempt == attempt + 1
                    &&& !deadline_reached(delay_ms, remaining_ms)
                    &&& delay_ms <= backoff_ms(
                        self.base_delay_ms as nat,
                        self.max_delay_ms as nat,
                        attempt as nat,
                    ) * (1000 + jitter_in_force(self.jitter_permille as nat)) / 1000
                    &&& delay_ms >= min_nat(
                        backoff_ms(
                            self.base_delay_ms as nat,
                            self.max_delay_ms as nat,
                            attempt as nat,
                        ) * ((1000 - jitter_in_force(self.jitter_permille as nat)) as nat) / 1000,
                        u64::MAX as nat,
                    )
                    &&& exists|draw: nat|
                        delay_ms == jittered_ms(
                            backoff_ms(
                                self.base_delay_ms as nat,
                                self.max_delay_ms as nat,
                                attempt as nat,
                            ),
                            self.jitter_permille as nat,
                            draw,
                        )
                },
            },
    {
        let delay_ms = self.calculate_delay(attempt);
        self.decide(attempt, error, delay_ms, remaining_ms)
    }
}

/// Whether a wait of `delay_ms` would reach the deadline that is
/// `remaining_ms` away.
pub open spec fn deadline_reached(delay_ms: u64, remaining_ms: Option<u64>) -> bool {
    match remaining_ms {
        Some(left) => delay_ms >= left,
        None => false,
    }
}

/// Once the backoff has reached its cap it stays there.
pub proof fn lemma_backoff_stays_capped(base: nat, max: nat, i: nat, attempt: nat)
    requires
        i <= attempt,
        base * pow2(i) >= max,
    ensures
        backoff_ms(base, max, attempt) == max,
    decreases attempt - i,
{
    if i < attempt {
        assert(base * pow2(i + 1) >= base * pow2(i)) by (nonlinear_arith)
            requires
                pow2(i + 1) == 2 * pow2(i),
        ;
        lemma_backoff_stays_capped(base, max, i + 1, attempt);
    }
}

impl Default for RetryConfig {
    fn default() -> (r: Self)
        ensures
            r == (RetryConfig {
                max_retries: MAX_RETRIES,
                base_delay_ms: RETRY_BASE_DELAY_MS,
                max_delay_ms: RETRY_MAX_DELAY_MS,
                jitter_permille: RETRY_JITTER_PERMILLE,
            }),
    {
        RetryConfig {
            max_retries: MAX_RETRIES,
            base_delay_ms: RETRY_BASE_DELAY_MS,
            max_delay_ms: RETRY_MAX_DELAY_MS,
            jitter_permille: RETRY_JITTER_PERMILLE,
        }
    }
}

} // verus!
