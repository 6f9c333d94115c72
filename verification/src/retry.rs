//! Bounded retry with exponential backoff and jitter.
//!
//! A [`RetryState`] accompanies one operation through its attempts. After
//! each failed attempt the caller reports the error and whether it is worth
//! retrying; the state answers with the time to wait before the next attempt,
//! or gives up.

use std::time::Duration;
use vstd::prelude::*;

verus! {

/// The number of attempts that one operation gets: the first and two retries.
pub const MAX_ATTEMPTS: u32 = 3;

/// The base delay that [`RetryPolicy::standard`] uses, in milliseconds.
pub const STANDARD_BASE_DELAY_MS: u32 = 10;

/// Two to the power `n`.
pub open spec fn pow2(n: nat) -> nat
    decreases n,
{
    if n == 0 {
        1
    } else {
        2 * pow2((n - 1) as nat)
    }
}

/// The backoff delay after failed attempt number `attempt` (counted from 1),
/// before jitter: `base * 2^(attempt - 1)`.
pub open spec fn backoff_delay(base: nat, attempt: nat) -> nat {
    base * pow2((attempt - 1) as nat)
}

/// A delay perturbed by a random sample: the delay plus an offset in
/// `[0, delay)` taken from the sample. A delay of zero stays zero.
pub open spec fn jittered_delay(delay: nat, sample: nat) -> nat {
    if delay == 0 {
        0
    } else {
        delay + sample % delay
    }
}

/// How failed attempts are retried.
#[derive(Clone, Copy, Debug, PartialEq, Eq)]
pub struct RetryPolicy {
    /// The delay after the first failed attempt, in milliseconds.
    pub base_delay_ms: u32,
}

/// What is known of an operation between two of its attempts.
#[derive(Clone, Debug, PartialEq, Eq)]
pub struct RetryState<E> {
    base_delay_ms: u32,
    attempts: u32,
    delay_ms: u64,
    last_error: Option<E>,
}

/// The mathematical content of a [`RetryState`].
pub struct RetryView<E> {
    /// The policy's base delay.
    pub base: nat,
    /// The number of the attempt that is running or about to run, from 1.
    pub attempts: nat,
    /// The backoff delay that follows a failure of that attempt, before jitter.
    pub delay: nat,
    /// The error of the attempt before, if there was one.
    pub last_error: Option<E>,
}

/// What to do after a failed attempt.
#[derive(Clone, Debug, PartialEq, Eq)]
pub enum RetryStep<E> {
    /// Wait `wait_ms` milliseconds, then run the next attempt with `state`.
    Retry { wait_ms: u64, state: RetryState<E> },
    /// Stop: `error` is final, after `attempts` attempts.
    GiveUp { error: E, attempts: u32 },
}

/// The mathematical content of a [`RetryStep`].
pub enum RetryStepView<E> {
    Retry { wait: nat, state: RetryView<E> },
    GiveUp { error: E, attempts: nat },
}

/// The state in which the first attempt runs.
pub open spec fn initial<E>(base: nat) -> RetryView<E> {
    RetryView { base, attempts: 1, delay: base, last_error: None }
}

/// A state is valid when it is within the attempt budget and its delay is
/// the backoff delay of its attempt.
pub open spec fn valid<E>(s: RetryView<E>) -> bool {
    &&& s.base <= u32::MAX
    &&& 1 <= s.attempts <= MAX_ATTEMPTS
    &&& s.delay == backoff_delay(s.base, s.attempts)
}

/// The step that follows a failure of the current attempt with `error`.
///
/// The operation is retried when the error is retryable and an attempt is
/// left; the wait is the current delay with jitter, and the delay doubles.
/// Otherwise the error is final.
pub open spec fn after_failure<E>(s: RetryView<E>, error: E, retryable: bool, sample: nat) -> RetryStepView<E> {
    if retryable && s.attempts < MAX_ATTEMPTS {
        RetryStepView::Retry {
            wait: jittered_delay(s.delay, sample),
            state: RetryView {
                base: s.base,
                attempts: s.attempts + 1,
                delay: 2 * s.delay,
                last_error: Some(error),
            },
        }
    } else {
        RetryStepView::GiveUp { error, attempts: s.attempts }
    }
}

impl<E> View for RetryState<E> {
    type V = RetryView<E>;

    closed spec fn view(&self) -> RetryView<E> {
        RetryView {
            base: self.base_delay_ms as nat,
            attempts: self.attempts as nat,
            delay: self.delay_ms as nat,
            last_error: self.last_error,
        }
    }
}

impl<E> View for RetryStep<E> {
    type V = RetryStepView<E>;

    open spec fn view(&self) -> RetryStepView<E> {
        match self {
            RetryStep::Retry { wait_ms, state } => RetryStepView::Retry {
                wait: *wait_ms as nat,
                state: state@,
            },
            RetryStep::GiveUp { error, attempts } => RetryStepView::GiveUp {
                error: *error,
                attempts: *attempts as nat,
            },
        }
    }
}

/// The backoff delay doubles from one attempt to the next.
pub proof fn lemma_backoff_doubles(base: nat, attempt: nat)
    requires
        attempt >= 1,
    ensures
        backoff_delay(base, attempt + 1) == 2 * backoff_delay(base, attempt),
        backoff_delay(base, 1) == base,
{
    assert(pow2(attempt) == 2 * pow2((attempt - 1) as nat));
    assert(base * (2 * pow2((attempt - 1) as nat)) == 2 * (base * pow2((attempt - 1) as nat)))
        by (nonlinear_arith);
    assert(pow2(0) == 1);
    assert(base * 1 == base);
}

/// A jittered delay is at least the delay and less than twice the delay.
pub proof fn lemma_jitter_bounds(delay: nat, sample: nat)
    ensures
        delay <= jittered_delay(delay, sample),
        delay > 0 ==> jittered_delay(delay, sample) < 2 * delay,
        delay == 0 ==> jittered_delay(delay, sample) == 0,
{
}

/// Within the attempt budget the backoff delay is at most four times the base.
proof fn lemma_backoff_bounded(base: nat, attempt: nat)
    requires
        1 <= attempt <= MAX_ATTEMPTS,
    ensures
        backoff_delay(base, attempt) <= 4 * base,
{
    reveal_with_fuel(pow2, 4);
    assert(pow2((attempt - 1) as nat) <= 4);
    assert(base * pow2((attempt - 1) as nat) <= 4 * base) by (nonlinear_arith)
        requires
            pow2((attempt - 1) as nat) <= 4,
    ;
}

impl RetryPolicy {
    /// A policy with the given base delay.
    pub fn new(base_delay_ms: u32) -> (policy: RetryPolicy)
        ensures
            policy.base_delay_ms == base_delay_ms,
    {
        RetryPolicy { base_delay_ms }
    }

    /// The policy with the standard base delay.
    pub fn standard() -> (policy: RetryPolicy)
        ensures
            policy.base_delay_ms == STANDARD_BASE_DELAY_MS,
    {
        RetryPolicy { base_delay_ms: STANDARD_BASE_DELAY_MS }
    }

    /// The state in which the first attempt of an operation runs.
    pub fn begin<E>(&self) -> (state: RetryState<E>)
        ensures
            state.wf(),
            state@ == initial::<E>(self.base_delay_ms as nat),
    {
        proof {
            lemma_backoff_doubles(self.base_delay_ms as nat, 1);
        }
        RetryState {
            base_delay_ms: self.base_delay_ms,
            attempts: 1,
            delay_ms: self.base_delay_ms as u64,
            last_error: None,
        }
    }
}

/// Draws the random sample for one jitter from `tokio_retry::strategy::jitter`,
/// which scales the given duration by a random factor. The result is the
/// scaled duration in whole milliseconds; nothing is claimed of its value.
#[verifier::external_body]
fn draw_jitter_sample(delay_ms: u64) -> (sample: u64) {
    tokio_retry::strategy::jitter(Duration::from_millis(delay_ms)).as_millis() as u64
}

impl<E> RetryState<E> {
    /// The state is valid: see [`valid`].
    pub open spec fn wf(&self) -> bool {
        valid(self@)
    }

    /// The number of the attempt that is running or about to run, from 1.
    pub fn attempts(&self) -> (attempts: u32)
        ensures
            attempts == self@.attempts,
    {
        self.attempts
    }

    /// The backoff delay that follows a failure of the current attempt,
    /// before jitter, in milliseconds.
    pub fn delay_ms(&self) -> (delay: u64)
        ensures
            delay == self@.delay,
    {
        self.delay_ms
    }

    /// The error of the attempt before, if there was one.
    pub fn last_error(&self) -> (error: &Option<E>)
        ensures
            *error == self@.last_error,
    {
        &self.last_error
    }

    /// Draws a random sample for the jitter of the wait that follows a failure
    /// of the current attempt. Any value may come back.
    pub(crate) fn jitter_sample(&self) -> (sample: u64) {
        draw_jitter_sample(self.delay_ms)
    }

    /// Decides what follows a failure of the current attempt.
    ///
    /// `retryable` says whether the caller classifies `error` as worth
    /// another attempt; `sample` is the random sample for the jitter.
    pub fn on_failure(&self, error: E, retryable: bool, sample: u64) -> (step: RetryStep<E>)
        requires
            self.wf(),
        ensures
            step@ == after_failure(self@, error, retryable, sample as nat),
            step matches RetryStep::Retry { state, .. } ==> state.wf(),
    {
        proof {
            lemma_backoff_bounded(self@.base, self@.attempts);
            lemma_backoff_doubles(self@.base, self@.attempts);
        }
        if retryable && self.attempts < MAX_ATTEMPTS {
            let wait_ms: u64 = if self.delay_ms == 0 {
                0
            } else {
                self.delay_ms + sample % self.delay_ms
            };
            RetryStep::Retry {
                wait_ms,
                state: RetryState {
                    base_delay_ms: self.base_delay_ms,
                    attempts: self.attempts + 1,
                    delay_ms: 2 * self.delay_ms,
                    last_error: Some(error),
                },
            }
        } else {
            RetryStep::GiveUp { error, attempts: self.attempts }
        }
    }

    /// Decides what follows a failure of the current attempt, with a jitter
    /// drawn at random.
    pub fn on_failure_jittered(&self, error: E, retryable: bool) -> (step: RetryStep<E>)
        requires
            self.wf(),
        ensures
            exists|sample: u64| step@ == after_failure(self@, error, retryable, sample as nat),
            step matches RetryStep::Retry { state, .. } ==> state.wf(),
    {
        let sample = self.jitter_sample();
        self.on_failure(error, retryable, sample)
    }
}

/// A retry keeps the state valid, moves on by one attempt, and waits for the
/// backoff delay of the failed attempt plus a jitter below that delay. It
/// happens only for a retryable error with an attempt left.
pub proof fn lemma_retry_step<E>(s: RetryView<E>, error: E, retryable: bool, sample: nat)
    requires
        valid(s),
    ensures
        after_failure(s, error, retryable, sample) is Retry <==> retryable && s.attempts < MAX_ATTEMPTS,
        after_failure(s, error, retryable, sample) matches RetryStepView::Retry { wait, state } ==> {
            &&& valid(state)
            &&& state.attempts == s.attempts + 1
            &&& state.last_error == Some(error)
            &&& backoff_delay(s.base, s.attempts) <= wait
            &&& wait <= 2 * backoff_delay(s.base, s.attempts)
            &&& s.base > 0 ==> wait < 2 * backoff_delay(s.base, s.attempts)
        },
        after_failure(s, error, retryable, sample) matches RetryStepView::GiveUp { error: e, attempts }
            ==> e == error && attempts == s.attempts && attempts <= MAX_ATTEMPTS,
{
    lemma_backoff_doubles(s.base, s.attempts);
    lemma_jitter_bounds(s.delay, sample);
    if s.base > 0 {
        reveal_with_fuel(pow2, 4);
        assert(pow2((s.attempts - 1) as nat) >= 1);
        assert(s.base * pow2((s.attempts - 1) as nat) > 0) by (nonlinear_arith)
            requires
                s.base > 0,
                pow2((s.attempts - 1) as nat) >= 1,
        ;
    }
}

/// An operation is attempted three times at most. Whatever errors its
/// attempts end with, and whatever the jitter, the third failure is final; an
/// error that is not retryable is final at once, on whichever attempt it
/// comes.
pub proof fn lemma_attempt_budget<E>(
    base: nat,
    first: E,
    second: E,
    third: E,
    retry_first: bool,
    retry_second: bool,
    retry_third: bool,
    sample_first: nat,
    sample_second: nat,
    sample_third: nat,
)
    ensures
        ({
            let step1 = after_failure(initial(base), first, retry_first, sample_first);
            &&& !retry_first ==> step1 == RetryStepView::GiveUp { error: first, attempts: 1 }
            &&& retry_first ==> step1 is Retry
            &&& step1 matches RetryStepView::Retry { state: state1, .. } ==> {
                let step2 = after_failure(state1, second, retry_second, sample_second);
                &&& !retry_second ==> step2 == RetryStepView::GiveUp { error: second, attempts: 2 }
                &&& retry_second ==> step2 is Retry
                &&& step2 matches RetryStepView::Retry { state: state2, .. } ==> after_failure(
                    state2,
                    third,
                    retry_third,
                    sample_third,
                ) == RetryStepView::GiveUp { error: third, attempts: 3 }
            }
        }),
{
}

} // verus!
