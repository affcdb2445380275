//! Waiting and trying again.

use crate::text::{contains, has_text, lowercase_of};
use vstd::arithmetic::power2::{lemma2_to64, lemma_pow2_strictly_increases, lemma_pow2_unfold, pow2};
use vstd::prelude::*;

verus! {

/// How often a request is tried again, and how long to wait in between.
#[derive(Debug, Clone, Copy, PartialEq, Eq, Structural)]
pub struct RetryConfig {
    /// How often a request is tried again at most, the first time not counted.
    pub max_retries: u32,
    /// The first wait, in milliseconds.
    pub initial_backoff: u64,
    /// The longest wait, in milliseconds.
    pub max_backoff: u64,
}

impl Default for RetryConfig {
    fn default() -> (r: Self)
        ensures
            r == (RetryConfig { max_retries: 5, initial_backoff: 1000, max_backoff: 16000 }),
    {
        RetryConfig { max_retries: 5, initial_backoff: 1000, max_backoff: 16000 }
    }
}

/// By how much the wait after an attempt is longer than the first: it doubles
/// with each attempt, as far as a `u32` can hold it.
pub open spec fn multiplier_of(attempt: u32) -> nat {
    if attempt <= 1 {
        1
    } else if attempt <= 32 {
        pow2((attempt - 1) as nat)
    } else {
        u32::MAX as nat
    }
}

/// How long to wait after an attempt.
pub open spec fn backoff_of(c: RetryConfig, attempt: u32) -> nat {
    let wait = c.initial_backoff * multiplier_of(attempt);
    if wait <= c.max_backoff {
        wait as nat
    } else {
        c.max_backoff as nat
    }
}

fn multiplier(attempt: u32) -> (r: u32)
    ensures
        r == multiplier_of(attempt),
{
    if attempt <= 1 {
        return 1;
    }
    if attempt > 32 {
        return u32::MAX;
    }
    let mut r: u32 = 1;
    let mut i: u32 = 1;
    proof {
        lemma2_to64();
    }
    while i < attempt
        invariant
            1 <= i <= attempt <= 32,
            r == pow2((i - 1) as nat),
        decreases attempt - i,
    {
        proof {
            lemma2_to64();
            lemma_pow2_unfold(i as nat);
            if i < 31 {
                lemma_pow2_strictly_increases(i as nat, 31);
            }
        }
        r = r * 2;
        i = i + 1;
    }
    r
}

impl RetryConfig {
    /// How long to wait after an attempt, in milliseconds: the wait doubles
    /// with each attempt, up to the longest.
    pub fn backoff_for_attempt(&self, attempt: u32) -> (r: u64)
        ensures
            r == backoff_of(*self, attempt),
    {
        let m: u32 = multiplier(attempt);
        assert(self.initial_backoff * m == m * self.initial_backoff) by (nonlinear_arith);
        match self.initial_backoff.checked_mul(m as u64) {
            Some(wait) => if wait <= self.max_backoff {
                wait
            } else {
                self.max_backoff
            },
            None => self.max_backoff,
        }
    }
}

/// A message says that the model itself is not to be had: trying again is of no
/// use.
pub open spec fn is_route_error(message: Seq<char>) -> bool {
    let m = lowercase_of(message);
    has_text(m, "model_not_found"@) || has_text(m, "model not found"@) || has_text(
        m,
        "no available channel"@,
    ) || has_text(m, "没有可用渠道"@)
}

/// A status that may pass.
pub open spec fn is_transient_status(status: u16) -> bool {
    status == 408 || status == 429 || status == 500 || status == 502 || status == 503 || status
        == 504
}

fn is_deterministic_model_route_error(message: &str) -> (r: bool)
    ensures
        r == is_route_error(message@),
{
    let low = message.to_lowercase();
    let m = low.as_str();
    contains(m, "model_not_found") || contains(m, "model not found") || contains(
        m,
        "no available channel",
    ) || contains(m, "没有可用渠道")
}

/// Whether a reply with this status and message is worth another try.
pub fn is_retryable_http_status(status: u16, message: &str) -> (r: bool)
    ensures
        r == (!is_route_error(message@) && is_transient_status(status)),
{
    !is_deterministic_model_route_error(message) && (status == 408 || status == 429 || status
        == 500 || status == 502 || status == 503 || status == 504)
}

/// The kinds of input and output errors that matter here.
#[derive(Debug, Clone, Copy, PartialEq, Eq, Structural)]
pub enum IoFailure {
    ConnectionReset,
    ConnectionAborted,
    BrokenPipe,
    NotConnected,
    TimedOut,
    UnexpectedEof,
    Other,
}

/// What is known of a request that failed on its way.
#[derive(Debug)]
pub struct TransportFailure {
    pub is_builder: bool,
    pub is_redirect: bool,
    pub is_status: bool,
    pub is_timeout: bool,
    pub is_connect: bool,
    pub is_request: bool,
    pub is_body: bool,
    /// The input and output errors among its causes, the nearest first.
    pub causes: Vec<IoFailure>,
}

/// A failure of the request itself.
pub open spec fn is_settled(f: TransportFailure) -> bool {
    f.is_builder || f.is_redirect || f.is_status
}

/// A failure on the way may pass.
pub open spec fn is_transient_failure(f: TransportFailure) -> bool {
    !is_settled(f) && (f.is_timeout || f.is_connect || f.is_request || f.is_body || exists|i: int|
        0 <= i < f.causes@.len() && #[trigger] f.causes@[i] != IoFailure::Other)
}

/// Whether a request that failed on its way is worth another try.
pub fn is_retryable_reqwest_error(error: &TransportFailure) -> (r: bool)
    ensures
        r == is_transient_failure(*error),
{
    if error.is_builder || error.is_redirect || error.is_status {
        return false;
    }
    if error.is_timeout || error.is_connect || error.is_request || error.is_body {
        return true;
    }
    let mut i: usize = 0;
    while i < error.causes.len()
        invariant
            i <= error.causes@.len(),
            !is_settled(*error),
            !(error.is_timeout || error.is_connect || error.is_request || error.is_body),
            forall|k: int| 0 <= k < i ==> #[trigger] error.causes@[k] == IoFailure::Other,
        decreases error.causes@.len() - i,
    {
        if error.causes[i] != IoFailure::Other {
            assert(error.causes@[i as int] != IoFailure::Other);
            return true;
        }
        i = i + 1;
    }
    false
}

/// The attempts at a request.
#[derive(Debug, Clone, Copy, PartialEq, Eq, Structural)]
pub struct Attempts {
    pub config: RetryConfig,
    /// How many were made.
    pub made: u32,
}

/// What to do after an attempt failed.
#[derive(Debug, Clone, Copy, PartialEq, Eq, Structural)]
pub enum RetryStep {
    /// Wait so many milliseconds and try again.
    Retry { backoff: u64 },
    GiveUp,
}

/// What to do after the attempt failed, by whether the failure may pass.
pub open spec fn step_after(a: Attempts, may_pass: bool) -> RetryStep {
    if may_pass && a.made < a.config.max_retries + 1 {
        RetryStep::Retry { backoff: backoff_of(a.config, a.made) as u64 }
    } else {
        RetryStep::GiveUp
    }
}

impl Attempts {
    /// No attempt was made yet.
    pub fn new(config: RetryConfig) -> (r: Self)
        ensures
            r == (Attempts { config, made: 0 }),
    {
        Attempts { config, made: 0 }
    }

    /// One attempt more.
    pub fn begin(&mut self)
        requires
            old(self).made < u32::MAX,
        ensures
            *final(self) == (Attempts { made: (old(self).made + 1) as u32, ..*old(self) }),
    {
        self.made = self.made + 1;
    }

    /// What to do after the attempt failed, by whether the failure may pass.
    pub fn after_failure(&self, may_pass: bool) -> (r: RetryStep)
        ensures
            r == step_after(*self, may_pass),
    {
        if may_pass && self.made as u64 <= self.config.max_retries as u64 {
            RetryStep::Retry { backoff: self.config.backoff_for_attempt(self.made) }
        } else {
            RetryStep::GiveUp
        }
    }
}

/// No wait is longer than the longest.
pub proof fn law_backoff_is_bounded(c: RetryConfig, attempt: u32)
    ensures
        backoff_of(c, attempt) <= c.max_backoff,
{
}

/// The waits never get shorter.
pub proof fn law_backoff_never_shrinks(c: RetryConfig, attempt: u32, later: u32)
    requires
        attempt <= later,
    ensures
        backoff_of(c, attempt) <= backoff_of(c, later),
{
    let a = multiplier_of(attempt);
    let b = multiplier_of(later);
    lemma2_to64();
    assert(a <= b) by {
        if attempt < later && attempt <= 32 {
            let x = if attempt == 0 {
                0nat
            } else {
                (attempt - 1) as nat
            };
            assert(a == pow2(x));
            if later <= 32 {
                if x < later - 1 {
                    lemma_pow2_strictly_increases(x, (later - 1) as nat);
                }
            } else if x < 31 {
                lemma_pow2_strictly_increases(x, 31);
            }
        }
    }
    assert(c.initial_backoff * a <= c.initial_backoff * b) by (nonlinear_arith)
        requires
            a <= b,
            c.initial_backoff >= 0,
    ;
}

/// Whatever fails, a request is tried no more than once and `max_retries` times
/// again: after that many attempts it is given up.
pub proof fn law_attempts_are_bounded(a: Attempts, may_pass: bool)
    requires
        a.made >= a.config.max_retries + 1,
    ensures
        step_after(a, may_pass) == RetryStep::GiveUp,
{
}

} // verus!
