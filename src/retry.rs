//! The retry policy of RPC calls: how many attempts, and how long to wait
//! before each one (exponential back-off with random jitter).

use rand::Rng;
use vstd::prelude::*;

verus! {

/// The largest base delay, in milliseconds, for which every wait fits a `u64`.
pub const MAX_BASE_DELAY_MS: u64 = 0x0020_0000_0000_0000;

/// The exponent of the back-off stops growing here.
pub const MAX_BACKOFF_EXPONENT: usize = 10;

pub open spec fn pow2(n: nat) -> nat
    decreases n,
{
    if n == 0 { 1 } else { 2 * pow2((n - 1) as nat) }
}

/// The wait before attempt `k + 1` (for `k >= 1`), without jitter:
/// `base * 2^min(k - 1, 10)`.
pub open spec fn backoff(base: nat, k: nat) -> nat {
    base * pow2(if k - 1 <= 10 { (k - 1) as nat } else { 10nat })
}

/// The waits between the first `k + 1` attempts, without jitter.
pub open spec fn backoff_sum(base: nat, k: nat) -> nat
    decreases k,
{
    if k == 0 { 0 } else { backoff_sum(base, (k - 1) as nat) + backoff(base, k) }
}

pub open spec fn total(s: Seq<nat>) -> nat
    decreases s.len(),
{
    if s.len() == 0 { 0 } else { total(s.drop_last()) + s.last() }
}

/// Relies on `rand::thread_rng` and `Rng::gen_range` over an inclusive
/// range, which is never empty here: a value in `[0, max]`.
#[verifier::external_body]
fn random_up_to(max: u64) -> (r: u64)
    ensures
        r <= max,
{
    rand::thread_rng().gen_range(0..=max)
}

/// The retry policy of the RPC layer.
#[derive(Clone, Copy, Debug)]
pub struct RetryAdapter {
    /// The most attempts of one call.
    pub max_retries: usize,
    /// The unit of the back-off, in milliseconds.
    pub base_delay_ms: u64,
}

/// What to do after `attempts` failed attempts.
#[derive(Clone, Copy, Debug, PartialEq, Eq)]
pub enum RetryStep {
    /// Wait this many milliseconds, then try again.
    Attempt { wait_ms: u64 },
    /// Give up and report the last error.
    GiveUp,
}

impl RetryAdapter {
    pub open spec fn wf(&self) -> bool {
        self.base_delay_ms <= MAX_BASE_DELAY_MS
    }

    pub fn new(max_retries: usize, base_delay_ms: u64) -> (r: RetryAdapter)
        requires
            base_delay_ms <= MAX_BASE_DELAY_MS,
        ensures
            r.wf(),
            r.max_retries == max_retries,
            r.base_delay_ms == base_delay_ms,
    {
        RetryAdapter { max_retries, base_delay_ms }
    }

    /// The wait before attempt `k + 1`, without jitter.
    pub fn backoff_delay(&self, k: usize) -> (r: u64)
        requires
            self.wf(),
            k >= 1,
        ensures
            r == backoff(self.base_delay_ms as nat, k as nat),
            r <= self.base_delay_ms * 1024,
    {
        let exponent: usize = if k - 1 < MAX_BACKOFF_EXPONENT { k - 1 } else { MAX_BACKOFF_EXPONENT };
        let mut m: u64 = 1;
        let mut i: usize = 0;
        while i < exponent
            invariant
                0 <= i <= exponent <= 10,
                m == pow2(i as nat),
                m <= 1024,
            decreases exponent - i,
        {
            proof { reveal_with_fuel(pow2, 11); assert(pow2(i as nat) <= 512) by {
                lemma_pow2_mono(i as nat, 9);
                reveal_with_fuel(pow2, 10);
            } }
            m = m * 2;
            i = i + 1;
        }
        proof {
            assert(self.base_delay_ms * m <= self.base_delay_ms * 1024) by (nonlinear_arith)
                requires m <= 1024;
        }
        self.base_delay_ms * m
    }

    /// The wait before attempt `k + 1` with the given jitter, which may be
    /// at most a tenth of the back-off.
    pub fn delay_with_jitter(&self, k: usize, jitter: u64) -> (r: u64)
        requires
            self.wf(),
            k >= 1,
            jitter <= backoff(self.base_delay_ms as nat, k as nat) / 10,
        ensures
            r == backoff(self.base_delay_ms as nat, k as nat) + jitter,
    {
        let d = self.backoff_delay(k);
        d + jitter
    }

    /// What follows `attempts` failed attempts: another attempt while fewer
    /// than `max_retries` were made, the first one at once and each later
    /// one after the back-off plus a random jitter of at most a tenth of it.
    pub fn next_step(&self, attempts: usize) -> (r: RetryStep)
        requires
            self.wf(),
        ensures
            attempts >= self.max_retries ==> r == RetryStep::GiveUp,
            attempts < self.max_retries && attempts == 0 ==> r == (RetryStep::Attempt { wait_ms: 0 }),
            attempts < self.max_retries && attempts >= 1 ==> (r matches RetryStep::Attempt { wait_ms }
                && backoff(self.base_delay_ms as nat, attempts as nat) <= wait_ms
                && wait_ms <= backoff(self.base_delay_ms as nat, attempts as nat)
                + backoff(self.base_delay_ms as nat, attempts as nat) / 10),
    {
        if attempts >= self.max_retries {
            return RetryStep::GiveUp;
        }
        if attempts == 0 {
            return RetryStep::Attempt { wait_ms: 0 };
        }
        let d = self.backoff_delay(attempts);
        let jitter = random_up_to(d / 10);
        RetryStep::Attempt { wait_ms: self.delay_with_jitter(attempts, jitter) }
    }
}

proof fn lemma_pow2_mono(a: nat, b: nat)
    requires
        a <= b,
    ensures
        pow2(a) <= pow2(b),
    decreases b,
{
    if a < b {
        lemma_pow2_mono(a, (b - 1) as nat);
    }
}

proof fn lemma_backoff_sum_closed(base: nat, k: nat)
    requires
        k <= 11,
    ensures
        backoff_sum(base, k) + base == base * pow2(k),
    decreases k,
{
    if k > 0 {
        lemma_backoff_sum_closed(base, (k - 1) as nat);
        let p = pow2((k - 1) as nat);
        assert(pow2(k) == 2 * p);
        assert(backoff(base, k) == base * p);
        assert(base * p + base * p == base * (2 * p)) by (nonlinear_arith);
    } else {
        assert(pow2(0) == 1);
        assert(base * 1 == base);
    }
}

/// The waits of a retry sequence: with `k <= 11` waits, each between its
/// back-off and a tenth more, their total lies between `base * (2^k - 1)`
/// and `1.1 * base * (2^k - 1)`. (From the twelfth wait on, the exponent
/// stays at ten; the total then lies between `backoff_sum` and a tenth more.)
pub proof fn lemma_total_wait_bounds(base: nat, waits: Seq<nat>)
    requires
        forall|j: int| 0 <= j < waits.len() ==> backoff(base, (j + 1) as nat) <= #[trigger] waits[j]
            && waits[j] <= backoff(base, (j + 1) as nat) + backoff(base, (j + 1) as nat) / 10,
    ensures
        backoff_sum(base, waits.len()) <= total(waits),
        10 * total(waits) <= 11 * backoff_sum(base, waits.len()),
        waits.len() <= 11 ==> backoff_sum(base, waits.len()) == base * (pow2(waits.len()) - 1),
    decreases waits.len(),
{
    if waits.len() > 0 {
        let w = waits.drop_last();
        assert forall|j: int| 0 <= j < w.len() implies backoff(base, (j + 1) as nat) <= #[trigger] w[j]
            && w[j] <= backoff(base, (j + 1) as nat) + backoff(base, (j + 1) as nat) / 10 by {
            assert(w[j] == waits[j]);
        }
        lemma_total_wait_bounds(base, w);
        let j = waits.len() - 1;
        assert(waits[j] == waits.last());
    }
    if waits.len() <= 11 {
        lemma_backoff_sum_closed(base, waits.len());
        assert(base * pow2(waits.len()) - base == base * (pow2(waits.len()) - 1)) by (nonlinear_arith);
    }
}

} // verus!
