//! Exponential reconnect backoff with a cap and optional jitter.

use vstd::prelude::*;
use vstd::arithmetic::power::{pow, lemma_pow_positive, lemma_pow_increases, lemma1_pow};

verus! {

/// How long to wait before each reconnect attempt, in milliseconds.
#[derive(Clone, Copy, Debug, PartialEq, Eq, Structural)]
pub struct BackoffPolicy {
    /// Delay before the first retry.
    pub base_ms: u64,
    /// Growth factor per consecutive failure; at least 1.
    pub factor: u64,
    /// Upper bound of every pre-jitter delay.
    pub max_ms: u64,
    /// Whether `jittered` randomises the delay.
    pub jitter: bool,
}

/// The smaller of two integers.
pub open spec fn min_int(a: int, b: int) -> int {
    if a <= b { a } else { b }
}

/// Pre-jitter delay after the `n`-th consecutive failure (`n >= 1`):
/// `min(base * factor^(n-1), max)`.
pub open spec fn backoff_delay(base: u64, factor: u64, max: u64, n: nat) -> int {
    min_int(base * pow(factor as int, (n - 1) as nat), max as int)
}

/// Growing the uncapped value by `f >= 1` and capping again is the same as
/// capping once at the end.
proof fn lemma_cap_step(x: int, f: int, m: int)
    requires
        x >= 0,
        f >= 1,
        m >= 0,
    ensures
        min_int(min_int(x, m) * f, m) == min_int(x * f, m),
{
    assert(x * f >= x) by (nonlinear_arith)
        requires x >= 0, f >= 1;
    assert(m * f >= m) by (nonlinear_arith)
        requires m >= 0, f >= 1;
}

impl BackoffPolicy {
    /// The growth factor is at least 1.
    pub open spec fn wf(&self) -> bool {
        self.factor >= 1
    }

    /// Pre-jitter delay after `failures` consecutive failures (at least one).
    pub fn delay(&self, failures: u64) -> (r: u64)
        requires
            self.wf(),
            failures >= 1,
        ensures
            r == backoff_delay(self.base_ms, self.factor, self.max_ms, failures as nat),
    {
        let b = self.base_ms;
        let f = self.factor;
        let m = self.max_ms;
        let ghost n = (failures - 1) as nat;
        if f == 1 || b == 0 {
            proof {
                lemma1_pow(n);
                lemma_pow_positive(f as int, n);
                assert(b * pow(f as int, n) == b || b == 0 && b * pow(f as int, n) == 0) by (nonlinear_arith)
                    requires f == 1 ==> pow(f as int, n) == 1, f == 1 || b == 0;
            }
            return if b <= m { b } else { m };
        }
        let mut d: u64 = if b <= m { b } else { m };
        let mut k: u64 = 0;
        proof {
            reveal(pow);
            assert(pow(f as int, 0) == 1);
        }
        while k < failures - 1
            invariant
                f >= 2,
                b >= 1,
                n == failures - 1,
                b == self.base_ms,
                f == self.factor,
                m == self.max_ms,
                k <= failures - 1,
                d as int == min_int(b * pow(f as int, k as nat), m as int),
            decreases failures - 1 - k,
        {
            if d == m {
                proof {
                    lemma_pow_increases(f as nat, k as nat, n);
                    assert(b * pow(f as int, k as nat) <= b * pow(f as int, n)) by (nonlinear_arith)
                        requires pow(f as int, k as nat) <= pow(f as int, n), b >= 1;
                    assert(b * pow(f as int, n) >= m);
                }
                return d;
            }
            proof {
                reveal(pow);
                assert(pow(f as int, (k + 1) as nat) == f * pow(f as int, k as nat));
                lemma_pow_positive(f as int, k as nat);
                lemma_cap_step(b * pow(f as int, k as nat), f as int, m as int);
                assert(b * pow(f as int, k as nat) * f == b * pow(f as int, (k + 1) as nat)) by (nonlinear_arith)
                    requires pow(f as int, (k + 1) as nat) == f * pow(f as int, k as nat);
                assert(b * pow(f as int, k as nat) >= 0) by (nonlinear_arith)
                    requires pow(f as int, k as nat) > 0, b >= 1;
            }
            if d > m / f {
                assert(d * f > m) by (nonlinear_arith)
                    requires d > m / f, f >= 2;
                d = m;
            } else {
                assert(d * f <= m) by (nonlinear_arith)
                    requires d <= m / f, f >= 2;
                d = d * f;
            }
            k = k + 1;
        }
        d
    }

    /// The delay actually waited: `delay` itself without jitter; with it, a
    /// value in `[delay - delay / 2, delay]` picked by `entropy`, so that
    /// clients that failed together do not retry together.
    pub fn jittered(&self, delay: u64, entropy: u64) -> (r: u64)
        ensures
            !self.jitter ==> r == delay,
            self.jitter ==> r == delay - entropy % (delay / 2 + 1) as u64,
            r <= delay,
            r >= delay - delay / 2,
    {
        if !self.jitter {
            return delay;
        }
        let cut = entropy % (delay / 2 + 1);
        delay - cut
    }
}

} // verus!
