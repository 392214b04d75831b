use vstd::prelude::*;

verus! {

/// The delay, in milliseconds, of the `k`-th retry: `base * factor^k`, clamped to `max`.
pub open spec fn backoff_delay(base: nat, factor: nat, max: nat, k: nat) -> nat {
    let raw = base * pow_nat(factor, k);
    if raw <= max {
        raw
    } else {
        max
    }
}

pub open spec fn pow_nat(b: nat, k: nat) -> nat
    decreases k,
{
    if k == 0 {
        1
    } else {
        b * pow_nat(b, (k - 1) as nat)
    }
}

/// A capped exponential delay generator. The delays are `base`, `base * factor`,
/// `base * factor^2`, ... in milliseconds, each clamped to `max_delay`. It never
/// runs out and never resets by itself.
pub struct ExponentialBackoff {
    current: u64,
    base: u64,
    factor: u64,
    max: u64,
    steps: Ghost<nat>,
}

impl ExponentialBackoff {
    /// The base delay, in milliseconds.
    pub closed spec fn base_ms(&self) -> nat {
        self.base as nat
    }

    pub closed spec fn factor_spec(&self) -> nat {
        self.factor as nat
    }

    /// The largest delay handed out, in milliseconds.
    pub closed spec fn max_ms(&self) -> nat {
        self.max as nat
    }

    /// How many delays have been handed out so far.
    pub closed spec fn steps(&self) -> nat {
        self.steps@
    }

    pub closed spec fn wf(&self) -> bool {
        let raw: nat = self.base_ms() * pow_nat(self.factor as nat, self.steps@);
        &&& self.current as nat == if raw <= u64::MAX { raw } else { u64::MAX as nat }
    }

    /// A generator whose first delay is `base_ms`, with factor 1 and no cap
    /// beyond the largest `u64`.
    pub fn from_millis(base_ms: u64) -> (r: Self)
        ensures
            r.wf(),
            r.base_ms() == base_ms,
            r.factor_spec() == 1,
            r.max_ms() == u64::MAX,
            r.steps() == 0,
    {
        let r = ExponentialBackoff {
            current: base_ms,
            base: base_ms,
            factor: 1,
            max: u64::MAX,
            steps: Ghost(0),
        };
        assert(pow_nat(1, r.steps@) == 1);
        assert(r.base_ms() * 1 == r.base_ms());
        r
    }

    /// Sets the multiplicative factor between consecutive delays; the
    /// sequence starts again from the base delay.
    pub fn factor(self, factor: u64) -> (r: Self)
        requires
            self.wf(),
        ensures
            r.wf(),
            r.base_ms() == self.base_ms(),
            r.factor_spec() == factor,
            r.max_ms() == self.max_ms(),
            r.steps() == 0,
    {
        let r = ExponentialBackoff { current: self.base, factor, steps: Ghost(0), ..self };
        assert(pow_nat(factor as nat, 0) == 1);
        assert(r.base_ms() * 1 == r.base_ms());
        r
    }

    /// Sets the cap on every delay, in milliseconds.
    pub fn max_delay(self, max_ms: u64) -> (r: Self)
        requires
            self.wf(),
        ensures
            r.wf(),
            r.base_ms() == self.base_ms(),
            r.factor_spec() == self.factor_spec(),
            r.max_ms() == max_ms,
            r.steps() == self.steps(),
    {
        ExponentialBackoff { max: max_ms, ..self }
    }

    /// Hands out the next delay, in milliseconds.
    pub fn next(&mut self) -> (d: u64)
        requires
            old(self).wf(),
        ensures
            final(self).wf(),
            final(self).base_ms() == old(self).base_ms(),
            final(self).factor_spec() == old(self).factor_spec(),
            final(self).max_ms() == old(self).max_ms(),
            final(self).steps() == old(self).steps() + 1,
            d as nat == backoff_delay(
                old(self).base_ms(),
                old(self).factor_spec(),
                old(self).max_ms(),
                old(self).steps(),
            ),
    {
        let d: u64 = if self.current <= self.max {
            self.current
        } else {
            self.max
        };
        let next: u64 = match self.current.checked_mul(self.factor) {
            Some(v) => v,
            None => u64::MAX,
        };
        proof {
            let k = self.steps@;
            let raw: nat = self.base_ms() * pow_nat(self.factor as nat, k);
            let f = self.factor as nat;
            assert(pow_nat(f, k + 1) == f * pow_nat(f, k));
            assert(self.base_ms() * pow_nat(f, (k + 1) as nat) == raw * f) by (nonlinear_arith)
                requires
                    pow_nat(f, (k + 1) as nat) == f * pow_nat(f, k),
                    raw == self.base_ms() * pow_nat(f, k),
            ;
            if raw > u64::MAX {
                if f >= 1 {
                    assert(raw * f >= raw) by (nonlinear_arith)
                        requires
                            f >= 1,
                    ;
                    assert((u64::MAX as nat) * f >= u64::MAX) by (nonlinear_arith)
                        requires
                            f >= 1,
                    ;
                } else {
                    assert(raw * f == 0) by (nonlinear_arith)
                        requires
                            f == 0,
                    ;
                }
            }
        }
        self.current = next;
        self.steps = Ghost(self.steps@ + 1);
        d
    }
}

/// Every delay stays within the cap, and while the factor is at least one the
/// delays never decrease from one retry to the next.
pub proof fn lemma_backoff_capped_and_monotone(base: nat, factor: nat, max: nat, k: nat)
    requires
        factor >= 1,
    ensures
        backoff_delay(base, factor, max, k) <= max,
        backoff_delay(base, factor, max, k) <= backoff_delay(base, factor, max, k + 1),
{
    let p = pow_nat(factor, k);
    assert(pow_nat(factor, k + 1) == factor * p);
    assert(base * (factor * p) >= base * p) by (nonlinear_arith)
        requires
            factor >= 1,
    ;
    assert(base * pow_nat(factor, (k + 1) as nat) == base * (factor * p));
}

} // verus!
