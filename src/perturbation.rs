use vstd::prelude::*;
use rand::rngs::ThreadRng;
use crate::arith::{clamp64, saturate};
use crate::learning::Algorithm;
use crate::policies::{FinitePolicy, Policy, PolicyError, Probability};
use crate::rng::draw_between;

verus! {

/// A base policy whose sampled action is shifted by noise drawn uniformly from the
/// integers between two bounds.
pub struct PerturbedPolicy<P> {
    pub base_policy: P,
    pub noise_low: i64,
    pub noise_high: i64,
    pub rng: ThreadRng,
}

/// The smaller of two bounds.
pub open spec fn lower(a: i64, b: i64) -> i64 {
    if a <= b {
        a
    } else {
        b
    }
}

/// The larger of two bounds.
pub open spec fn upper(a: i64, b: i64) -> i64 {
    if a <= b {
        b
    } else {
        a
    }
}

impl<P> PerturbedPolicy<P> {
    /// Perturbs `base_policy` with noise between `noise_low` and `noise_high`, drawn from
    /// the thread's generator.
    pub fn new(base_policy: P, noise_low: i64, noise_high: i64) -> (r: Self)
        ensures
            r.base_policy == base_policy,
            r.noise_low == noise_low,
            r.noise_high == noise_high,
    {
        PerturbedPolicy::with_rng(base_policy, noise_low, noise_high, rand::thread_rng())
    }

    /// Perturbs `base_policy` with noise between `noise_low` and `noise_high`, drawn from `rng`.
    pub fn with_rng(base_policy: P, noise_low: i64, noise_high: i64, rng: ThreadRng) -> (r: Self)
        ensures
            r.base_policy == base_policy,
            r.noise_low == noise_low,
            r.noise_high == noise_high,
            r.rng == rng,
    {
        PerturbedPolicy { base_policy, noise_low, noise_high, rng }
    }
}

impl<P> Algorithm for PerturbedPolicy<P> {
    open spec fn after_terminal(self) -> Self {
        self
    }

    fn handle_terminal(&mut self) {
    }
}

impl<S, P: Policy<S, i64>> Policy<S, i64> for PerturbedPolicy<P> {
    /// Some base action, shifted by some noise between the bounds (saturating).
    open spec fn may_sample(&self, s: S, a: i64) -> bool {
        exists|b: i64, n: i64|
            #![trigger self.base_policy.may_sample(s, b), clamp64(b + n)]
            self.base_policy.may_sample(s, b) && lower(self.noise_low, self.noise_high) <= n
                <= upper(self.noise_low, self.noise_high) && a == clamp64(b + n)
    }

    /// The density of the sum has no closed form.
    open spec fn probability_of(&self, s: S, a: i64) -> Option<Probability> {
        None
    }

    fn sample(&mut self, s: &S) -> (a: i64) {
        let base_action = self.base_policy.sample(s);
        let (low, high) = if self.noise_low <= self.noise_high {
            (self.noise_low, self.noise_high)
        } else {
            (self.noise_high, self.noise_low)
        };
        let noise = draw_between(&mut self.rng, low, high);
        let a = saturate(base_action as i128 + noise as i128);
        assert(old(self).base_policy.may_sample(*s, base_action) && clamp64(base_action + noise) == a);
        assert forall|s2: S, a2: i64| #[trigger] self.may_sample(s2, a2) == old(self).may_sample(s2, a2) by {
            if old(self).may_sample(s2, a2) {
                let (b, n) = choose|b: i64, n: i64|
                    #![trigger old(self).base_policy.may_sample(s2, b), clamp64(b + n)]
                    old(self).base_policy.may_sample(s2, b) && lower(self.noise_low, self.noise_high) <= n
                        <= upper(self.noise_low, self.noise_high) && a2 == clamp64(b + n);
                assert(self.base_policy.may_sample(s2, b));
            }
            if self.may_sample(s2, a2) {
                let (b, n) = choose|b: i64, n: i64|
                    #![trigger self.base_policy.may_sample(s2, b), clamp64(b + n)]
                    self.base_policy.may_sample(s2, b) && lower(self.noise_low, self.noise_high) <= n
                        <= upper(self.noise_low, self.noise_high) && a2 == clamp64(b + n);
                assert(old(self).base_policy.may_sample(s2, b));
            }
        }
        a
    }

    fn probability(&self, s: &S, a: i64) -> (r: Result<Probability, PolicyError>) {
        Err(PolicyError::Unsupported)
    }
}

/// `x` clamped to the range of `usize`.
pub open spec fn clamp_index(x: int) -> int {
    if x < 0 {
        0
    } else if x > usize::MAX as int {
        usize::MAX as int
    } else {
        x
    }
}

impl<S, P: Policy<S, usize>> Policy<S, usize> for PerturbedPolicy<P> {
    /// Some base action, shifted by some noise between the bounds (clamped to `usize`).
    open spec fn may_sample(&self, s: S, a: usize) -> bool {
        exists|b: usize, n: i64|
            #![trigger self.base_policy.may_sample(s, b), clamp_index(b + n)]
            self.base_policy.may_sample(s, b) && lower(self.noise_low, self.noise_high) <= n
                <= upper(self.noise_low, self.noise_high) && a == clamp_index(b + n)
    }

    /// The mass of the sum has no closed form.
    open spec fn probability_of(&self, s: S, a: usize) -> Option<Probability> {
        None
    }

    fn sample(&mut self, s: &S) -> (a: usize) {
        let base_action = self.base_policy.sample(s);
        let (low, high) = if self.noise_low <= self.noise_high {
            (self.noise_low, self.noise_high)
        } else {
            (self.noise_high, self.noise_low)
        };
        let noise = draw_between(&mut self.rng, low, high);
        let x: i128 = base_action as i128 + noise as i128;
        let a: usize = if x < 0 {
            0
        } else if x > usize::MAX as i128 {
            usize::MAX
        } else {
            x as usize
        };
        assert(old(self).base_policy.may_sample(*s, base_action) && clamp_index(base_action + noise) == a);
        assert forall|s2: S, a2: usize| #[trigger] self.may_sample(s2, a2) == old(self).may_sample(s2, a2) by {
            if old(self).may_sample(s2, a2) {
                let (b, n) = choose|b: usize, n: i64|
                    #![trigger old(self).base_policy.may_sample(s2, b), clamp_index(b + n)]
                    old(self).base_policy.may_sample(s2, b) && lower(self.noise_low, self.noise_high) <= n
                        <= upper(self.noise_low, self.noise_high) && a2 == clamp_index(b + n);
                assert(self.base_policy.may_sample(s2, b));
            }
            if self.may_sample(s2, a2) {
                let (b, n) = choose|b: usize, n: i64|
                    #![trigger self.base_policy.may_sample(s2, b), clamp_index(b + n)]
                    self.base_policy.may_sample(s2, b) && lower(self.noise_low, self.noise_high) <= n
                        <= upper(self.noise_low, self.noise_high) && a2 == clamp_index(b + n);
                assert(old(self).base_policy.may_sample(s2, b));
            }
        }
        a
    }

    fn probability(&self, s: &S, a: usize) -> (r: Result<Probability, PolicyError>) {
        Err(PolicyError::Unsupported)
    }
}

impl<S, P: FinitePolicy<S>> FinitePolicy<S> for PerturbedPolicy<P> {
    /// The base policy's actions.
    open spec fn action_count(&self) -> nat {
        self.base_policy.action_count()
    }

    /// The masses of the sum have no closed form.
    open spec fn probabilities_of(&self, s: S) -> Option<Seq<Probability>> {
        None
    }

    fn n_actions(&self) -> (r: usize) {
        self.base_policy.n_actions()
    }

    fn probabilities(&self, s: &S) -> (r: Result<Vec<Probability>, PolicyError>) {
        Err(PolicyError::Unsupported)
    }
}

} // verus!
