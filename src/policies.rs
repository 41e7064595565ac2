use vstd::prelude::*;
use crate::learning::{Algorithm, Parameterised};

verus! {

/// A probability held exactly as the fraction `num / den`.
#[derive(Clone, Copy, Debug, PartialEq, Eq, Structural)]
pub struct Probability {
    pub num: u64,
    pub den: u64,
}

/// `p` is greater than `r`, compared as fractions.
pub open spec fn exceeds(p: Probability, r: Probability) -> bool {
    p.num as int * r.den as int > r.num as int * p.den as int
}

/// Picks the first action whose probability exceeds the drawn fraction `r`, or the last
/// action where none does.
pub fn sample_probs(r: Probability, probabilities: &Vec<Probability>) -> (i: usize)
    requires
        probabilities.len() > 0,
    ensures
        i < probabilities.len(),
        forall|k: int| 0 <= k < i ==> !exceeds(#[trigger] probabilities@[k], r),
        exceeds(probabilities@[i as int], r) || i == probabilities.len() - 1,
{
    let n = probabilities.len();
    let mut i: usize = 0;
    while i < n
        invariant
            i <= n,
            n == probabilities.len(),
            forall|k: int| 0 <= k < i ==> !exceeds(#[trigger] probabilities@[k], r),
        decreases n - i,
    {
        let p = probabilities[i];
        assert(p.num as int * r.den as int <= u64::MAX as int * u64::MAX as int) by (nonlinear_arith)
            requires
                p.num <= u64::MAX,
                r.den <= u64::MAX,
        ;
        assert(r.num as int * p.den as int <= u64::MAX as int * u64::MAX as int) by (nonlinear_arith)
            requires
                r.num <= u64::MAX,
                p.den <= u64::MAX,
        ;
        if p.num as u128 * r.den as u128 > r.num as u128 * p.den as u128 {
            return i;
        }
        i = i + 1;
    }
    n - 1
}

/// Why a policy could not answer a query.
#[derive(Clone, Copy, Debug, PartialEq, Eq, Structural)]
pub enum PolicyError {
    /// The policy has no closed form for the asked quantity.
    Unsupported,
}

/// A rule that selects actions for states.
pub trait Policy<S, A>: Algorithm {
    /// `a` is an action that `sample` may return at `s`.
    spec fn may_sample(&self, s: S, a: A) -> bool;

    /// The probability of `a` at `s`, or `None` where it has no closed form.
    spec fn probability_of(&self, s: S, a: A) -> Option<Probability>;

    /// Draws an action from the policy's distribution at `s`.
    fn sample(&mut self, s: &S) -> (a: A)
        ensures
            old(self).may_sample(*s, a),
            forall|s2: S, a2: A| #[trigger] final(self).may_sample(s2, a2) == old(self).may_sample(s2, a2),
            forall|s2: S, a2: A| #[trigger] final(self).probability_of(s2, a2) == old(self).probability_of(s2, a2),
    ;

    /// The probability (or density) of selecting `a` at `s`.
    fn probability(&self, s: &S, a: A) -> (r: Result<Probability, PolicyError>)
        ensures
            r matches Ok(p) ==> self.probability_of(*s, a) == Some(p),
            r is Err <==> self.probability_of(*s, a) is None,
    ;
}

/// A policy over the actions `0 .. n_actions()`.
pub trait FinitePolicy<S>: Policy<S, usize> {
    spec fn action_count(&self) -> nat;

    /// The probability of each action at `s`, or `None` where there is no closed form.
    spec fn probabilities_of(&self, s: S) -> Option<Seq<Probability>>;

    fn n_actions(&self) -> (r: usize)
        ensures
            r == self.action_count(),
    ;

    fn probabilities(&self, s: &S) -> (r: Result<Vec<Probability>, PolicyError>)
        ensures
            r matches Ok(v) ==> self.probabilities_of(*s) == Some(v@),
            r is Err <==> self.probabilities_of(*s) is None,
    ;
}

/// A policy whose log-probability can be differentiated in its parameters.
pub trait DifferentiablePolicy<S, A>: Policy<S, A> {
    spec fn grad_log_of(&self, s: S, a: A) -> Seq<i64>;

    fn grad_log(&self, s: &S, a: A) -> (r: Vec<i64>)
        ensures
            r@ == self.grad_log_of(*s, a),
    ;
}

/// A policy with a parameter vector that learning moves in a given direction.
pub trait ParameterisedPolicy<S, A>: Policy<S, A> + Parameterised {
    /// The policy after its parameters were nudged by `direction` at `s` for `a`.
    spec fn after_update(self, s: S, a: A, direction: i64) -> Self;

    fn update(&mut self, s: &S, a: A, direction: i64)
        ensures
            *final(self) == old(self).after_update(*s, a, direction),
    ;
}

/// A parameterised policy over scalar actions with a most probable action.
pub trait ContinuousPolicy<S>: ParameterisedPolicy<S, i64> {
    spec fn mode(&self, s: S) -> i64;

    /// The most probable action (the mean) at `s`.
    fn mpa(&self, s: &S) -> (r: i64)
        ensures
            r == self.mode(*s),
    ;
}

} // verus!
