use vstd::prelude::*;
use crate::arith::{clamp64, saturate, scale, scaled};
use crate::learning::{
    ActionValuePredictor, Algorithm, Controller, OnlineLearner, Parameterised, Transition,
    ValuePredictor,
};
use crate::parameter::Parameter;
use crate::policies::{ParameterisedPolicy, Policy};

verus! {

/// `w + alpha * c`, entry by entry, with `alpha` in millionths.
pub open spec fn blended(w: Seq<i64>, alpha: int, c: Seq<i64>) -> Seq<i64> {
    Seq::new(w.len(), |i: int| clamp64(w[i] + clamp64(scaled(alpha, c[i] as int))) as i64)
}

/// Adds `alpha` times `c` to `w`, entry by entry.
pub fn scaled_add(w: &Vec<i64>, alpha: u32, c: &Vec<i64>) -> (r: Vec<i64>)
    requires
        w.len() == c.len(),
    ensures
        r@ == blended(w@, alpha as int, c@),
{
    let mut r: Vec<i64> = Vec::new();
    let mut i: usize = 0;
    while i < w.len()
        invariant
            i <= w.len(),
            w.len() == c.len(),
            r@ == blended(w@, alpha as int, c@).take(i as int),
        decreases w.len() - i,
    {
        let x = saturate(w[i] as i128 + scale(alpha, c[i]) as i128);
        r.push(x);
        i = i + 1;
        assert(r@ =~= blended(w@, alpha as int, c@).take(i as int));
    }
    assert(r@ =~= blended(w@, alpha as int, c@));
    r
}

/// Natural actor-critic: the critic's own parameter vector stands for the natural
/// gradient, and is added to the policy's parameters after every update of the critic.
pub struct NAC<C, P> {
    pub critic: C,
    pub policy: P,
    pub alpha: Parameter,
}

impl<C, P> NAC<C, P> {
    pub fn new(critic: C, policy: P, alpha: Parameter) -> (r: Self)
        ensures
            r.critic == critic,
            r.policy == policy,
            r.alpha == alpha,
    {
        NAC { critic, policy, alpha }
    }
}

impl<C: Parameterised, P: Parameterised> NAC<C, P> {
    /// The algorithm once the policy has taken in the critic `c`'s parameters.
    pub open spec fn pushed(self, c: C) -> Self {
        NAC {
            critic: c,
            policy: self.policy.with_weights(
                blended(self.policy.weight_view(), self.alpha.value as int, c.weight_view()),
            ),
            alpha: self.alpha,
        }
    }

    /// Adds `alpha` times the critic's parameters to the policy's.
    fn push_critic_weights(&mut self)
        requires
            old(self).critic.weight_view().len() == old(self).policy.weight_view().len(),
        ensures
            *final(self) == old(self).pushed(old(self).critic),
    {
        let w = self.policy.weights();
        let c = self.critic.weights();
        let blend = scaled_add(&w, self.alpha.value, &c);
        self.policy.set_weights(blend);
    }
}

impl<C: Algorithm, P: Algorithm> Algorithm for NAC<C, P> {
    open spec fn after_terminal(self) -> Self {
        NAC {
            critic: self.critic.after_terminal(),
            policy: self.policy.after_terminal(),
            alpha: self.alpha.stepped(),
        }
    }

    fn handle_terminal(&mut self) {
        self.alpha = self.alpha.step();
        self.critic.handle_terminal();
        self.policy.handle_terminal();
    }
}

impl<S, A, C, P> OnlineLearner<S, A> for NAC<C, P> where
    C: OnlineLearner<S, A> + Parameterised,
    P: ParameterisedPolicy<S, A>,
 {
    open spec fn after_transition(self, t: Transition<S, A>) -> Self {
        self.pushed(self.critic.after_transition(t))
    }

    open spec fn after_sequence(self, ts: Seq<Transition<S, A>>) -> Self {
        self.pushed(self.critic.after_sequence(ts))
    }

    open spec fn accepts(&self, t: Transition<S, A>) -> bool {
        &&& self.critic.accepts(t)
        &&& self.critic.after_transition(t).weight_view().len() == self.policy.weight_view().len()
    }

    open spec fn accepts_all(&self, ts: Seq<Transition<S, A>>) -> bool {
        &&& self.critic.accepts_all(ts)
        &&& self.critic.after_sequence(ts).weight_view().len() == self.policy.weight_view().len()
    }

    fn handle_transition(&mut self, t: &Transition<S, A>) {
        self.critic.handle_transition(t);
        self.push_critic_weights();
    }

    fn handle_sequence(&mut self, ts: &Vec<Transition<S, A>>) {
        self.critic.handle_sequence(ts);
        self.push_critic_weights();
    }
}

impl<S, C: ValuePredictor<S>, P> ValuePredictor<S> for NAC<C, P> {
    open spec fn value_of(&self, s: S) -> i64 {
        self.critic.value_of(s)
    }

    fn predict_v(&self, s: &S) -> (r: i64) {
        self.critic.predict_v(s)
    }
}

impl<S, A, C: ActionValuePredictor<S, A>, P> ActionValuePredictor<S, A> for NAC<C, P> {
    open spec fn action_values(&self, s: S) -> Seq<i64> {
        self.critic.action_values(s)
    }

    open spec fn action_value(&self, s: S, a: A) -> i64 {
        self.critic.action_value(s, a)
    }

    fn predict_qs(&self, s: &S) -> (r: Vec<i64>) {
        self.critic.predict_qs(s)
    }

    fn predict_qsa(&self, s: &S, a: A) -> (r: i64) {
        self.critic.predict_qsa(s, a)
    }
}

impl<S, A, C, P: Policy<S, A>> Controller<S, A> for NAC<C, P> {
    open spec fn target_may_pick(&self, s: S, a: A) -> bool {
        self.policy.may_sample(s, a)
    }

    /// The same single policy both explores and is learned.
    open spec fn behaviour_may_pick(&self, s: S, a: A) -> bool {
        self.policy.may_sample(s, a)
    }

    open spec fn same_but_target(&self, other: &Self) -> bool {
        self.critic == other.critic && self.alpha == other.alpha
    }

    open spec fn same_but_behaviour(&self, other: &Self) -> bool {
        self.critic == other.critic && self.alpha == other.alpha
    }

    fn sample_target(&mut self, s: &S) -> A {
        self.policy.sample(s)
    }

    fn sample_behaviour(&mut self, s: &S) -> A {
        self.policy.sample(s)
    }
}

/// One transition moves the policy's parameters by exactly `alpha` times the
/// parameters that the critic holds after learning from it, entry by entry.
pub proof fn lemma_natural_step<S, A, C, P>(alg: NAC<C, P>, t: Transition<S, A>)
    where
        C: OnlineLearner<S, A> + Parameterised,
        P: ParameterisedPolicy<S, A>,
    requires
        alg.accepts(t),
    ensures
        ({
            let w = alg.policy.weight_view();
            let c = alg.critic.after_transition(t).weight_view();
            let next = alg.after_transition(t).policy.weight_view();
            &&& next.len() == w.len()
            &&& forall|i: int|
                0 <= i < w.len() ==> #[trigger] next[i] == clamp64(
                    w[i] + clamp64(scaled(alg.alpha.value as int, c[i] as int)),
                )
        }),
{
    let w = alg.policy.weight_view();
    let c = alg.critic.after_transition(t).weight_view();
    alg.policy.lemma_with_weights(blended(w, alg.alpha.value as int, c));
}

} // verus!
