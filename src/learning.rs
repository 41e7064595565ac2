use vstd::prelude::*;

verus! {

/// What an environment reports after a step: a state, and whether it ends the episode.
pub enum Observation<S> {
    Full(S),
    Terminal(S),
}

impl<S> Observation<S> {
    /// The state carried by either variant.
    pub open spec fn state_view(&self) -> S {
        match self {
            Observation::Full(s) => *s,
            Observation::Terminal(s) => *s,
        }
    }

    /// The state carried by either variant.
    pub fn state(&self) -> (r: &S)
        ensures
            *r == self.state_view(),
    {
        match self {
            Observation::Full(s) => s,
            Observation::Terminal(s) => s,
        }
    }

    /// Whether this observation ends the episode.
    pub fn is_terminal(&self) -> (r: bool)
        ensures
            r == self is Terminal,
    {
        match self {
            Observation::Full(_) => false,
            Observation::Terminal(_) => true,
        }
    }
}

/// One step of interaction: the state left, the action taken, the reward, the state reached.
pub struct Transition<S, A> {
    pub from: Observation<S>,
    pub action: A,
    pub reward: i64,
    pub to: Observation<S>,
}

impl<S, A> Transition<S, A> {
    /// The transition ends the episode.
    pub open spec fn ends_episode(&self) -> bool {
        self.to is Terminal
    }

    /// Whether the transition ends the episode.
    pub fn terminated(&self) -> (r: bool)
        ensures
            r == self.ends_episode(),
    {
        self.to.is_terminal()
    }
}

/// Anything that reacts to an episode boundary.
pub trait Algorithm: Sized {
    /// The state after an episode boundary.
    spec fn after_terminal(self) -> Self;

    fn handle_terminal(&mut self)
        ensures
            *final(self) == old(self).after_terminal(),
    ;
}

/// Anything that learns from transitions as they arrive.
pub trait OnlineLearner<S, A>: Sized {
    /// The state after learning from `t`.
    spec fn after_transition(self, t: Transition<S, A>) -> Self;

    /// The state after learning from the whole batch `ts` at once.
    spec fn after_sequence(self, ts: Seq<Transition<S, A>>) -> Self;

    /// The learner is wired so that it can take `t` (for instance, dimensions agree).
    spec fn accepts(&self, t: Transition<S, A>) -> bool;

    /// The learner is wired so that it can take the batch `ts`.
    spec fn accepts_all(&self, ts: Seq<Transition<S, A>>) -> bool;

    fn handle_transition(&mut self, t: &Transition<S, A>)
        requires
            old(self).accepts(*t),
        ensures
            *final(self) == old(self).after_transition(*t),
    ;

    fn handle_sequence(&mut self, ts: &Vec<Transition<S, A>>)
        requires
            old(self).accepts_all(ts@),
        ensures
            *final(self) == old(self).after_sequence(ts@),
    ;
}

/// Anything that estimates the value of a state.
pub trait ValuePredictor<S> {
    spec fn value_of(&self, s: S) -> i64;

    fn predict_v(&self, s: &S) -> (r: i64)
        ensures
            r == self.value_of(*s),
    ;
}

/// Anything that estimates the value of each action in a state.
pub trait ActionValuePredictor<S, A> {
    spec fn action_values(&self, s: S) -> Seq<i64>;

    spec fn action_value(&self, s: S, a: A) -> i64;

    fn predict_qs(&self, s: &S) -> (r: Vec<i64>)
        ensures
            r@ == self.action_values(*s),
    ;

    fn predict_qsa(&self, s: &S, a: A) -> (r: i64)
        ensures
            r == self.action_value(*s, a),
    ;
}

/// Anything with a parameter vector that others may read and replace.
pub trait Parameterised: Sized {
    spec fn weight_view(&self) -> Seq<i64>;

    /// The same object with its parameter vector replaced by `w`.
    spec fn with_weights(self, w: Seq<i64>) -> Self;

    /// Replacing the parameters by a vector of the same length gives exactly that vector.
    proof fn lemma_with_weights(self, w: Seq<i64>)
        requires
            w.len() == self.weight_view().len(),
        ensures
            self.with_weights(w).weight_view() == w,
    ;

    fn weights(&self) -> (r: Vec<i64>)
        ensures
            r@ == self.weight_view(),
    ;

    fn set_weights(&mut self, w: Vec<i64>)
        requires
            w.len() == old(self).weight_view().len(),
        ensures
            *final(self) == old(self).with_weights(w@),
            final(self).weight_view() == w@,
    ;
}

/// Anything that picks an action for a state with a policy it may learn.
pub trait Controller<S, A> {
    /// `a` is an action that the learned (target) policy may pick at `s`.
    spec fn target_may_pick(&self, s: S, a: A) -> bool;

    /// `a` is an action that the exploring (behaviour) policy may pick at `s`.
    spec fn behaviour_may_pick(&self, s: S, a: A) -> bool;

    /// `self` and `other` differ at most in the target policy's sampling state.
    spec fn same_but_target(&self, other: &Self) -> bool;

    /// `self` and `other` differ at most in the behaviour policy's sampling state.
    spec fn same_but_behaviour(&self, other: &Self) -> bool;

    fn sample_target(&mut self, s: &S) -> (a: A)
        ensures
            old(self).target_may_pick(*s, a),
            final(self).same_but_target(&*old(self)),
    ;

    fn sample_behaviour(&mut self, s: &S) -> (a: A)
        ensures
            old(self).behaviour_may_pick(*s, a),
            final(self).same_but_behaviour(&*old(self)),
    ;
}

} // verus!
