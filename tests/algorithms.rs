use actor_critic::cacla_var::CACLAVar;
use actor_critic::learning::{
    Algorithm, Controller, Observation, OnlineLearner, Parameterised, Transition, ValuePredictor,
};
use actor_critic::nac::NAC;
use actor_critic::parameter::Parameter;
use actor_critic::policies::{ContinuousPolicy, ParameterisedPolicy, Policy, PolicyError, Probability};
use vstd::seq::Seq;

// The trait items that return `Seq` or `Self` by value are spec items: they are never
// run, and stand here only so that the stubs have the traits' full shape.

/// A critic whose estimate of state `s` is `10 * s`, with fixed weights.
struct StubCritic {
    weights: Vec<i64>,
    seen: usize,
    terminals: usize,
}

impl StubCritic {
    fn new(weights: Vec<i64>) -> Self {
        StubCritic { weights, seen: 0, terminals: 0 }
    }
}

impl Algorithm for StubCritic {
    fn after_terminal(self) -> Self {
        self
    }

    fn handle_terminal(&mut self) {
        self.terminals += 1;
    }
}

impl OnlineLearner<i64, i64> for StubCritic {
    fn after_transition(self, _: Transition<i64, i64>) -> Self {
        self
    }

    fn after_sequence(self, _: Seq<Transition<i64, i64>>) -> Self {
        self
    }

    fn accepts(&self, _: Transition<i64, i64>) -> bool {
        true
    }

    fn accepts_all(&self, _: Seq<Transition<i64, i64>>) -> bool {
        true
    }

    fn handle_transition(&mut self, _: &Transition<i64, i64>) {
        self.seen += 1;
    }

    fn handle_sequence(&mut self, ts: &Vec<Transition<i64, i64>>) {
        self.seen += ts.len();
    }
}

impl ValuePredictor<i64> for StubCritic {
    fn value_of(&self, s: i64) -> i64 {
        10 * s
    }

    fn predict_v(&self, s: &i64) -> i64 {
        10 * *s
    }
}

impl Parameterised for StubCritic {
    fn weight_view(&self) -> Seq<i64> {
        vstd::view::View::view(&self.weights)
    }

    fn with_weights(self, _: Seq<i64>) -> Self {
        self
    }

    fn lemma_with_weights(self, _: Seq<i64>) {}

    fn weights(&self) -> Vec<i64> {
        self.weights.clone()
    }

    fn set_weights(&mut self, w: Vec<i64>) {
        self.weights = w;
    }
}

/// A policy with a fixed mean that records every update.
struct StubPolicy {
    mean: i64,
    weights: Vec<i64>,
    updates: Vec<(i64, i64, i64)>,
    terminals: usize,
}

impl StubPolicy {
    fn new(mean: i64, weights: Vec<i64>) -> Self {
        StubPolicy { mean, weights, updates: Vec::new(), terminals: 0 }
    }
}

impl Algorithm for StubPolicy {
    fn after_terminal(self) -> Self {
        self
    }

    fn handle_terminal(&mut self) {
        self.terminals += 1;
    }
}

impl Policy<i64, i64> for StubPolicy {
    fn may_sample(&self, _: i64, _: i64) -> bool {
        true
    }

    fn probability_of(&self, _: i64, _: i64) -> Option<Probability> {
        None
    }

    fn sample(&mut self, _: &i64) -> i64 {
        self.mean
    }

    fn probability(&self, _: &i64, _: i64) -> Result<Probability, PolicyError> {
        Err(PolicyError::Unsupported)
    }
}

impl Parameterised for StubPolicy {
    fn weight_view(&self) -> Seq<i64> {
        vstd::view::View::view(&self.weights)
    }

    fn with_weights(self, _: Seq<i64>) -> Self {
        self
    }

    fn lemma_with_weights(self, _: Seq<i64>) {}

    fn weights(&self) -> Vec<i64> {
        self.weights.clone()
    }

    fn set_weights(&mut self, w: Vec<i64>) {
        self.weights = w;
    }
}

impl ParameterisedPolicy<i64, i64> for StubPolicy {
    fn after_update(self, _: i64, _: i64, _: i64) -> Self {
        self
    }

    fn update(&mut self, s: &i64, a: i64, direction: i64) {
        self.updates.push((*s, a, direction));
    }
}

impl ContinuousPolicy<i64> for StubPolicy {
    fn mode(&self, _: i64) -> i64 {
        self.mean
    }

    fn mpa(&self, _: &i64) -> i64 {
        self.mean
    }
}

fn step(from: i64, action: i64, reward: i64, to: Observation<i64>) -> Transition<i64, i64> {
    Transition { from: Observation::Full(from), action, reward, to }
}

fn cacla() -> CACLAVar<StubCritic, StubPolicy, StubPolicy> {
    CACLAVar::new(
        StubCritic::new(vec![]),
        StubPolicy::new(10, vec![]),
        StubPolicy::new(-4, vec![]),
        Parameter::fixed(100_000),
        Parameter::fixed(500_000),
        Parameter::fixed(1_000_000),
    )
}

#[test]
fn cacla_update_uses_ceiling_scaler() {
    let mut alg = cacla();
    // td = 5 + 1.0 * 10 = 15; variance = 1 + 0.5 * (225 - 1) = 113;
    // scaler = ceil(15 / sqrt(113)) = 2; direction = 0.1 * 2 * (30 - 10) = 4.
    alg.handle_transition(&step(0, 30, 5, Observation::Full(1)));
    assert_eq!(alg.variance(), 113);
    assert_eq!(alg.target_policy.updates, vec![(0, 30, 4)]);
    assert_eq!(alg.critic.seen, 1);
}

#[test]
fn cacla_no_update_when_return_not_above_estimate() {
    let mut alg = cacla();
    // estimate of state 2 is 20; td = 10 + 10 = 20, not above it.
    alg.handle_transition(&step(2, 30, 10, Observation::Full(1)));
    assert!(alg.target_policy.updates.is_empty());
    assert_eq!(alg.critic.seen, 1);
    // variance still moves: 1 + 0.5 * (400 - 1) = 200 (rounded down).
    assert_eq!(alg.variance(), 200);
}

#[test]
fn cacla_terminal_transition_uses_reward_alone() {
    let mut alg = cacla();
    // td = 5 (no bootstrap from state 1); variance = 1 + 0.5 * 24 = 13;
    // scaler = ceil(5 / sqrt(13)) = 2; direction = 0.1 * 2 * (25 - 10) = 3.
    alg.handle_transition(&step(0, 25, 5, Observation::Terminal(1)));
    assert_eq!(alg.variance(), 13);
    assert_eq!(alg.target_policy.updates, vec![(0, 25, 3)]);
    assert_eq!(alg.critic.seen, 1);
}

#[test]
fn cacla_terminal_resets_variance() {
    let mut alg = cacla();
    alg.handle_transition(&step(0, 30, 5, Observation::Full(1)));
    assert_ne!(alg.variance(), 1);
    alg.handle_terminal();
    assert_eq!(alg.variance(), 1);
    assert_eq!(alg.critic.terminals, 1);
    assert_eq!(alg.target_policy.terminals, 1);
    assert_eq!(alg.behaviour_policy.terminals, 1);
}

#[test]
fn cacla_empty_episode_boundary() {
    let mut alg = cacla();
    alg.handle_terminal();
    assert_eq!(alg.variance(), 1);
}

#[test]
fn cacla_steps_schedules_on_terminal() {
    let mut alg = CACLAVar::new(
        StubCritic::new(vec![]),
        StubPolicy::new(0, vec![]),
        StubPolicy::new(0, vec![]),
        Parameter::linear(300_000, 100_000),
        Parameter::exponential(500_000, 500_000),
        Parameter::exponential(1_000_000, 900_000),
    );
    alg.handle_terminal();
    assert_eq!(alg.alpha.value(), 200_000);
    assert_eq!(alg.gamma.value(), 900_000);
    assert_eq!(alg.beta.value(), 500_000);
}

#[test]
fn cacla_sequence_matches_single_steps() {
    let ts = vec![
        step(0, 30, 5, Observation::Full(1)),
        step(1, 12, 3, Observation::Full(2)),
        step(2, 40, 50, Observation::Terminal(3)),
    ];
    let mut one = cacla();
    for t in ts.iter() {
        one.handle_transition(t);
    }
    let mut all = cacla();
    all.handle_sequence(&ts);
    assert_eq!(one.variance(), all.variance());
    assert_eq!(one.target_policy.updates, all.target_policy.updates);
    assert_eq!(all.critic.seen, 3);
}

#[test]
fn cacla_delegates_prediction_and_sampling() {
    let mut alg = cacla();
    assert_eq!(alg.predict_v(&7), 70);
    assert_eq!(alg.sample_target(&0), 10);
    assert_eq!(alg.sample_behaviour(&0), -4);
}

#[test]
fn nac_adds_scaled_critic_weights() {
    let mut alg = NAC::new(
        StubCritic::new(vec![10, -20, 30]),
        StubPolicy::new(0, vec![1, 2, 3]),
        Parameter::fixed(500_000),
    );
    alg.handle_transition(&step(0, 1, 1, Observation::Full(1)));
    assert_eq!(alg.policy.weights, vec![6, -8, 18]);
    assert_eq!(alg.critic.seen, 1);
    alg.handle_transition(&step(1, 1, 1, Observation::Full(2)));
    assert_eq!(alg.policy.weights, vec![11, -18, 33]);
}

#[test]
fn nac_sequence_blends_once() {
    let mut alg = NAC::new(
        StubCritic::new(vec![4, -4]),
        StubPolicy::new(0, vec![0, 0]),
        Parameter::fixed(250_000),
    );
    let ts = vec![step(0, 1, 1, Observation::Full(1)), step(1, 1, 1, Observation::Terminal(2))];
    alg.handle_sequence(&ts);
    assert_eq!(alg.policy.weights, vec![1, -1]);
    assert_eq!(alg.critic.seen, 2);
}

#[test]
fn nac_terminal_steps_alpha_and_delegates() {
    let mut alg = NAC::new(
        StubCritic::new(vec![]),
        StubPolicy::new(0, vec![]),
        Parameter::linear(500_000, 200_000),
    );
    alg.handle_terminal();
    assert_eq!(alg.alpha.value(), 300_000);
    assert_eq!(alg.critic.terminals, 1);
    assert_eq!(alg.policy.terminals, 1);
    assert_eq!(alg.sample_target(&0), 0);
}
