use vstd::prelude::*;
use crate::arith::{ceil_over_sqrt, ceil_over_sqrt_spec, clamp64, floor_div, saturate, scale, scaled, UNIT};
use crate::learning::{
    ActionValuePredictor, Algorithm, Controller, OnlineLearner, Transition, ValuePredictor,
};
use crate::parameter::Parameter;
use crate::policies::{ContinuousPolicy, Policy};

verus! {

/// The bootstrapped return of a transition: the reward, plus the discounted value of
/// the state reached unless the transition ends the episode.
pub open spec fn bootstrap_of(reward: int, gamma: int, next_value: int, terminal: bool) -> int {
    if terminal {
        reward
    } else {
        clamp64(reward + clamp64(scaled(gamma, next_value)))
    }
}

/// The running variance after one more squared return, moved towards it at rate `beta`
/// and kept at least one.
pub open spec fn variance_after(variance: int, beta: int, td: int) -> int {
    let v = clamp64(variance + scaled(beta, clamp64(td * td) - variance));
    if v < 1 {
        1
    } else {
        v
    }
}

/// The step handed to the policy: `alpha * scaler * (action - mpa)`.
pub open spec fn direction_of(alpha: int, scaler: int, action: int, mpa: int) -> int {
    clamp64(scaled(alpha, clamp64(scaler * clamp64(action - mpa))))
}

/// The bootstrapped return: `reward`, plus `gamma` times `next_value` where the episode goes on.
pub fn bootstrap(reward: i64, gamma: u32, next_value: Option<i64>) -> (r: i64)
    ensures
        next_value matches Some(nv) ==> r == bootstrap_of(reward as int, gamma as int, nv as int, false),
        next_value is None ==> r == reward,
{
    match next_value {
        None => reward,
        Some(nv) => saturate(reward as i128 + scale(gamma, nv) as i128),
    }
}

/// One step of the exponential moving average of the squared return.
pub fn blend_variance(variance: i64, beta: u32, td: i64) -> (r: i64)
    ensures
        r == variance_after(variance as int, beta as int, td as int),
        r >= 1,
{
    let wide: i128 = td as i128;
    assert(-0x4000_0000_0000_0000_0000_0000_0000_0000 <= wide * wide <= 0x4000_0000_0000_0000_0000_0000_0000_0000) by (nonlinear_arith)
        requires
            i64::MIN as int <= wide <= i64::MAX as int,
    ;
    let sq: i64 = saturate(wide * wide);
    let diff: i128 = sq as i128 - variance as i128;
    assert(-0x1_0000_0000_0000_0000_0000_0000 < beta as int * diff < 0x1_0000_0000_0000_0000_0000_0000) by (nonlinear_arith)
        requires
            0 <= beta <= u32::MAX,
            -0x1_0000_0000_0000_0000 <= diff <= 0x1_0000_0000_0000_0000,
    ;
    let moved: i128 = floor_div(beta as i128 * diff, UNIT as i128);
    proof {
        vstd::arithmetic::div_mod::lemma_div_is_ordered(beta as int * diff, 0x1_0000_0000_0000_0000_0000_0000, UNIT as int);
        vstd::arithmetic::div_mod::lemma_div_is_ordered(-0x1_0000_0000_0000_0000_0000_0000, beta as int * diff, UNIT as int);
    }
    let v: i64 = saturate(variance as i128 + moved);
    if v < 1 {
        1
    } else {
        v
    }
}

/// The step handed to the policy, `alpha * scaler * (action - mpa)`, with `alpha` in millionths.
pub fn update_direction(alpha: u32, scaler: i64, action: i64, mpa: i64) -> (r: i64)
    ensures
        r == direction_of(alpha as int, scaler as int, action as int, mpa as int),
{
    let gap: i64 = saturate(action as i128 - mpa as i128);
    assert(-0x4000_0000_0000_0000_0000_0000_0000_0000 <= scaler as int * gap as int <= 0x4000_0000_0000_0000_0000_0000_0000_0000) by (nonlinear_arith)
        requires
            i64::MIN as int <= scaler <= i64::MAX as int,
            i64::MIN as int <= gap <= i64::MAX as int,
    ;
    let stretched: i64 = saturate(scaler as i128 * gap as i128);
    scale(alpha, stretched)
}

/// Continuous actor-critic learning automaton with a variance-normalised step: the
/// target policy moves towards an action only when the bootstrapped return exceeds
/// the critic's estimate, by a whole number of steps that grows with the return's
/// size relative to the running standard deviation.
pub struct CACLAVar<C, PT, PB> {
    pub critic: C,
    pub variance: i64,
    pub target_policy: PT,
    pub behaviour_policy: PB,
    pub alpha: Parameter,
    pub beta: Parameter,
    pub gamma: Parameter,
}

impl<C, PT, PB> CACLAVar<C, PT, PB> {
    pub fn new(
        critic: C,
        target_policy: PT,
        behaviour_policy: PB,
        alpha: Parameter,
        beta: Parameter,
        gamma: Parameter,
    ) -> (r: Self)
        ensures
            r.critic == critic,
            r.variance == 1,
            r.target_policy == target_policy,
            r.behaviour_policy == behaviour_policy,
            r.alpha == alpha,
            r.beta == beta,
            r.gamma == gamma,
    {
        CACLAVar { critic, variance: 1, target_policy, behaviour_policy, alpha, beta, gamma }
    }

    /// The running variance of the bootstrapped return.
    pub fn variance(&self) -> (r: i64)
        ensures
            r == self.variance,
    {
        self.variance
    }
}

impl<C: Algorithm, PT: Algorithm, PB: Algorithm> Algorithm for CACLAVar<C, PT, PB> {
    open spec fn after_terminal(self) -> Self {
        CACLAVar {
            critic: self.critic.after_terminal(),
            variance: 1,
            target_policy: self.target_policy.after_terminal(),
            behaviour_policy: self.behaviour_policy.after_terminal(),
            alpha: self.alpha.stepped(),
            beta: self.beta,
            gamma: self.gamma.stepped(),
        }
    }

    fn handle_terminal(&mut self) {
        self.alpha = self.alpha.step();
        self.gamma = self.gamma.step();
        self.critic.handle_terminal();
        self.variance = 1;
        self.target_policy.handle_terminal();
        self.behaviour_policy.handle_terminal();
    }
}

/// The bootstrapped return of `t` under the current critic and discount.
pub open spec fn td_of<
    S,
    C: OnlineLearner<S, i64> + ValuePredictor<S>,
    PT: ContinuousPolicy<S>,
    PB,
>(
    alg: &CACLAVar<C, PT, PB>,
    t: Transition<S, i64>,
) -> int {
    bootstrap_of(
        t.reward as int,
        alg.gamma.value as int,
        alg.critic.value_of(t.to.state_view()) as int,
        t.ends_episode(),
    )
}

/// The update fires only where the return beats the critic's estimate of the state left.
pub open spec fn gate_opens<
    S,
    C: OnlineLearner<S, i64> + ValuePredictor<S>,
    PT: ContinuousPolicy<S>,
    PB,
>(
    alg: &CACLAVar<C, PT, PB>,
    t: Transition<S, i64>,
) -> bool {
    td_of(alg, t) > alg.critic.value_of(t.from.state_view()) as int
}

/// The direction given to the target policy's update for `t`.
pub open spec fn step_of<
    S,
    C: OnlineLearner<S, i64> + ValuePredictor<S>,
    PT: ContinuousPolicy<S>,
    PB,
>(
    alg: &CACLAVar<C, PT, PB>,
    t: Transition<S, i64>,
) -> i64 {
    let td = td_of(alg, t);
    let variance = variance_after(alg.variance as int, alg.beta.value as int, td);
    direction_of(
        alg.alpha.value as int,
        ceil_over_sqrt_spec(td, variance),
        t.action as int,
        alg.target_policy.mode(t.from.state_view()) as int,
    ) as i64
}

/// The whole algorithm after learning from `t`.
pub open spec fn learned<
    S,
    C: OnlineLearner<S, i64> + ValuePredictor<S>,
    PT: ContinuousPolicy<S>,
    PB,
>(
    alg: CACLAVar<C, PT, PB>,
    t: Transition<S, i64>,
) -> CACLAVar<C, PT, PB> {
    CACLAVar {
        critic: alg.critic.after_transition(t),
        variance: variance_after(alg.variance as int, alg.beta.value as int, td_of(&alg, t)) as i64,
        target_policy: if gate_opens(&alg, t) {
            alg.target_policy.after_update(t.from.state_view(), t.action, step_of(&alg, t))
        } else {
            alg.target_policy
        },
        behaviour_policy: alg.behaviour_policy,
        alpha: alg.alpha,
        beta: alg.beta,
        gamma: alg.gamma,
    }
}

/// The whole algorithm after learning from each of `ts` in turn.
pub open spec fn learned_all<
    S,
    C: OnlineLearner<S, i64> + ValuePredictor<S>,
    PT: ContinuousPolicy<S>,
    PB,
>(
    alg: CACLAVar<C, PT, PB>,
    ts: Seq<Transition<S, i64>>,
) -> CACLAVar<C, PT, PB>
    decreases ts.len(),
{
    if ts.len() == 0 {
        alg
    } else {
        learned(learned_all(alg, ts.drop_last()), ts.last())
    }
}

impl<S, C, PT, PB> OnlineLearner<S, i64> for CACLAVar<C, PT, PB> where
    C: OnlineLearner<S, i64> + ValuePredictor<S>,
    PT: ContinuousPolicy<S>,
 {
    open spec fn after_transition(self, t: Transition<S, i64>) -> Self {
        learned(self, t)
    }

    open spec fn after_sequence(self, ts: Seq<Transition<S, i64>>) -> Self {
        learned_all(self, ts)
    }

    open spec fn accepts(&self, t: Transition<S, i64>) -> bool {
        self.critic.accepts(t)
    }

    open spec fn accepts_all(&self, ts: Seq<Transition<S, i64>>) -> bool {
        forall|i: int|
            0 <= i < ts.len() ==> (#[trigger] learned_all(*self, ts.take(i))).critic.accepts(ts[i])
    }

    fn handle_transition(&mut self, t: &Transition<S, i64>) {
        let s = t.from.state();
        let v = self.critic.predict_v(s);
        let next_value: Option<i64> = if t.terminated() {
            None
        } else {
            Some(self.critic.predict_v(t.to.state()))
        };
        let td = bootstrap(t.reward, self.gamma.value, next_value);
        self.critic.handle_transition(t);
        self.variance = blend_variance(self.variance, self.beta.value, td);
        if td > v {
            let mpa = self.target_policy.mpa(s);
            let scaler = ceil_over_sqrt(td, self.variance);
            let direction = update_direction(self.alpha.value, scaler, t.action, mpa);
            self.target_policy.update(s, t.action, direction);
        }
    }

    fn handle_sequence(&mut self, ts: &Vec<Transition<S, i64>>) {
        let ghost start = *self;
        let mut i: usize = 0;
        while i < ts.len()
            invariant
                i <= ts.len(),
                *self == learned_all(start, ts@.take(i as int)),
                start.accepts_all(ts@),
            decreases ts.len() - i,
        {
            assert(learned_all(start, ts@.take(i as int)).critic.accepts(ts@[i as int]));
            self.handle_transition(&ts[i]);
            assert(ts@.take(i + 1).drop_last() == ts@.take(i as int));
            i = i + 1;
        }
        assert(ts@.take(ts.len() as int) == ts@);
    }
}

impl<S, C: ValuePredictor<S>, PT, PB> ValuePredictor<S> for CACLAVar<C, PT, PB> {
    open spec fn value_of(&self, s: S) -> i64 {
        self.critic.value_of(s)
    }

    fn predict_v(&self, s: &S) -> (r: i64) {
        self.critic.predict_v(s)
    }
}

impl<S, C: ActionValuePredictor<S, i64>, PT, PB> ActionValuePredictor<S, i64> for CACLAVar<C, PT, PB> {
    open spec fn action_values(&self, s: S) -> Seq<i64> {
        self.critic.action_values(s)
    }

    open spec fn action_value(&self, s: S, a: i64) -> i64 {
        self.critic.action_value(s, a)
    }

    fn predict_qs(&self, s: &S) -> (r: Vec<i64>) {
        self.critic.predict_qs(s)
    }

    fn predict_qsa(&self, s: &S, a: i64) -> (r: i64) {
        self.critic.predict_qsa(s, a)
    }
}

impl<S, C, PT: Policy<S, i64>, PB: Policy<S, i64>> Controller<S, i64> for CACLAVar<C, PT, PB> {
    open spec fn target_may_pick(&self, s: S, a: i64) -> bool {
        self.target_policy.may_sample(s, a)
    }

    open spec fn behaviour_may_pick(&self, s: S, a: i64) -> bool {
        self.behaviour_policy.may_sample(s, a)
    }

    open spec fn same_but_target(&self, other: &Self) -> bool {
        &&& self.critic == other.critic
        &&& self.variance == other.variance
        &&& self.behaviour_policy == other.behaviour_policy
        &&& self.alpha == other.alpha
        &&& self.beta == other.beta
        &&& self.gamma == other.gamma
    }

    open spec fn same_but_behaviour(&self, other: &Self) -> bool {
        &&& self.critic == other.critic
        &&& self.variance == other.variance
        &&& self.target_policy == other.target_policy
        &&& self.alpha == other.alpha
        &&& self.beta == other.beta
        &&& self.gamma == other.gamma
    }

    fn sample_target(&mut self, s: &S) -> i64 {
        self.target_policy.sample(s)
    }

    fn sample_behaviour(&mut self, s: &S) -> i64 {
        self.behaviour_policy.sample(s)
    }
}

/// An episode boundary leaves the running variance at exactly one, whatever it was,
/// also on an algorithm that has seen no transition since it was made.
pub proof fn lemma_terminal_resets_variance<C: Algorithm, PT: Algorithm, PB: Algorithm>(
    alg: CACLAVar<C, PT, PB>,
)
    ensures
        alg.after_terminal().variance == 1,
{
}

/// Where the bootstrapped return does not exceed the critic's estimate of the state
/// left, the target policy is not updated.
pub proof fn lemma_closed_gate_keeps_policy<
    S,
    C: OnlineLearner<S, i64> + ValuePredictor<S>,
    PT: ContinuousPolicy<S>,
    PB,
>(alg: CACLAVar<C, PT, PB>, t: Transition<S, i64>)
    requires
        td_of(&alg, t) <= alg.critic.value_of(t.from.state_view()) as int,
    ensures
        learned(alg, t).target_policy == alg.target_policy,
{
}

/// Where the bootstrapped return exceeds the critic's estimate, the target policy is
/// updated once, at the state left and for the action taken, with the direction
/// `alpha * scaler * (action - mpa)`, where the scaler is the ceiling of the return
/// over the square root of the new running variance.
pub proof fn lemma_open_gate_step<
    S,
    C: OnlineLearner<S, i64> + ValuePredictor<S>,
    PT: ContinuousPolicy<S>,
    PB,
>(alg: CACLAVar<C, PT, PB>, t: Transition<S, i64>)
    requires
        td_of(&alg, t) > alg.critic.value_of(t.from.state_view()) as int,
    ensures
        ({
            let td = td_of(&alg, t);
            let variance = learned(alg, t).variance as int;
            let scaler = ceil_over_sqrt_spec(td, variance);
            let mpa = alg.target_policy.mode(t.from.state_view()) as int;
            &&& variance == variance_after(alg.variance as int, alg.beta.value as int, td)
            &&& variance >= 1
            &&& learned(alg, t).target_policy == alg.target_policy.after_update(
                t.from.state_view(),
                t.action,
                direction_of(alg.alpha.value as int, scaler, t.action as int, mpa) as i64,
            )
        }),
{
}

/// A transition that ends the episode uses its reward alone as the return, and still
/// passes through the critic.
pub proof fn lemma_terminal_transition<
    S,
    C: OnlineLearner<S, i64> + ValuePredictor<S>,
    PT: ContinuousPolicy<S>,
    PB,
>(alg: CACLAVar<C, PT, PB>, t: Transition<S, i64>)
    requires
        t.ends_episode(),
    ensures
        td_of(&alg, t) == t.reward as int,
        learned(alg, t).critic == alg.critic.after_transition(t),
        gate_opens(&alg, t) <==> t.reward as int > alg.critic.value_of(t.from.state_view()) as int,
{
}

/// Where nothing saturates (the squared return fits in `i64` and the average stays
/// between one and `i64::MAX`), the new variance is exactly
/// `variance + beta * (td * td - variance)`, rounded down; on a transition that ends the
/// episode `td` is the reward.
pub proof fn lemma_variance_exact<
    S,
    C: OnlineLearner<S, i64> + ValuePredictor<S>,
    PT: ContinuousPolicy<S>,
    PB,
>(alg: CACLAVar<C, PT, PB>, t: Transition<S, i64>)
    requires
        ({
            let td = td_of(&alg, t);
            let avg = alg.variance as int + scaled(alg.beta.value as int, td * td - alg.variance);
            &&& td * td <= i64::MAX as int
            &&& 1 <= avg <= i64::MAX as int
        }),
    ensures
        learned(alg, t).variance as int == alg.variance as int + scaled(
            alg.beta.value as int,
            td_of(&alg, t) * td_of(&alg, t) - alg.variance,
        ),
        t.ends_episode() ==> td_of(&alg, t) == t.reward as int,
{
    let td = td_of(&alg, t);
    assert(td * td >= 0) by (nonlinear_arith);
}

} // verus!
