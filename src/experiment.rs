use vstd::prelude::*;
use crate::learning::{Observation, Transition};

verus! {

/// What one episode came to.
#[derive(Clone, Copy, Debug, PartialEq, Eq, Structural)]
pub struct Episode {
    pub n_steps: u64,
    pub total_reward: i64,
}

/// An agent: picks actions and, in training, learns from what followed.
pub trait Agent<S, A>: Sized {
    /// The action picked at `s`.
    spec fn choice(&self, s: S) -> A;

    /// The agent after picking an action at `s`.
    spec fn after_pi(self, s: S) -> Self;

    /// The agent after learning from `t`.
    spec fn after_train(self, t: Transition<S, A>) -> Self;

    fn pi(&mut self, s: &S) -> (a: A)
        ensures
            a == old(self).choice(*s),
            *final(self) == old(self).after_pi(*s),
    ;

    fn train(&mut self, t: &Transition<S, A>)
        ensures
            *final(self) == old(self).after_train(*t),
    ;
}

/// An environment that an episode runs in.
pub trait Domain<S, A>: Sized {
    /// A bound on the steps left before the episode must end.
    spec fn horizon(&self) -> nat;

    /// The current observation.
    spec fn observation(&self) -> Observation<S>;

    /// The transition that action `a` produces.
    spec fn outcome(&self, a: A) -> Transition<S, A>;

    /// The domain after action `a`.
    spec fn after_step(self, a: A) -> Self;

    fn emit(&self) -> (o: Observation<S>)
        ensures
            o == self.observation(),
    ;

    /// Takes action `a`; every step that does not end the episode brings its end closer.
    fn step(&mut self, a: A) -> (t: Transition<S, A>)
        ensures
            t == old(self).outcome(a),
            *final(self) == old(self).after_step(a),
            !t.ends_episode() ==> final(self).horizon() < old(self).horizon(),
    ;
}

/// `total + reward`, saturating at the bounds of `i64`.
pub fn add_reward(total: i64, reward: i64) -> (r: i64)
    ensures
        r == crate::arith::clamp64(total + reward),
{
    crate::arith::saturate(total as i128 + reward as i128)
}

/// The sum of the rewards of `ts`, saturating at each addition.
pub open spec fn reward_sum<S, A>(ts: Seq<Transition<S, A>>) -> int
    decreases ts.len(),
{
    if ts.len() == 0 {
        0
    } else {
        crate::arith::clamp64(reward_sum(ts.drop_last()) + ts.last().reward)
    }
}

/// The transitions of at most `fuel` steps from domain `d`, starting with action `a`,
/// up to and including the first that ends the episode, and the agent afterwards; in
/// training the agent learns from each transition before it picks the next action.
pub open spec fn run<S, A, D: Domain<S, A>, G: Agent<S, A>>(
    d: D,
    g: G,
    a: A,
    fuel: nat,
    train: bool,
) -> (Seq<Transition<S, A>>, G)
    decreases fuel,
{
    if fuel == 0 {
        (Seq::empty(), g)
    } else {
        let t = d.outcome(a);
        let g1 = if train {
            g.after_train(t)
        } else {
            g
        };
        if t.ends_episode() {
            (seq![t], g1)
        } else {
            let s = t.to.state_view();
            let rest = run(d.after_step(a), g1.after_pi(s), g1.choice(s), (fuel - 1) as nat, train);
            (seq![t] + rest.0, rest.1)
        }
    }
}

/// An episode in domain `d`: the agent picks a first action at the domain's first
/// observation, then `run` goes on for at most `fuel` steps.
pub open spec fn episode<S, A, D: Domain<S, A>, G: Agent<S, A>>(
    d: D,
    g: G,
    fuel: nat,
    train: bool,
) -> (Seq<Transition<S, A>>, G) {
    let s = d.observation().state_view();
    run(d, g.after_pi(s), g.choice(s), fuel, train)
}

/// What an episode of transitions `ts` comes to.
pub open spec fn summary_of<S, A>(ts: Seq<Transition<S, A>>) -> Episode {
    Episode {
        n_steps: if ts.len() <= u64::MAX {
            ts.len() as u64
        } else {
            u64::MAX
        },
        total_reward: reward_sum(ts) as i64,
    }
}

proof fn lemma_run_step<S, A, D: Domain<S, A>, G: Agent<S, A>>(
    d: D,
    g: G,
    a: A,
    fuel: nat,
    train: bool,
)
    requires
        fuel > 0,
        !d.outcome(a).ends_episode(),
    ensures
        ({
            let t = d.outcome(a);
            let g1 = if train {
                g.after_train(t)
            } else {
                g
            };
            let s = t.to.state_view();
            let rest = run(d.after_step(a), g1.after_pi(s), g1.choice(s), (fuel - 1) as nat, train);
            run(d, g, a, fuel, train) == (seq![t] + rest.0, rest.1)
        }),
{
}

proof fn lemma_reward_sum_bounded<S, A>(ts: Seq<Transition<S, A>>)
    ensures
        i64::MIN as int <= reward_sum(ts) <= i64::MAX as int,
{
}

/// Runs training episodes of at most `step_limit` steps, each in a fresh domain.
pub struct SerialExperiment<A, D, F> {
    pub agent: A,
    pub domain_factory: F,
    pub step_limit: u64,
    pub marker: core::marker::PhantomData<D>,
}

impl<A, D, F: Fn() -> D> SerialExperiment<A, D, F> {
    /// A fresh domain can always be made.
    pub open spec fn wf(&self) -> bool {
        self.domain_factory.requires(())
    }

    pub fn new(agent: A, domain_factory: F, step_limit: u64) -> (r: Self)
        ensures
            r.agent == agent,
            r.domain_factory == domain_factory,
            r.step_limit == step_limit,
    {
        SerialExperiment { agent, domain_factory, step_limit, marker: core::marker::PhantomData }
    }

    /// Runs one training episode in a fresh domain: it stops after `step_limit` steps,
    /// or earlier at the first transition that ends the episode, and trains the agent on
    /// every transition, in order.
    pub fn next<S>(&mut self) -> (r: Option<Episode>)
        where
            A: Agent<S, usize>,
            D: Domain<S, usize>,
        requires
            old(self).wf(),
        ensures
            final(self).domain_factory == old(self).domain_factory,
            final(self).step_limit == old(self).step_limit,
            r matches Some(e) && exists|d: D|
                {
                    &&& old(self).domain_factory.ensures((), d)
                    &&& #[trigger] episode(d, old(self).agent, old(self).step_limit as nat, true).1
                        == final(self).agent
                    &&& e == summary_of(episode(d, old(self).agent, old(self).step_limit as nat, true).0)
                },
    {
        let mut domain = (self.domain_factory)();
        let ghost d0 = domain;
        let ghost g0 = self.agent;
        let first = domain.emit();
        let mut a = self.agent.pi(first.state());
        let ghost whole = episode(d0, g0, self.step_limit as nat, true);
        let ghost mut ts: Seq<Transition<S, usize>> = Seq::empty();
        let mut e = Episode { n_steps: 0, total_reward: 0 };
        let mut j: u64 = 0;
        while j < self.step_limit
            invariant_except_break
                whole.0 == ts + run(domain, self.agent, a, (self.step_limit - j) as nat, true).0,
                whole.1 == run(domain, self.agent, a, (self.step_limit - j) as nat, true).1,
            invariant
                j <= self.step_limit,
                self.step_limit == old(self).step_limit,
                self.domain_factory == old(self).domain_factory,
                ts.len() == j,
                e == summary_of(ts),
            ensures
                whole.0 =~= ts,
                whole.1 == self.agent,
                e == summary_of(ts),
            decreases self.step_limit - j,
        {
            let ghost fuel = (self.step_limit - j) as nat;
            let ghost d_before = domain;
            let ghost g_before = self.agent;
            let ghost a_before = a;
            let ghost prev = ts;
            j = j + 1;
            let t = domain.step(a);
            e.n_steps = j;
            e.total_reward = add_reward(e.total_reward, t.reward);
            proof {
                ts = ts.push(t);
                assert(ts.drop_last() == prev);
                lemma_reward_sum_bounded(ts);
            }
            self.agent.train(&t);
            if t.terminated() {
                proof {
                    assert(prev + seq![t] =~= ts);
                }
                break;
            }
            a = self.agent.pi(t.to.state());
            proof {
                lemma_run_step(d_before, g_before, a_before, fuel, true);
                let rest = run(domain, self.agent, a, (fuel - 1) as nat, true).0;
                assert(prev + (seq![t] + rest) =~= ts + rest);
            }
        }
        Some(e)
    }
}

/// Runs evaluation episodes to their natural end, without training.
pub struct Evaluation<A, D, F> {
    pub agent: A,
    pub domain_factory: F,
    pub marker: core::marker::PhantomData<D>,
}

impl<A, D, F: Fn() -> D> Evaluation<A, D, F> {
    /// A fresh domain can always be made.
    pub open spec fn wf(&self) -> bool {
        self.domain_factory.requires(())
    }

    pub fn new(agent: A, domain_factory: F) -> (r: Self)
        ensures
            r.agent == agent,
            r.domain_factory == domain_factory,
    {
        Evaluation { agent, domain_factory, marker: core::marker::PhantomData }
    }

    /// Runs one episode in a fresh domain until the first transition that ends it, with
    /// the same bookkeeping as training but without training the agent.
    pub fn next<S>(&mut self) -> (r: Option<Episode>)
        where
            A: Agent<S, usize>,
            D: Domain<S, usize>,
        requires
            old(self).wf(),
        ensures
            final(self).domain_factory == old(self).domain_factory,
            r matches Some(e) && exists|d: D|
                {
                    &&& old(self).domain_factory.ensures((), d)
                    &&& #[trigger] episode(d, old(self).agent, d.horizon() + 1, false).1 == final(self).agent
                    &&& e == summary_of(episode(d, old(self).agent, d.horizon() + 1, false).0)
                    &&& episode(d, old(self).agent, d.horizon() + 1, false).0.len() >= 1
                    &&& episode(d, old(self).agent, d.horizon() + 1, false).0.last().ends_episode()
                },
    {
        let mut domain = (self.domain_factory)();
        let ghost d0 = domain;
        let ghost g0 = self.agent;
        let first = domain.emit();
        let mut a = self.agent.pi(first.state());
        let ghost whole = episode(d0, g0, d0.horizon() + 1, false);
        let ghost mut ts: Seq<Transition<S, usize>> = Seq::empty();
        let ghost mut fuel: nat = d0.horizon() + 1;
        let mut e = Episode { n_steps: 0, total_reward: 0 };
        loop
            invariant_except_break
                whole.0 == ts + run(domain, self.agent, a, fuel, false).0,
                whole.1 == run(domain, self.agent, a, fuel, false).1,
                domain.horizon() < fuel,
            invariant
                self.domain_factory == old(self).domain_factory,
                e == summary_of(ts),
            ensures
                whole.0 =~= ts,
                whole.1 == self.agent,
                e == summary_of(ts),
                ts.len() >= 1,
                ts.last().ends_episode(),
            decreases domain.horizon(),
        {
            let ghost d_before = domain;
            let ghost g_before = self.agent;
            let ghost a_before = a;
            let ghost prev = ts;
            let t = domain.step(a);
            if e.n_steps < u64::MAX {
                e.n_steps = e.n_steps + 1;
            }
            e.total_reward = add_reward(e.total_reward, t.reward);
            proof {
                ts = ts.push(t);
                assert(ts.drop_last() == prev);
                lemma_reward_sum_bounded(ts);
            }
            if t.terminated() {
                proof {
                    assert(prev + seq![t] =~= ts);
                }
                break;
            }
            a = self.agent.pi(t.to.state());
            proof {
                lemma_run_step(d_before, g_before, a_before, fuel, false);
                let rest = run(domain, self.agent, a, (fuel - 1) as nat, false).0;
                assert(prev + (seq![t] + rest) =~= ts + rest);
                fuel = (fuel - 1) as nat;
            }
        }
        Some(e)
    }
}

/// A run stops at the first transition that ends the episode or when its steps run
/// out: it takes at most `fuel` steps, only its last transition may end the episode,
/// and it is shorter than `fuel` only where its last transition ends the episode.
pub proof fn lemma_run_shape<S, A, D: Domain<S, A>, G: Agent<S, A>>(
    d: D,
    g: G,
    a: A,
    fuel: nat,
    train: bool,
)
    ensures
        ({
            let ts = run(d, g, a, fuel, train).0;
            &&& ts.len() <= fuel
            &&& forall|i: int| 0 <= i < ts.len() - 1 ==> !(#[trigger] ts[i]).ends_episode()
            &&& ts.len() < fuel ==> ts.len() > 0 && ts.last().ends_episode()
        }),
    decreases fuel,
{
    if fuel > 0 && !d.outcome(a).ends_episode() {
        let t = d.outcome(a);
        let g1 = if train {
            g.after_train(t)
        } else {
            g
        };
        let s = t.to.state_view();
        lemma_run_shape(d.after_step(a), g1.after_pi(s), g1.choice(s), (fuel - 1) as nat, train);
        let rest = run(d.after_step(a), g1.after_pi(s), g1.choice(s), (fuel - 1) as nat, train).0;
        let ts = run(d, g, a, fuel, train).0;
        assert(ts == seq![t] + rest);
        assert forall|i: int| 0 <= i < ts.len() - 1 implies !(#[trigger] ts[i]).ends_episode() by {
            if i > 0 {
                assert(ts[i] == rest[i - 1]);
            }
        }
        if ts.len() < fuel {
            assert(ts.last() == rest.last());
        }
    }
}

} // verus!
