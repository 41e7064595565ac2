use vstd::prelude::*;
use rand::rngs::ThreadRng;
use crate::learning::Algorithm;
use crate::policies::{FinitePolicy, Policy, PolicyError, Probability};
use crate::rng::draw_below;

verus! {

/// The uniform policy over `n` actions: it ignores the state and draws from the
/// thread's generator.
pub struct Random {
    n: usize,
}

/// `1 / n` as a probability.
pub open spec fn one_in(n: nat) -> Probability {
    Probability { num: 1, den: n as u64 }
}

/// The sum of the numerators of `ps`.
pub open spec fn numerator_sum(ps: Seq<Probability>) -> int
    decreases ps.len(),
{
    if ps.len() == 0 {
        0
    } else {
        numerator_sum(ps.drop_last()) + ps.last().num
    }
}

impl Random {
    /// There is at least one action.
    #[verifier::type_invariant]
    spec fn inv(&self) -> bool {
        self.n > 0
    }

    /// The number of actions.
    pub closed spec fn size(&self) -> nat {
        self.n as nat
    }

    pub fn new(n_actions: usize) -> (r: Random)
        requires
            n_actions > 0,
        ensures
            r.size() == n_actions,
    {
        Random { n: n_actions }
    }
}

impl Algorithm for Random {
    open spec fn after_terminal(self) -> Self {
        self
    }

    fn handle_terminal(&mut self) {
    }
}

impl<S> Policy<S, usize> for Random {
    open spec fn may_sample(&self, s: S, a: usize) -> bool {
        a < self.size()
    }

    open spec fn probability_of(&self, s: S, a: usize) -> Option<Probability> {
        Some(one_in(self.size()))
    }

    fn sample(&mut self, s: &S) -> (a: usize) {
        proof {
            use_type_invariant(&*self);
        }
        let mut rng: ThreadRng = rand::thread_rng();
        draw_below(&mut rng, self.n)
    }

    fn probability(&self, s: &S, a: usize) -> (r: Result<Probability, PolicyError>) {
        Ok(Probability { num: 1, den: self.n as u64 })
    }
}

impl<S> FinitePolicy<S> for Random {
    open spec fn action_count(&self) -> nat {
        self.size()
    }

    open spec fn probabilities_of(&self, s: S) -> Option<Seq<Probability>> {
        Some(Seq::new(self.size(), |i: int| one_in(self.size())))
    }

    fn n_actions(&self) -> (r: usize) {
        self.n
    }

    fn probabilities(&self, s: &S) -> (r: Result<Vec<Probability>, PolicyError>) {
        let mut v: Vec<Probability> = Vec::new();
        let mut i: usize = 0;
        while i < self.n
            invariant
                i <= self.n,
                v@ == Seq::new(i as nat, |j: int| one_in(self.n as nat)),
            decreases self.n - i,
        {
            v.push(Probability { num: 1, den: self.n as u64 });
            i = i + 1;
            assert(v@ =~= Seq::new(i as nat, |j: int| one_in(self.n as nat)));
        }
        Ok(v)
    }
}

/// The uniform policy over `n` actions gives, at every state, `n` probabilities, each
/// `1 / n`, which add up to one.
pub proof fn lemma_uniform_distribution<S>(p: Random, s: S)
    ensures
        <Random as FinitePolicy<S>>::probabilities_of(&p, s) matches Some(ps) && ps.len()
            == p.size() && (forall|i: int| 0 <= i < ps.len() ==> ps[i] == one_in(p.size()))
            && numerator_sum(ps) == p.size(),
{
    let ps = Seq::new(p.size(), |i: int| one_in(p.size()));
    lemma_sum_of_ones(ps);
}

proof fn lemma_sum_of_ones(ps: Seq<Probability>)
    requires
        forall|i: int| 0 <= i < ps.len() ==> ps[i].num == 1,
    ensures
        numerator_sum(ps) == ps.len(),
    decreases ps.len(),
{
    if ps.len() > 0 {
        lemma_sum_of_ones(ps.drop_last());
    }
}

} // verus!
