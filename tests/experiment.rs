use actor_critic::experiment::{Agent, Domain, Evaluation, SerialExperiment};
use actor_critic::learning::{Observation, Transition};

/// Walks right from 0 and ends at `len`; the reward of a step is the action.
struct Chain {
    pos: i64,
    len: i64,
}

impl Domain<i64, usize> for Chain {
    fn horizon(&self) -> vstd::prelude::nat {
        vstd::prelude::nat
    }

    fn observation(&self) -> Observation<i64> {
        Observation::Full(self.pos)
    }

    fn outcome(&self, a: usize) -> Transition<i64, usize> {
        let mut next = Chain { pos: self.pos, len: self.len };
        next.step(a)
    }

    fn after_step(self, a: usize) -> Self {
        let mut next = self;
        next.step(a);
        next
    }

    fn emit(&self) -> Observation<i64> {
        Observation::Full(self.pos)
    }

    fn step(&mut self, a: usize) -> Transition<i64, usize> {
        let from = Observation::Full(self.pos);
        self.pos += 1;
        let to = if self.pos >= self.len {
            Observation::Terminal(self.pos)
        } else {
            Observation::Full(self.pos)
        };
        Transition { from, action: a, reward: a as i64, to }
    }
}

struct Counter {
    picks: usize,
    trained: usize,
}

impl Agent<i64, usize> for Counter {
    fn choice(&self, _: i64) -> usize {
        2
    }

    fn after_pi(self, _: i64) -> Self {
        Counter { picks: self.picks + 1, trained: self.trained }
    }

    fn after_train(self, _: Transition<i64, usize>) -> Self {
        Counter { picks: self.picks, trained: self.trained + 1 }
    }

    fn pi(&mut self, _: &i64) -> usize {
        self.picks += 1;
        2
    }

    fn train(&mut self, _: &Transition<i64, usize>) {
        self.trained += 1;
    }
}

#[test]
fn training_episode_stops_at_terminal() {
    let mut ex = SerialExperiment::new(Counter { picks: 0, trained: 0 }, || Chain { pos: 0, len: 3 }, 10);
    let e = ex.next::<i64>().unwrap();
    assert_eq!(e.n_steps, 3);
    assert_eq!(e.total_reward, 6);
    assert_eq!(ex.agent.trained, 3);
    assert_eq!(ex.agent.picks, 3);
}

#[test]
fn training_episode_stops_at_limit() {
    let mut ex = SerialExperiment::new(Counter { picks: 0, trained: 0 }, || Chain { pos: 0, len: 100 }, 4);
    let e = ex.next::<i64>().unwrap();
    assert_eq!(e.n_steps, 4);
    assert_eq!(e.total_reward, 8);
    assert_eq!(ex.agent.trained, 4);
    let f = ex.next::<i64>().unwrap();
    assert_eq!(f.n_steps, 4);
    assert_eq!(ex.agent.trained, 8);
}

#[test]
fn evaluation_runs_to_the_end_without_training() {
    let mut ev = Evaluation::new(Counter { picks: 0, trained: 0 }, || Chain { pos: 0, len: 5 });
    let e = ev.next::<i64>().unwrap();
    assert_eq!(e.n_steps, 5);
    assert_eq!(e.total_reward, 10);
    assert_eq!(ev.agent.trained, 0);
    assert_eq!(ev.agent.picks, 5);
}

#[test]
fn evaluation_counts_a_single_step() {
    let mut ev = Evaluation::new(Counter { picks: 0, trained: 0 }, || Chain { pos: 0, len: 1 });
    let e = ev.next::<i64>().unwrap();
    assert_eq!(e.n_steps, 1);
    assert_eq!(e.total_reward, 2);
}

#[test]
fn training_with_zero_limit_takes_no_step() {
    let mut ex = SerialExperiment::new(Counter { picks: 0, trained: 0 }, || Chain { pos: 0, len: 3 }, 0);
    let e = ex.next::<i64>().unwrap();
    assert_eq!(e.n_steps, 0);
    assert_eq!(e.total_reward, 0);
    assert_eq!(ex.agent.trained, 0);
}
