use actor_critic::policies::{sample_probs, FinitePolicy, Policy, PolicyError, Probability};
use actor_critic::perturbation::PerturbedPolicy;
use actor_critic::random::Random;

fn as_f64(p: &Probability) -> f64 {
    p.num as f64 / p.den as f64
}

#[test]
fn test_sampling() {
    let mut p = Random::new(2);
    let qs = vec![1.0, 0.0];

    let mut n0: f64 = 0.0;
    let mut n1: f64 = 0.0;
    for _ in 0..10000 {
        match p.sample(&qs) {
            0 => n0 += 1.0,
            _ => n1 += 1.0,
        }
    }

    assert!((0.50 - n0 / 10000.0).abs() < 0.05);
    assert!((0.50 - n1 / 10000.0).abs() < 0.05);
}

#[test]
fn test_probabilites() {
    let p4 = Random::new(4);
    let p5 = Random::new(5);

    let a: Vec<f64> = p4.probabilities(&[1.0, 0.0, 0.0, 1.0]).unwrap().iter().map(as_f64).collect();
    assert_eq!(a, vec![0.25; 4]);
    let b: Vec<f64> = p5.probabilities(&[1.0, 0.0, 0.0, 0.0, 0.0]).unwrap().iter().map(as_f64).collect();
    assert_eq!(b, vec![0.2; 5]);
    let c: Vec<f64> = p5.probabilities(&[0.0, 0.0, 0.0, 0.0, 1.0]).unwrap().iter().map(as_f64).collect();
    assert_eq!(c, vec![0.2; 5]);
}

#[test]
fn uniform_probabilities_sum_to_one() {
    for n in 1..12usize {
        let p = Random::new(n);
        let ps = p.probabilities(&0u8).unwrap();
        assert_eq!(ps.len(), n);
        assert!(ps.iter().all(|q| *q == Probability { num: 1, den: n as u64 }));
        let total: u64 = ps.iter().map(|q| q.num).sum();
        assert_eq!(total, n as u64);
        assert_eq!(<Random as FinitePolicy<u8>>::n_actions(&p), n);
    }
}

#[test]
fn uniform_probability_is_constant() {
    let p = Random::new(3);
    assert_eq!(p.probability(&7u8, 0), Ok(Probability { num: 1, den: 3 }));
    assert_eq!(p.probability(&9u8, 2), Ok(Probability { num: 1, den: 3 }));
}

#[test]
fn uniform_samples_stay_in_range() {
    let mut p = Random::new(3);
    for _ in 0..1000 {
        assert!(p.sample(&0u8) < 3);
    }
}

#[test]
fn perturbed_sample_stays_near_base() {
    let mut p = PerturbedPolicy::new(ConstantPolicy(100), -3, 3);
    let mut seen_other = false;
    for _ in 0..1000 {
        let a = p.sample(&0u8);
        assert!((97..=103).contains(&a));
        if a != 100 {
            seen_other = true;
        }
    }
    assert!(seen_other);
}

#[test]
fn perturbed_bounds_in_either_order() {
    let mut p = PerturbedPolicy::new(ConstantPolicy(0), 2, -2);
    for _ in 0..200 {
        let a = p.sample(&0u8);
        assert!((-2..=2).contains(&a));
    }
}

#[test]
fn perturbed_probability_is_unsupported() {
    let p = PerturbedPolicy::new(ConstantPolicy(5), 0, 1);
    assert_eq!(p.probability(&0u8, 5), Err(PolicyError::Unsupported));
}

#[test]
fn perturbed_saturates_at_bounds() {
    let mut p = PerturbedPolicy::new(ConstantPolicy(i64::MAX), 5, 5);
    assert_eq!(p.sample(&0u8), i64::MAX);
}

struct ConstantPolicy(i64);

impl actor_critic::learning::Algorithm for ConstantPolicy {
    fn after_terminal(self) -> Self {
        self
    }

    fn handle_terminal(&mut self) {}
}

impl Policy<u8, i64> for ConstantPolicy {
    fn may_sample(&self, _: u8, a: i64) -> bool {
        a == self.0
    }

    fn probability_of(&self, _: u8, a: i64) -> Option<Probability> {
        Some(Probability { num: if a == self.0 { 1 } else { 0 }, den: 1 })
    }

    fn sample(&mut self, _: &u8) -> i64 {
        self.0
    }

    fn probability(&self, _: &u8, a: i64) -> Result<Probability, PolicyError> {
        Ok(Probability { num: if a == self.0 { 1 } else { 0 }, den: 1 })
    }
}

#[test]
fn perturbed_finite_policy_reports_base_actions() {
    let mut p = PerturbedPolicy::new(Random::new(4), 0, 0);
    assert_eq!(<PerturbedPolicy<Random> as FinitePolicy<u8>>::n_actions(&p), 4);
    assert_eq!(p.probabilities(&0u8), Err(PolicyError::Unsupported));
    for _ in 0..100 {
        let a: usize = p.sample(&0u8);
        assert!(a < 4);
    }
}

#[test]
fn perturbed_finite_policy_clamps_at_zero() {
    let mut p = PerturbedPolicy::new(Random::new(1), -5, -5);
    let a: usize = p.sample(&0u8);
    assert_eq!(a, 0);
}

#[test]
fn sample_probs_picks_first_exceeding() {
    let ps = vec![
        Probability { num: 1, den: 4 },
        Probability { num: 1, den: 2 },
        Probability { num: 1, den: 4 },
    ];
    assert_eq!(sample_probs(Probability { num: 1, den: 10 }, &ps), 0);
    assert_eq!(sample_probs(Probability { num: 3, den: 10 }, &ps), 1);
    assert_eq!(sample_probs(Probability { num: 1, den: 2 }, &ps), 2);
    assert_eq!(sample_probs(Probability { num: 9, den: 10 }, &ps), 2);
}
