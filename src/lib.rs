//! Online actor-critic learning over integer values: parameter schedules, the policy
//! abstraction, a variance-normalised continuous actor-critic and a natural actor-critic,
//! and an episode driver. Values, rewards, actions and weights are `i64`; rates are
//! `u32` millionths; every arithmetic result saturates at the bounds of `i64`.

pub mod arith;
pub mod parameter;
pub mod learning;
pub mod policies;
mod rng;
pub mod random;
pub mod perturbation;
pub mod cacla_var;
pub mod nac;
pub mod experiment;
