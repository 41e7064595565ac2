use vstd::prelude::*;
use crate::arith::UNIT;

verus! {

/// How a schedule changes at an episode boundary.
#[derive(Clone, Copy, Debug, PartialEq, Eq, Structural)]
pub enum Decay {
    /// The value never changes.
    Fixed,
    /// The value falls by `decrement` millionths per episode, stopping at zero.
    Linear { decrement: u32 },
    /// The value is multiplied by `factor` millionths per episode (at most one whole unit).
    Exponential { factor: u32 },
}

/// A scalar hyperparameter, in millionths, with the rule by which it decays.
#[derive(Clone, Copy, Debug, PartialEq, Eq, Structural)]
pub struct Parameter {
    pub value: u32,
    pub decay: Decay,
}

impl Parameter {
    /// An exponential factor never exceeds one whole unit.
    pub open spec fn wf(self) -> bool {
        match self.decay {
            Decay::Exponential { factor } => factor <= UNIT,
            _ => true,
        }
    }

    /// Whether the rule lets the value change at all.
    pub open spec fn decays(self) -> bool {
        !(self.decay is Fixed)
    }

    /// The parameter that one episode boundary produces.
    pub open spec fn stepped(self) -> Parameter {
        let v = match self.decay {
            Decay::Fixed => self.value,
            Decay::Linear { decrement } => if self.value >= decrement {
                (self.value - decrement) as u32
            } else {
                0
            },
            Decay::Exponential { factor } => {
                let x = (self.value as int * factor as int) / UNIT as int;
                if x > u32::MAX as int {
                    u32::MAX
                } else {
                    x as u32
                }
            },
        };
        Parameter { value: v, decay: self.decay }
    }

    /// The parameter after `n` episode boundaries.
    pub open spec fn stepped_n(self, n: nat) -> Parameter
        decreases n,
    {
        if n == 0 {
            self
        } else {
            self.stepped_n((n - 1) as nat).stepped()
        }
    }

    /// A schedule that keeps its value.
    pub fn fixed(value: u32) -> (r: Parameter)
        ensures
            r.value == value,
            r.decay == Decay::Fixed,
            r.wf(),
    {
        Parameter { value, decay: Decay::Fixed }
    }

    /// A schedule that loses `decrement` millionths per episode.
    pub fn linear(value: u32, decrement: u32) -> (r: Parameter)
        ensures
            r.value == value,
            r.decay == (Decay::Linear { decrement }),
            r.wf(),
    {
        Parameter { value, decay: Decay::Linear { decrement } }
    }

    /// A schedule multiplied by `factor` millionths per episode.
    pub fn exponential(value: u32, factor: u32) -> (r: Parameter)
        requires
            factor <= UNIT,
        ensures
            r.value == value,
            r.decay == (Decay::Exponential { factor }),
            r.wf(),
    {
        Parameter { value, decay: Decay::Exponential { factor } }
    }

    /// The current value, in millionths.
    pub fn value(&self) -> (r: u32)
        ensures
            r == self.value,
    {
        self.value
    }

    /// The parameter for the next episode; `self` is left as it was.
    pub fn step(&self) -> (r: Parameter)
        ensures
            r == self.stepped(),
            self.wf() ==> r.wf(),
    {
        match self.decay {
            Decay::Fixed => *self,
            Decay::Linear { decrement } => {
                let v: u32 = if self.value >= decrement {
                    self.value - decrement
                } else {
                    0
                };
                Parameter { value: v, decay: self.decay }
            },
            Decay::Exponential { factor } => {
                assert(self.value as int * factor as int <= u32::MAX as int * u32::MAX as int) by (nonlinear_arith)
                    requires
                        self.value <= u32::MAX,
                        factor <= u32::MAX,
                ;
                let p: u64 = self.value as u64 * factor as u64;
                let v: u64 = p / (UNIT as u64);
                let w: u32 = if v > u32::MAX as u64 {
                    u32::MAX
                } else {
                    v as u32
                };
                Parameter { value: w, decay: self.decay }
            },
        }
    }
}

proof fn lemma_scaled_down(v: int, f: int)
    requires
        0 <= v,
        0 <= f <= UNIT as int,
    ensures
        0 <= (v * f) / (UNIT as int) <= v,
{
    assert(0 <= v * f <= v * (UNIT as int)) by (nonlinear_arith)
        requires
            0 <= v,
            0 <= f <= UNIT as int,
    ;
    vstd::arithmetic::div_mod::lemma_div_is_ordered(v * f, v * (UNIT as int), UNIT as int);
    vstd::arithmetic::div_mod::lemma_div_multiples_vanish(v, UNIT as int);
    vstd::arithmetic::div_mod::lemma_div_pos_is_pos(v * f, UNIT as int);
}

/// One episode boundary never raises a schedule, and leaves a fixed one as it was.
pub proof fn lemma_step_non_increasing(p: Parameter)
    requires
        p.wf(),
    ensures
        p.stepped().value <= p.value,
        !p.decays() ==> p.stepped().value == p.value,
        p.stepped().wf(),
        p.stepped().decay == p.decay,
{
    if let Decay::Exponential { factor } = p.decay {
        lemma_scaled_down(p.value as int, factor as int);
    }
}

/// Along any number of episode boundaries a schedule's value never rises: after `m`
/// boundaries it is at most what it was after `n <= m`, and a fixed schedule keeps
/// its first value throughout.
pub proof fn lemma_schedule_monotone(p: Parameter, n: nat, m: nat)
    requires
        p.wf(),
        n <= m,
    ensures
        p.stepped_n(m).value <= p.stepped_n(n).value,
        !p.decays() ==> p.stepped_n(m).value == p.value,
        p.stepped_n(m).wf(),
        p.stepped_n(m).decay == p.decay,
    decreases m,
{
    if m > 0 {
        let prev = (m - 1) as nat;
        lemma_schedule_monotone(p, 0, prev);
        lemma_step_non_increasing(p.stepped_n(prev));
        if n < m {
            lemma_schedule_monotone(p, n, prev);
        }
    }
}

} // verus!
