//! The schedule of the importance-weight exponent: a straight line from its
//! initial value up to one, reached after a fixed number of steps.

use vstd::prelude::*;
use vstd::arithmetic::div_mod::{lemma_div_by_multiple, lemma_div_is_ordered};
use crate::error::ConfigError;

verus! {

/// The exponent that stands for 1. Exponents are fixed-point numbers with
/// twenty fractional bits.
pub const EXPONENT_ONE: u64 = 0x10_0000;

/// The exponent after `t` steps of a schedule that starts at `beta0` and takes
/// `anneal_steps` steps to reach one: `min(1, beta0 + (1 - beta0) * t / anneal_steps)`,
/// the quotient rounded down.
pub open spec fn beta_at(beta0: int, anneal_steps: int, t: int) -> int {
    let raised = beta0 + ((EXPONENT_ONE - beta0) * t) / anneal_steps;
    if raised < EXPONENT_ONE {
        raised
    } else {
        EXPONENT_ONE as int
    }
}

/// Why the parameters of a schedule are refused, if they are.
pub open spec fn schedule_fault(beta0: u64, anneal_steps: u64) -> Option<ConfigError> {
    if beta0 > EXPONENT_ONE {
        Some(ConfigError::BetaOutOfRange)
    } else if anneal_steps == 0 {
        Some(ConfigError::ZeroAnnealSteps)
    } else {
        None
    }
}

/// The schedule starts at its initial exponent.
pub proof fn law_beta_starts_at_beta0(beta0: int, anneal_steps: int)
    requires
        0 <= beta0 <= EXPONENT_ONE,
        anneal_steps > 0,
    ensures
        beta_at(beta0, anneal_steps, 0) == beta0,
{
    assert((EXPONENT_ONE - beta0) * 0 == 0);
    assert(0int / anneal_steps == 0) by (nonlinear_arith)
        requires
            anneal_steps > 0,
    ;
}

/// The exponent never falls below its initial value nor rises above one.
pub proof fn law_beta_bounded(beta0: int, anneal_steps: int, t: int)
    requires
        0 <= beta0 <= EXPONENT_ONE,
        anneal_steps > 0,
        t >= 0,
    ensures
        beta0 <= beta_at(beta0, anneal_steps, t) <= EXPONENT_ONE,
{
    let a: int = EXPONENT_ONE - beta0;
    assert(a * t >= 0) by (nonlinear_arith)
        requires
            a >= 0,
            t >= 0,
    ;
    lemma_div_is_ordered(0, a * t, anneal_steps);
    assert(0int / anneal_steps == 0) by (nonlinear_arith)
        requires
            anneal_steps > 0,
    ;
}

/// The exponent never falls from one step to a later one.
pub proof fn law_beta_monotone(beta0: int, anneal_steps: int, t1: int, t2: int)
    requires
        0 <= beta0 <= EXPONENT_ONE,
        anneal_steps > 0,
        0 <= t1 <= t2,
    ensures
        beta_at(beta0, anneal_steps, t1) <= beta_at(beta0, anneal_steps, t2),
{
    let a: int = EXPONENT_ONE - beta0;
    assert(a * t1 <= a * t2) by (nonlinear_arith)
        requires
            a >= 0,
            t1 <= t2,
    ;
    lemma_div_is_ordered(a * t1, a * t2, anneal_steps);
}

/// From the last step of the schedule on, the exponent is one.
pub proof fn law_beta_reaches_one(beta0: int, anneal_steps: int, t: int)
    requires
        0 <= beta0 <= EXPONENT_ONE,
        anneal_steps > 0,
        t >= anneal_steps,
    ensures
        beta_at(beta0, anneal_steps, t) == EXPONENT_ONE,
{
    let a: int = EXPONENT_ONE - beta0;
    assert(a * anneal_steps <= a * t) by (nonlinear_arith)
        requires
            a >= 0,
            anneal_steps <= t,
    ;
    lemma_div_is_ordered(a * anneal_steps, a * t, anneal_steps);
    lemma_div_by_multiple(a, anneal_steps);
}

/// Before the last step of the schedule, the straight line has not yet reached one.
proof fn lemma_beta_below_one(beta0: int, anneal_steps: int, t: int)
    requires
        0 <= beta0 <= EXPONENT_ONE,
        0 < anneal_steps <= u64::MAX,
        0 <= t < anneal_steps,
    ensures
        0 <= ((EXPONENT_ONE - beta0) * t) / anneal_steps <= EXPONENT_ONE - beta0,
        0 <= (EXPONENT_ONE - beta0) * t <= 0x10_0000 * 0xffff_ffff_ffff_ffff,
{
    let a: int = EXPONENT_ONE - beta0;
    assert(0 <= a * t <= a * anneal_steps) by (nonlinear_arith)
        requires
            a >= 0,
            0 <= t < anneal_steps,
    ;
    assert(a * t <= 0x10_0000 * 0xffff_ffff_ffff_ffff) by (nonlinear_arith)
        requires
            0 <= a <= 0x10_0000,
            0 <= t <= 0xffff_ffff_ffff_ffff,
    ;
    lemma_div_is_ordered(0, a * t, anneal_steps);
    lemma_div_is_ordered(a * t, a * anneal_steps, anneal_steps);
    lemma_div_by_multiple(a, anneal_steps);
    assert(0int / anneal_steps == 0) by (nonlinear_arith)
        requires
            anneal_steps > 0,
    ;
}

/// The annealing schedule of the importance-weight exponent, with its step
/// counter.
#[derive(Clone, Copy, Debug)]
pub struct IwScheduler {
    beta0: u64,
    anneal_steps: u64,
    step: u64,
}

impl IwScheduler {
    /// The exponent at step zero.
    pub closed spec fn spec_beta0(&self) -> u64 {
        self.beta0
    }

    /// The number of steps after which the exponent is one.
    pub closed spec fn spec_anneal_steps(&self) -> u64 {
        self.anneal_steps
    }

    /// The number of steps taken so far.
    pub closed spec fn spec_step(&self) -> u64 {
        self.step
    }

    /// The initial exponent is at most one and the schedule has a step to take.
    pub open spec fn wf(&self) -> bool {
        self.spec_beta0() <= EXPONENT_ONE && self.spec_anneal_steps() > 0
    }

    /// The schedule one step later. A counter that has reached the largest
    /// `u64` stays there.
    pub closed spec fn spec_advance(&self) -> IwScheduler {
        IwScheduler {
            step: if self.step < u64::MAX {
                (self.step + 1) as u64
            } else {
                self.step
            },
            ..*self
        }
    }

    /// What a step changes: the counter, and nothing else.
    pub proof fn law_advance_moves_the_counter(&self)
        ensures
            self.spec_advance().spec_beta0() == self.spec_beta0(),
            self.spec_advance().spec_anneal_steps() == self.spec_anneal_steps(),
            self.spec_advance().spec_step() == if self.spec_step() < u64::MAX {
                self.spec_step() + 1
            } else {
                self.spec_step() as int
            },
            self.wf() ==> self.spec_advance().wf(),
            self.wf() ==> self.spec_beta() <= self.spec_advance().spec_beta() <= EXPONENT_ONE,
    {
        if self.wf() {
            law_beta_monotone(
                self.beta0 as int,
                self.anneal_steps as int,
                self.step as int,
                self.spec_advance().step as int,
            );
            law_beta_bounded(
                self.beta0 as int,
                self.anneal_steps as int,
                self.spec_advance().step as int,
            );
        }
    }

    /// The exponent of the current step.
    pub open spec fn spec_beta(&self) -> int {
        beta_at(self.spec_beta0() as int, self.spec_anneal_steps() as int, self.spec_step() as int)
    }

    /// A schedule at step zero. The initial exponent must be at most one, and
    /// the number of steps positive.
    pub fn new(beta0: u64, anneal_steps: u64) -> (r: Result<IwScheduler, ConfigError>)
        ensures
            match r {
                Ok(s) => schedule_fault(beta0, anneal_steps) is None && s.wf() && s.spec_beta0()
                    == beta0 && s.spec_anneal_steps() == anneal_steps && s.spec_step() == 0,
                Err(e) => schedule_fault(beta0, anneal_steps) == Some(e),
            },
    {
        if beta0 > EXPONENT_ONE {
            return Err(ConfigError::BetaOutOfRange);
        }
        if anneal_steps == 0 {
            return Err(ConfigError::ZeroAnnealSteps);
        }
        Ok(IwScheduler { beta0, anneal_steps, step: 0 })
    }

    /// The number of steps taken so far.
    pub fn step(&self) -> (r: u64)
        ensures
            r == self.spec_step(),
    {
        self.step
    }

    /// The exponent of the current step.
    pub fn beta(&self) -> (r: u64)
        requires
            self.wf(),
        ensures
            r == self.spec_beta(),
            self.spec_beta0() <= r <= EXPONENT_ONE,
    {
        proof {
            law_beta_bounded(self.beta0 as int, self.anneal_steps as int, self.step as int);
        }
        if self.step >= self.anneal_steps {
            proof {
                law_beta_reaches_one(self.beta0 as int, self.anneal_steps as int, self.step as int);
            }
            EXPONENT_ONE
        } else {
            proof {
                lemma_beta_below_one(self.beta0 as int, self.anneal_steps as int, self.step as int);
            }
            let span: u128 = (EXPONENT_ONE - self.beta0) as u128;
            let gained: u128 = span * (self.step as u128) / (self.anneal_steps as u128);
            let raised: u64 = self.beta0 + (gained as u64);
            if raised < EXPONENT_ONE {
                raised
            } else {
                EXPONENT_ONE
            }
        }
    }

    /// Takes one step and returns the exponent of the new step. A counter that
    /// has reached the largest `u64` stays there.
    pub fn advance(&mut self) -> (r: u64)
        requires
            old(self).wf(),
        ensures
            *final(self) == old(self).spec_advance(),
            final(self).wf(),
            final(self).spec_beta0() == old(self).spec_beta0(),
            final(self).spec_anneal_steps() == old(self).spec_anneal_steps(),
            final(self).spec_step() == if old(self).spec_step() < u64::MAX {
                old(self).spec_step() + 1
            } else {
                old(self).spec_step() as int
            },
            r == final(self).spec_beta(),
            old(self).spec_beta() <= r <= EXPONENT_ONE,
    {
        if self.step < u64::MAX {
            self.step = self.step + 1;
        }
        proof {
            law_beta_monotone(
                self.beta0 as int,
                self.anneal_steps as int,
                old(self).step as int,
                self.step as int,
            );
        }
        self.beta()
    }
}

} // verus!
