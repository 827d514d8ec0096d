//! The rules of the learner's loop: when it waits, when it takes an
//! optimization step, when it ends, and what is due after each step.

use vstd::prelude::*;
use crate::actor::{bump, bumped};
use crate::config::AsyncTrainerConfig;
use crate::error::{ConfigError, ReplayError};
use crate::replay::{update_fault, PrioritizedReplayStore};

verus! {

/// What the learner does next.
#[derive(Clone, Copy, Debug, PartialEq, Eq, Structural)]
pub enum TrainerAction {
    /// The store holds fewer items than the warmup size: wait, then ask again.
    Wait,
    /// Sample a batch and take one optimization step on it.
    Optimize,
    /// Leave the loop.
    Finish,
}

/// What is due after an optimization step.
#[derive(Clone, Copy, Debug, PartialEq, Eq, Structural)]
pub struct Duties {
    /// Publish a snapshot of the model to the actors.
    pub broadcast: bool,
    /// Write a checkpoint.
    pub checkpoint: bool,
    /// Evaluate the policy.
    pub evaluate: bool,
}

/// What the learner does next: it ends where it was asked to stop or has
/// taken all its steps, waits while the store is below the warmup size, and
/// takes a step otherwise.
pub open spec fn decide(config: AsyncTrainerConfig, opt_steps: u64, stored: usize, stop: bool)
    -> TrainerAction {
    if stop || opt_steps >= config.max_opts {
        TrainerAction::Finish
    } else if stored < config.warmup_size {
        TrainerAction::Wait
    } else {
        TrainerAction::Optimize
    }
}

/// What is due once `opt_steps` steps are taken: each duty falls due on the
/// multiples of its interval.
pub open spec fn duties_at(config: AsyncTrainerConfig, broadcast_interval: u64, opt_steps: u64)
    -> Duties {
    Duties {
        broadcast: opt_steps % broadcast_interval == 0,
        checkpoint: opt_steps % config.checkpoint_interval == 0,
        evaluate: opt_steps % config.eval_interval == 0,
    }
}

/// The learner never samples a store that is below the warmup size.
pub proof fn law_no_step_below_warmup(
    config: AsyncTrainerConfig,
    opt_steps: u64,
    stored: usize,
    stop: bool,
)
    requires
        stored < config.warmup_size,
    ensures
        decide(config, opt_steps, stored, stop) != TrainerAction::Optimize,
{
}

/// Once all steps are taken, or a stop was asked for, the learner ends,
/// whatever the store holds.
pub proof fn law_learner_ends(config: AsyncTrainerConfig, opt_steps: u64, stored: usize, stop: bool)
    requires
        stop || opt_steps >= config.max_opts,
    ensures
        decide(config, opt_steps, stored, stop) == TrainerAction::Finish,
{
}

/// The learner's side of the loop: its options and the number of
/// optimization steps taken.
#[derive(Clone, Debug)]
pub struct AsyncTrainer {
    config: AsyncTrainerConfig,
    broadcast_interval: u64,
    opt_steps: u64,
}

impl AsyncTrainer {
    /// The options of the loop.
    pub closed spec fn spec_config(&self) -> AsyncTrainerConfig {
        self.config
    }

    /// The number of optimization steps between two model broadcasts.
    pub closed spec fn spec_broadcast_interval(&self) -> u64 {
        self.broadcast_interval
    }

    /// The number of optimization steps taken.
    pub closed spec fn spec_opt_steps(&self) -> u64 {
        self.opt_steps
    }

    /// The learner is sound: its options passed the check.
    pub open spec fn wf(&self) -> bool {
        &&& self.spec_config().fault() is None
        &&& self.spec_broadcast_interval() > 0
    }

    /// A learner that has taken no step yet. The options are checked, and the
    /// broadcast interval must be positive.
    pub fn new(config: AsyncTrainerConfig, broadcast_interval: u64) -> (r: Result<
        AsyncTrainer,
        ConfigError,
    >)
        ensures
            match r {
                Ok(t) => {
                    &&& config.fault() is None
                    &&& broadcast_interval > 0
                    &&& t.wf()
                    &&& t.spec_config() == config
                    &&& t.spec_broadcast_interval() == broadcast_interval
                    &&& t.spec_opt_steps() == 0
                },
                Err(e) => if config.fault() is Some {
                    config.fault() == Some(e)
                } else {
                    broadcast_interval == 0 && e == ConfigError::ZeroInterval
                },
            },
    {
        match config.validate() {
            Err(e) => {
                return Err(e);
            },
            Ok(_) => {},
        }
        if broadcast_interval == 0 {
            return Err(ConfigError::ZeroInterval);
        }
        Ok(AsyncTrainer { config, broadcast_interval, opt_steps: 0 })
    }

    /// The number of optimization steps taken.
    pub fn opt_steps(&self) -> (r: u64)
        ensures
            r == self.spec_opt_steps(),
    {
        self.opt_steps
    }

    /// The options of the loop.
    pub fn config(&self) -> (r: &AsyncTrainerConfig)
        ensures
            *r == self.spec_config(),
    {
        &self.config
    }

    /// What to do next, given the number of stored items and whether a stop
    /// was asked for.
    pub fn next_action(&self, stored: usize, stop: bool) -> (r: TrainerAction)
        ensures
            r == decide(self.spec_config(), self.spec_opt_steps(), stored, stop),
    {
        if stop || self.opt_steps >= self.config.max_opts {
            TrainerAction::Finish
        } else if stored < self.config.warmup_size {
            TrainerAction::Wait
        } else {
            TrainerAction::Optimize
        }
    }

    /// Closes an optimization step: the sampled items get the priorities that
    /// the step derived from their errors, the importance-weight schedule
    /// moves one step on, the step is counted, and what is due now is
    /// returned. Where the priorities are refused nothing changes. The count
    /// of steps stays at the largest `u64` once it has reached it.
    pub fn complete_step<T>(
        &mut self,
        store: &mut PrioritizedReplayStore<T>,
        indices: &Vec<usize>,
        priorities: &Vec<u64>,
    ) -> (r: Result<Duties, ReplayError>)
        requires
            old(self).wf(),
            old(store).wf(),
        ensures
            final(self).wf(),
            final(store).wf(),
            final(self).spec_config() == old(self).spec_config(),
            final(self).spec_broadcast_interval() == old(self).spec_broadcast_interval(),
            final(store).spec_normalizer() == old(store).spec_normalizer(),
            final(store).spec_alpha() == old(store).spec_alpha(),
            final(store).spec_batch_size() == old(store).spec_batch_size(),
            match r {
                Ok(duties) => {
                    &&& update_fault(old(store)@.items.len(), indices@, priorities@) is None
                    &&& final(store)@ == if old(store)@.prioritized {
                        old(store)@.reprioritize_all(indices@, priorities@)
                    } else {
                        old(store)@
                    }
                    &&& final(store).spec_scheduler() == match old(store).spec_scheduler() {
                        Some(s) => Some(s.spec_advance()),
                        None => None,
                    }
                    &&& final(self).spec_opt_steps() == bump(old(self).spec_opt_steps())
                    &&& duties == duties_at(
                        old(self).spec_config(),
                        old(self).spec_broadcast_interval(),
                        final(self).spec_opt_steps(),
                    )
                },
                Err(e) => {
                    &&& update_fault(old(store)@.items.len(), indices@, priorities@) == Some(e)
                    &&& final(store)@ == old(store)@
                    &&& final(store).spec_scheduler() == old(store).spec_scheduler()
                    &&& final(self).spec_opt_steps() == old(self).spec_opt_steps()
                },
            },
    {
        match store.update_priorities(indices, priorities) {
            Err(e) => {
                return Err(e);
            },
            Ok(_) => {},
        }
        let _beta: u64 = store.advance();
        self.opt_steps = bumped(self.opt_steps);
        Ok(
            Duties {
                broadcast: self.opt_steps % self.broadcast_interval == 0,
                checkpoint: self.opt_steps % self.config.checkpoint_interval == 0,
                evaluate: self.opt_steps % self.config.eval_interval == 0,
            },
        )
    }
}

} // verus!
