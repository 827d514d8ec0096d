//! The option sets of the replay store, the actor pool and the learner, each
//! with the check that is made before anything is built from it.

use vstd::prelude::*;
use crate::error::ConfigError;
use crate::iw_scheduler::{schedule_fault, EXPONENT_ONE};
use crate::layout::check_pow2;
use crate::sum_tree::{capacity_fault, MAX_CAPACITY};

verus! {

/// By which weight the importance weights of a batch are divided.
#[derive(Clone, Copy, Debug, PartialEq, Eq, Structural)]
pub enum WeightNormalizer {
    /// By the largest weight in the whole store.
    All,
    /// By the largest weight within the batch.
    Batch,
}

/// The options of prioritized sampling. Exponents are fixed-point numbers with
/// twenty fractional bits.
#[derive(Clone, Copy, Debug)]
pub struct PriorityConfig {
    /// The exponent that turns an error into a priority, in `[0, 1]`.
    pub alpha: u64,
    /// The importance-weight exponent at step zero, in `[0, 1]`.
    pub beta0: u64,
    /// The number of steps after which the importance-weight exponent is one.
    pub anneal_steps: u64,
    /// How the importance weights are normalized.
    pub normalizer: WeightNormalizer,
}

/// The options of a replay store.
#[derive(Clone, Copy, Debug)]
pub struct ReplayBufferConfig {
    /// The number of slots: a power of two.
    pub capacity: usize,
    /// The number of items drawn at a time.
    pub batch_size: usize,
    /// The options of prioritized sampling; without them the store samples
    /// uniformly.
    pub priority_config: Option<PriorityConfig>,
}

/// The options of the actor pool.
#[derive(Clone, Copy, Debug)]
pub struct ActorManagerConfig {
    /// The number of actors.
    pub num_actors: usize,
    /// The number of messages that the ingestion queue holds.
    pub ingestion_queue_capacity: usize,
    /// The number of optimization steps between two model broadcasts.
    pub model_broadcast_interval: u64,
}

/// The options of the learner's loop.
#[derive(Clone, Debug)]
pub struct AsyncTrainerConfig {
    /// The number of optimization steps after which the loop ends.
    pub max_opts: u64,
    /// The number of stored items below which the learner waits.
    pub warmup_size: usize,
    /// The number of optimization steps between two evaluations.
    pub eval_interval: u64,
    /// The number of optimization steps between two checkpoints.
    pub checkpoint_interval: u64,
    /// The directory that the checkpoints go to.
    pub checkpoint_dir: String,
}

impl PriorityConfig {
    /// Why these options are refused, if they are.
    pub open spec fn fault(&self) -> Option<ConfigError> {
        if self.alpha > EXPONENT_ONE {
            Some(ConfigError::AlphaOutOfRange)
        } else {
            schedule_fault(self.beta0, self.anneal_steps)
        }
    }

    /// Checks the options: both exponents at most one, and a schedule with a
    /// step to take.
    pub fn validate(&self) -> (r: Result<(), ConfigError>)
        ensures
            match r {
                Ok(_) => self.fault() is None,
                Err(e) => self.fault() == Some(e),
            },
    {
        if self.alpha > EXPONENT_ONE {
            Err(ConfigError::AlphaOutOfRange)
        } else if self.beta0 > EXPONENT_ONE {
            Err(ConfigError::BetaOutOfRange)
        } else if self.anneal_steps == 0 {
            Err(ConfigError::ZeroAnnealSteps)
        } else {
            Ok(())
        }
    }
}

impl ReplayBufferConfig {
    /// Why these options are refused, if they are: the capacity is looked at
    /// first, then the batch size, then the options of prioritized sampling.
    pub open spec fn fault(&self) -> Option<ConfigError> {
        if capacity_fault(self.capacity) is Some {
            capacity_fault(self.capacity)
        } else if self.batch_size == 0 {
            Some(ConfigError::ZeroBatchSize)
        } else {
            match self.priority_config {
                Some(p) => p.fault(),
                None => None,
            }
        }
    }

    /// Checks the options.
    pub fn validate(&self) -> (r: Result<(), ConfigError>)
        ensures
            match r {
                Ok(_) => self.fault() is None,
                Err(e) => self.fault() == Some(e),
            },
    {
        if self.capacity == 0 {
            return Err(ConfigError::ZeroCapacity);
        }
        if !check_pow2(self.capacity) {
            return Err(ConfigError::CapacityNotPowerOfTwo);
        }
        if self.capacity > MAX_CAPACITY {
            return Err(ConfigError::CapacityTooLarge);
        }
        if self.batch_size == 0 {
            return Err(ConfigError::ZeroBatchSize);
        }
        match &self.priority_config {
            Some(p) => p.validate(),
            None => Ok(()),
        }
    }
}

impl ActorManagerConfig {
    /// Why these options are refused, if they are.
    pub open spec fn fault(&self) -> Option<ConfigError> {
        if self.model_broadcast_interval == 0 {
            Some(ConfigError::ZeroInterval)
        } else {
            None
        }
    }

    /// Checks the options: a broadcast interval of at least one step. Any
    /// number of actors will do, none among them, and so will a queue that
    /// holds nothing, through which an actor hands each message over in
    /// person.
    pub fn validate(&self) -> (r: Result<(), ConfigError>)
        ensures
            match r {
                Ok(_) => self.fault() is None,
                Err(e) => self.fault() == Some(e),
            },
    {
        if self.model_broadcast_interval == 0 {
            Err(ConfigError::ZeroInterval)
        } else {
            Ok(())
        }
    }
}

impl AsyncTrainerConfig {
    /// Why these options are refused, if they are.
    pub open spec fn fault(&self) -> Option<ConfigError> {
        if self.eval_interval == 0 || self.checkpoint_interval == 0 {
            Some(ConfigError::ZeroInterval)
        } else {
            None
        }
    }

    /// Checks the options: intervals of at least one step. A learner that is
    /// to take no step at all ends at once.
    pub fn validate(&self) -> (r: Result<(), ConfigError>)
        ensures
            match r {
                Ok(_) => self.fault() is None,
                Err(e) => self.fault() == Some(e),
            },
    {
        if self.eval_interval == 0 || self.checkpoint_interval == 0 {
            Err(ConfigError::ZeroInterval)
        } else {
            Ok(())
        }
    }
}

} // verus!
