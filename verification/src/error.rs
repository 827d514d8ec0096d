//! What can go wrong, and how far each failure reaches.

use vstd::prelude::*;

verus! {

/// A configuration that is refused before anything is built from it.
#[derive(Clone, Copy, Debug, PartialEq, Eq, Structural)]
pub enum ConfigError {
    /// The capacity is zero.
    ZeroCapacity,
    /// The capacity is not a power of two.
    CapacityNotPowerOfTwo,
    /// The capacity exceeds the largest that the store supports.
    CapacityTooLarge,
    /// The batch size is zero.
    ZeroBatchSize,
    /// An actor is to push after no step, or after no episode.
    ZeroPushTrigger,
    /// The priority exponent lies outside `[0, 1]`.
    AlphaOutOfRange,
    /// The initial importance exponent lies outside `[0, 1]`.
    BetaOutOfRange,
    /// The annealing schedule has no steps.
    ZeroAnnealSteps,
    /// An interval of zero steps.
    ZeroInterval,
}

/// A misuse of the sum tree or of the replay store.
#[derive(Clone, Copy, Debug, PartialEq, Eq, Structural)]
pub enum ReplayError {
    /// A slot index at or beyond the capacity, or beyond the stored items.
    IndexOutOfRange,
    /// Two lists that must pair up differ in length.
    LengthMismatch,
    /// The store holds too few items to be sampled.
    BufferUnderfull,
    /// A batch of no items was asked for.
    EmptyBatch,
    /// A message names an actor that the pool does not have.
    UnknownActor,
}

/// What can fail while the actors and the learner run.
#[derive(Clone, Copy, Debug, PartialEq, Eq, Structural)]
pub enum TrainerError {
    /// An environment failed to take a step.
    EnvStep,
    /// A channel was closed: the sign of an orderly shutdown.
    ChannelClosed,
    /// The store holds too few items to be sampled.
    BufferUnderfull,
    /// A model snapshot could not be written out.
    Serialization,
    /// A configuration was refused.
    Config(ConfigError),
}

/// How far a failure reaches.
#[derive(Clone, Copy, Debug, PartialEq, Eq, Structural)]
pub enum Reach {
    /// No failure at all: the loop that sees it ends in good order.
    Shutdown,
    /// The operation is tried again after a short wait.
    Retry,
    /// The actor that met it stops; the other actors and the learner go on.
    Actor,
    /// The whole training run ends.
    Run,
}

impl TrainerError {
    /// How far this failure reaches.
    pub open spec fn spec_reach(self) -> Reach {
        match self {
            TrainerError::EnvStep => Reach::Actor,
            TrainerError::ChannelClosed => Reach::Shutdown,
            TrainerError::BufferUnderfull => Reach::Retry,
            TrainerError::Serialization => Reach::Run,
            TrainerError::Config(_) => Reach::Run,
        }
    }

    /// How far this failure reaches: a failing environment stops its own actor
    /// only, a closed channel is an orderly shutdown, an underfull store is
    /// waited for, and a snapshot that cannot be written or a refused
    /// configuration ends the run.
    pub fn reach(&self) -> (r: Reach)
        ensures
            r == self.spec_reach(),
    {
        match self {
            TrainerError::EnvStep => Reach::Actor,
            TrainerError::ChannelClosed => Reach::Shutdown,
            TrainerError::BufferUnderfull => Reach::Retry,
            TrainerError::Serialization => Reach::Run,
            TrainerError::Config(_) => Reach::Run,
        }
    }

    /// Whether the training run must end on this failure.
    pub fn is_fatal(&self) -> (r: bool)
        ensures
            r == (self.spec_reach() == Reach::Run),
    {
        match self {
            TrainerError::Serialization => true,
            TrainerError::Config(_) => true,
            _ => false,
        }
    }
}

} // verus!
