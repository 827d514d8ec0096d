//! Prioritized experience replay and the coordination rules of an
//! asynchronous actor-learner trainer.
//!
//! Many actors generate experience and push it, batch by batch, into one
//! replay store of fixed capacity; one learner samples the store by
//! priority, learns, writes the new priorities back, and hands snapshots of
//! its model to the actors through a mailbox that keeps the latest only.
//!
//! The store is a ring of slots beside a sum tree of priorities
//! ([`sum_tree`], [`replay`], [`stratify`], [`iw_scheduler`]). The rules of
//! the actors, of their manager and of the learner are decision functions
//! ([`actor`], [`actor_manager`], [`trainer`], [`mailbox`]): the caller does
//! what takes threads, channels or time, and asks after each event what to do
//! next. What holds of all this, whatever the inputs, is stated and proved
//! beside the functions and in [`replay_laws`].
//!
//! Beside them stand the capabilities that a trainer asks of its
//! collaborators ([`base`], [`evaluator`], [`test`]), a policy network as
//! plain matrices ([`mat`], [`mlp`], [`mlp_agent`], [`tensor`]), and what a
//! tracked run computes ([`tracking`]).
//!
//! Numbers that would be fractions are fixed-point numbers with twenty
//! fractional bits: a priority, an exponent, a reward, a loss or a score `x`
//! is kept as `x * 2^20`. Sums of priorities and scores are kept in 128
//! bits. Single-precision numbers that are only carried, such as the
//! elements of a matrix, are kept as their bit patterns.

pub mod actor;
pub mod actor_manager;
pub mod base;
pub mod config;
pub mod error;
pub mod evaluator;
pub mod iw_scheduler;
pub mod layout;
pub mod mailbox;
pub mod mat;
pub mod messages;
pub mod mlp;
pub mod mlp_agent;
pub mod replay;
pub mod replay_laws;
pub mod stratify;
pub mod sum_tree;
pub mod sums;
pub mod tensor;
pub mod tracking;
pub mod trainer;

pub use actor::{Actor, ActorAction, ActorEvent, ActorPhase, ActorStat, PushTrigger};
pub use actor_manager::{ActorManager, PoolPhase};
pub use base::{
    Act, Agent, BatchBase, Configurable, Env, Info, Obs, Policy, Record, ReplayBuffer, Step,
    SyncModel,
};
pub use config::{
    ActorManagerConfig, AsyncTrainerConfig, PriorityConfig, ReplayBufferConfig, WeightNormalizer,
};
pub use error::{ConfigError, Reach, ReplayError, TrainerError};
pub use evaluator::{Evaluator, NegLossEvaluator};
pub use iw_scheduler::IwScheduler;
pub use mailbox::{Mailbox, ModelSnapshot};
pub use mat::{Mat, MatError};
pub use messages::PushedItemMessage;
pub use mlp::{Mlp, NamedTensor, VarTable};
pub use mlp_agent::MlpAgent;
pub use replay::{PrioritizedReplayStore, SampleBatch};
pub use sum_tree::SumTree;
pub use trainer::{AsyncTrainer, Duties, TrainerAction};
