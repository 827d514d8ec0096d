//! The capabilities that the trainer asks of its collaborators: environments,
//! policies, agents, replay buffers and batches.

use vstd::prelude::*;
use crate::error::{ReplayError, TrainerError};

verus! {

/// An observation.
pub trait Obs: Clone {
    /// The number of observations that this value holds.
    fn len(&self) -> usize;
}

/// An action.
pub trait Act: Clone {
}

/// What an environment reports beside the observation.
pub trait Info {
}

/// One named number of a record.
pub struct Scalar {
    /// The name.
    pub name: String,
    /// The value, a fixed-point number with twenty fractional bits.
    pub value: i64,
}

/// Named numbers, for whoever keeps track of a run.
pub struct Record {
    scalars: Vec<Scalar>,
}

impl View for Record {
    type V = Seq<(Seq<char>, i64)>;

    closed spec fn view(&self) -> Seq<(Seq<char>, i64)> {
        Seq::new(self.scalars@.len(), |i: int| (self.scalars@[i].name@, self.scalars@[i].value))
    }
}

impl Record {
    /// A record without entries.
    pub fn empty() -> (r: Record)
        ensures
            r@ == Seq::<(Seq<char>, i64)>::empty(),
    {
        let r = Record { scalars: Vec::new() };
        assert(r@ =~= Seq::<(Seq<char>, i64)>::empty());
        r
    }

    /// A record of one entry.
    pub fn from_scalar(name: &str, value: i64) -> (r: Record)
        ensures
            r@ == seq![(name@, value)],
    {
        let mut scalars: Vec<Scalar> = Vec::new();
        scalars.push(Scalar { name: name.to_owned(), value });
        let r = Record { scalars };
        assert(r@ =~= seq![(name@, value)]);
        r
    }

    /// The number of entries.
    pub fn len(&self) -> (r: usize)
        ensures
            r == self@.len(),
    {
        self.scalars.len()
    }

    /// Whether the record has no entry.
    pub fn is_empty(&self) -> (r: bool)
        ensures
            r == (self@.len() == 0),
    {
        self.scalars.len() == 0
    }

    /// The value of entry `i`, if there is such an entry.
    pub fn value_at(&self, i: usize) -> (r: Option<i64>)
        ensures
            r == if i < self@.len() {
                Some(self@[i as int].1)
            } else {
                None
            },
    {
        if i < self.scalars.len() {
            Some(self.scalars[i].value)
        } else {
            None
        }
    }
}

/// What one step of an environment yields. Rewards are fixed-point numbers
/// with twenty fractional bits.
pub struct Step<E: Env> {
    /// The action taken.
    pub act: E::Act,
    /// The observation after the step.
    pub obs: E::Obs,
    /// The rewards.
    pub reward: Vec<i64>,
    /// For each environment, whether its episode ended for good.
    pub is_terminated: Vec<i8>,
    /// For each environment, whether its episode was cut short.
    pub is_truncated: Vec<i8>,
    /// What the environment reports beside the observation.
    pub info: E::Info,
    /// The first observation of the next episode, where this step ended one.
    pub init_obs: Option<E::Obs>,
}

/// An environment.
pub trait Env: Sized {
    /// The options that an environment is built from.
    type Config;

    /// The observations of the environment.
    type Obs: Obs;

    /// The actions of the environment.
    type Act: Act;

    /// What the environment reports beside the observation.
    type Info: Info;

    /// Whether the environment can take the action `a` now.
    spec fn can_step(&self, a: &Self::Act) -> bool;

    /// Tells whether the environment can take the action `a` now.
    fn ready_for(&self, a: &Self::Act) -> (r: bool)
        ensures
            r == self.can_step(a),
    ;

    /// Builds an environment.
    fn build(config: &Self::Config, seed: i64) -> Result<Self, TrainerError>;

    /// Takes one step.
    fn step(&mut self, a: &Self::Act) -> (Step<Self>, Record)
        requires
            old(self).can_step(a),
    ;

    /// Starts a new episode.
    fn reset(&mut self, is_done: Option<&Vec<i8>>) -> Result<Self::Obs, TrainerError>;

    /// Takes one step, and starts a new episode where the step ended one.
    fn step_with_reset(&mut self, a: &Self::Act) -> (Step<Self>, Record)
        requires
            old(self).can_step(a),
    ;

    /// Starts the episode of the given number.
    fn reset_with_index(&mut self, ix: usize) -> Result<Self::Obs, TrainerError>;
}

/// A policy on an environment.
pub trait Policy<E: Env> {
    /// The action for an observation.
    fn sample(&mut self, obs: &E::Obs) -> E::Act;
}

/// Something that is built from options.
pub trait Configurable: Sized {
    /// The options.
    type Config: Clone;

    /// Builds it.
    fn build(config: Self::Config) -> Self;
}

/// A replay buffer, as an agent sees it.
pub trait ReplayBuffer {
    /// What a draw yields.
    type Batch;

    /// Whether the buffer is sound.
    spec fn ready(&self) -> bool;

    /// Draws one item for each raw draw.
    fn batch(&mut self, draws: &Vec<u64>) -> (r: Result<Self::Batch, ReplayError>)
        requires
            old(self).ready(),
        ensures
            final(self).ready(),
    ;

    /// Gives the items in the slots of `indices` new priorities.
    fn update_priority(&mut self, indices: &Vec<usize>, priorities: &Vec<u64>) -> (r: Result<
        (),
        ReplayError,
    >)
        requires
            old(self).ready(),
        ensures
            final(self).ready(),
    ;
}

/// A policy that learns.
pub trait Agent<E: Env, R: ReplayBuffer>: Policy<E> {
    /// Switches to training.
    fn train(&mut self);

    /// Switches to evaluation.
    fn eval(&mut self);

    /// Whether the agent is training.
    fn is_train(&self) -> bool;

    /// Takes one optimization step on the buffer.
    fn opt_with_record(&mut self, buffer: &mut R) -> (r: Record)
        requires
            old(buffer).ready(),
        ensures
            final(buffer).ready(),
    ;

    /// The loss that the agent, as it stands, has on a batch.
    spec fn loss_on(&self, batch: R::Batch) -> i64;

    /// The loss on a batch, a fixed-point number with twenty fractional bits.
    fn loss(&mut self, batch: R::Batch) -> (r: i64)
        ensures
            r == old(self).loss_on(batch),
    ;

    /// Writes the parameters under `path`, and returns where they went.
    fn save_params(&self, path: &str) -> Result<Vec<String>, TrainerError>;

    /// Reads the parameters from under `path`.
    fn load_params(&mut self, path: &str) -> Result<(), TrainerError>;
}

/// A batch of observations or of actions, stored slot by slot.
pub trait BatchBase: Sized {
    /// The number of slots.
    spec fn spec_len(&self) -> nat;

    /// A batch of `capacity` slots.
    fn new(capacity: usize) -> (r: Self)
        ensures
            r.spec_len() == capacity,
    ;

    /// Stores the first item of `data` in slot `ix`.
    fn push(&mut self, ix: usize, data: Self)
        requires
            ix < old(self).spec_len(),
            data.spec_len() >= 1,
        ensures
            final(self).spec_len() == old(self).spec_len(),
    ;

    /// The items in the slots of `ixs`, in that order.
    fn sample(&self, ixs: &Vec<usize>) -> (r: Self)
        requires
            forall|i: int| 0 <= i < ixs@.len() ==> ixs@[i] < self.spec_len(),
        ensures
            r.spec_len() == ixs@.len(),
    ;
}

/// A model whose parameters can be handed out and taken in as a whole.
pub trait SyncModel {
    /// The parameters, in a form that stands by itself.
    type ModelInfo: Clone;

    /// The version of the parameters, and the parameters.
    fn model_info(&self) -> (usize, Self::ModelInfo);

    /// Takes the parameters in, in place of the model's own.
    fn sync_model(&mut self, model_info: &Self::ModelInfo);
}

} // verus!
