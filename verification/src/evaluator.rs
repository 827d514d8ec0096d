//! Evaluators: what scores a policy.

use vstd::prelude::*;
use crate::base::{Agent, Env, Record, ReplayBuffer};
use crate::error::TrainerError;

verus! {

/// Something that scores an agent. Scores are fixed-point numbers with twenty
/// fractional bits, kept in 128 bits so that every loss has its negative.
pub trait Evaluator<E: Env, R: ReplayBuffer> {
    /// The score of the agent, and a record of how it came about.
    fn evaluate<A: Agent<E, R>>(&mut self, policy: &mut A) -> Result<(i128, Record), TrainerError>;
}

/// The score that belongs to a loss: its negative, so that a lower loss is a
/// higher score.
pub open spec fn score_of(loss: i64) -> int {
    -(loss as int)
}

/// A lower loss scores higher.
pub proof fn law_lower_loss_scores_higher(a: i64, b: i64)
    requires
        a < b,
    ensures
        score_of(a) > score_of(b),
{
}

/// The score that belongs to a loss.
pub fn neg_loss(loss: i64) -> (r: i128)
    ensures
        r == score_of(loss),
{
    -(loss as i128)
}

/// Scores an agent by the negative of its loss on one batch of experience.
pub struct NegLossEvaluator<R: ReplayBuffer> where R::Batch: Clone {
    batch: R::Batch,
}

impl<R: ReplayBuffer> NegLossEvaluator<R> where R::Batch: Clone {
    /// The batch that the agent is scored on.
    pub closed spec fn spec_batch(&self) -> R::Batch {
        self.batch
    }

    /// An evaluator on the given batch.
    pub fn new(batch: R::Batch) -> (r: Result<Self, TrainerError>)
        ensures
            r is Ok,
            r.unwrap().spec_batch() == batch,
    {
        Ok(Self { batch })
    }
}

impl<E: Env, R: ReplayBuffer> Evaluator<E, R> for NegLossEvaluator<R> where R::Batch: Clone {
    /// Asks the agent for its loss on a copy of the batch. The score is the
    /// negative of that loss, and the record holds the loss under the name
    /// `Loss`. The batch is kept for the next evaluation.
    fn evaluate<A: Agent<E, R>>(&mut self, policy: &mut A) -> (r: Result<
        (i128, Record),
        TrainerError,
    >)
        ensures
            final(self).spec_batch() == old(self).spec_batch(),
            r is Ok,
            r.unwrap().1@.len() == 1,
            r.unwrap().1@[0].0 == "Loss"@,
            r.unwrap().0 == score_of(r.unwrap().1@[0].1),
            exists|copy: R::Batch|
                cloned(old(self).spec_batch(), copy) && r.unwrap().1@[0].1 == old(
                    policy,
                ).loss_on(copy),
    {
        let copy = self.batch.clone();
        let ghost handed = copy;
        let loss: i64 = policy.loss(copy);
        assert(cloned(old(self).spec_batch(), handed) && loss == old(policy).loss_on(handed));
        let record = Record::from_scalar("Loss", loss);
        Ok((neg_loss(loss), record))
    }
}

} // verus!
