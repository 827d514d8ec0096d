use border_async::base::{Agent, Env, Policy, ReplayBuffer};
use border_async::config::ReplayBufferConfig;
use border_async::error::TrainerError;
use border_async::evaluator::{neg_loss, Evaluator, NegLossEvaluator};
use border_async::replay::{PrioritizedReplayStore, SampleBatch};
use border_async::test::{TestAct, TestAgent, TestBuffer, TestEnv, TestObs};
use border_async::base::{Configurable, Record};
use border_async::test::TestAgentConfig;

/// An agent whose loss is the sum of the observed states of the batch.
struct SummingAgent {
    inner: TestAgent,
}

impl Policy<TestEnv> for SummingAgent {
    fn sample(&mut self, obs: &TestObs) -> TestAct {
        self.inner.sample(obs)
    }
}

impl Agent<TestEnv, TestBuffer> for SummingAgent {
    fn train(&mut self) {}

    fn eval(&mut self) {}

    fn is_train(&self) -> bool {
        false
    }

    fn opt_with_record(&mut self, _buffer: &mut TestBuffer) -> Record {
        Record::empty()
    }

    fn loss_on(&self, batch: SampleBatch<TestObs>) -> i64 {
        batch.items.iter().map(|obs| obs.value() as i64).sum()
    }

    fn loss(&mut self, batch: SampleBatch<TestObs>) -> i64 {
        self.loss_on(batch)
    }

    fn save_params(&self, _path: &str) -> Result<Vec<String>, TrainerError> {
        Ok(vec![])
    }

    fn load_params(&mut self, _path: &str) -> Result<(), TrainerError> {
        Ok(())
    }
}

fn batch_of_two() -> SampleBatch<TestObs> {
    let config = ReplayBufferConfig { capacity: 4, batch_size: 2, priority_config: None };
    let mut buffer: TestBuffer = PrioritizedReplayStore::new(&config).ok().unwrap();
    let mut env = TestEnv::build(&20, 0).ok().unwrap();
    let mut agent = TestAgent::build(TestAgentConfig);
    let obs = env.reset(None).ok().unwrap();
    buffer.push(obs);
    let act = agent.sample(&obs);
    let (step, _) = env.step(&act);
    buffer.push(step.obs);
    buffer.batch(&vec![1, 1]).ok().unwrap()
}

#[test]
fn the_score_is_the_negative_of_the_loss() {
    assert_eq!(neg_loss(0), 0);
    assert_eq!(neg_loss(5), -5);
    assert_eq!(neg_loss(-5), 5);
    assert_eq!(neg_loss(i64::MAX), -(i64::MAX as i128));
}

#[test]
fn every_loss_has_its_negative() {
    assert_eq!(neg_loss(i64::MIN), i64::MAX as i128 + 1);
    assert_eq!(neg_loss(i64::MIN + 1), i64::MAX as i128);
}

#[test]
fn a_lower_loss_scores_strictly_higher() {
    let losses = [i64::MIN, i64::MIN + 1, -7, -1, 0, 1, 7, i64::MAX - 1, i64::MAX];
    for pair in losses.windows(2) {
        assert!(neg_loss(pair[0]) > neg_loss(pair[1]));
    }
}

#[test]
fn the_evaluator_scores_the_agent_on_its_batch() {
    let batch = batch_of_two();
    assert_eq!(batch.indices, vec![0, 1]);
    let mut evaluator = NegLossEvaluator::<TestBuffer>::new(batch).ok().unwrap();
    let mut agent = SummingAgent { inner: TestAgent::build(TestAgentConfig) };
    let (score, record) =
        <NegLossEvaluator<TestBuffer> as Evaluator<TestEnv, TestBuffer>>::evaluate(
            &mut evaluator,
            &mut agent,
        )
        .ok()
        .unwrap();
    assert_eq!(score, -41);
    assert_eq!(record.len(), 1);
    assert_eq!(record.value_at(0), Some(41));
    // the batch is kept, so a second evaluation gives the same score
    let (again, _) = <NegLossEvaluator<TestBuffer> as Evaluator<TestEnv, TestBuffer>>::evaluate(
        &mut evaluator,
        &mut agent,
    )
    .ok()
    .unwrap();
    assert_eq!(again, -41);
}

#[test]
fn the_evaluator_scores_an_agent_without_loss_at_zero() {
    let mut evaluator = NegLossEvaluator::<TestBuffer>::new(batch_of_two()).ok().unwrap();
    let mut agent = TestAgent::build(TestAgentConfig);
    let (score, record) =
        <NegLossEvaluator<TestBuffer> as Evaluator<TestEnv, TestBuffer>>::evaluate(
            &mut evaluator,
            &mut agent,
        )
        .ok()
        .unwrap();
    assert_eq!(score, 0);
    assert_eq!(record.value_at(0), Some(0));
}
