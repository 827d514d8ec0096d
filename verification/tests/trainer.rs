use border_async::config::{AsyncTrainerConfig, PriorityConfig, ReplayBufferConfig, WeightNormalizer};
use border_async::error::{ConfigError, Reach, ReplayError, TrainerError};
use border_async::iw_scheduler::EXPONENT_ONE;
use border_async::replay::PrioritizedReplayStore;
use border_async::sum_tree::PRIORITY_ONE;
use border_async::trainer::{AsyncTrainer, Duties, TrainerAction};

fn config(max_opts: u64, warmup_size: usize) -> AsyncTrainerConfig {
    AsyncTrainerConfig {
        max_opts,
        warmup_size,
        eval_interval: 4,
        checkpoint_interval: 6,
        checkpoint_dir: "checkpoints".to_string(),
    }
}

fn store() -> PrioritizedReplayStore<u32> {
    let p = PriorityConfig {
        alpha: EXPONENT_ONE,
        beta0: 0,
        anneal_steps: 4,
        normalizer: WeightNormalizer::All,
    };
    let config = ReplayBufferConfig { capacity: 4, batch_size: 2, priority_config: Some(p) };
    let mut store = PrioritizedReplayStore::new(&config).ok().unwrap();
    store.insert(vec![1, 2, 3]);
    store
}

#[test]
fn the_learner_refuses_bad_options() {
    let mut c = config(5, 1);
    c.eval_interval = 0;
    assert_eq!(AsyncTrainer::new(c, 1).err(), Some(ConfigError::ZeroInterval));
    let mut c = config(5, 1);
    c.checkpoint_interval = 0;
    assert_eq!(AsyncTrainer::new(c, 1).err(), Some(ConfigError::ZeroInterval));
    assert_eq!(AsyncTrainer::new(config(5, 1), 0).err(), Some(ConfigError::ZeroInterval));
}

#[test]
fn the_learner_waits_below_the_warmup_size() {
    let trainer = AsyncTrainer::new(config(10, 100), 3).ok().unwrap();
    assert_eq!(trainer.next_action(0, false), TrainerAction::Wait);
    assert_eq!(trainer.next_action(99, false), TrainerAction::Wait);
    assert_eq!(trainer.next_action(100, false), TrainerAction::Optimize);
    assert_eq!(trainer.next_action(5000, false), TrainerAction::Optimize);
}

#[test]
fn a_stop_ends_the_learner() {
    let trainer = AsyncTrainer::new(config(10, 100), 3).ok().unwrap();
    assert_eq!(trainer.next_action(0, true), TrainerAction::Finish);
    assert_eq!(trainer.next_action(5000, true), TrainerAction::Finish);
}

#[test]
fn the_learner_ends_after_its_last_step() {
    let mut trainer = AsyncTrainer::new(config(3, 1), 2).ok().unwrap();
    let mut store = store();
    let mut steps = 0;
    while trainer.next_action(store.len(), false) == TrainerAction::Optimize {
        assert!(trainer.complete_step(&mut store, &vec![0], &vec![PRIORITY_ONE]).is_ok());
        steps += 1;
        assert!(steps <= 3);
    }
    assert_eq!(steps, 3);
    assert_eq!(trainer.opt_steps(), 3);
    assert_eq!(trainer.next_action(store.len(), false), TrainerAction::Finish);
    assert_eq!(trainer.next_action(0, false), TrainerAction::Finish);
}

#[test]
fn the_duties_fall_due_on_their_intervals() {
    let mut trainer = AsyncTrainer::new(config(100, 1), 3).ok().unwrap();
    let mut store = store();
    for step in 1..=24u64 {
        let duties = trainer.complete_step(&mut store, &vec![], &vec![]).ok().unwrap();
        assert_eq!(
            duties,
            Duties { broadcast: step % 3 == 0, checkpoint: step % 6 == 0, evaluate: step % 4 == 0 }
        );
        assert_eq!(trainer.opt_steps(), step);
    }
}

#[test]
fn a_step_writes_the_priorities_and_moves_the_schedule() {
    let mut trainer = AsyncTrainer::new(config(100, 1), 3).ok().unwrap();
    let mut store = store();
    assert_eq!(store.beta(), 0);
    let duties =
        trainer.complete_step(&mut store, &vec![0, 2], &vec![3 * PRIORITY_ONE, 5]).ok().unwrap();
    assert_eq!(duties, Duties { broadcast: false, checkpoint: false, evaluate: false });
    assert_eq!(store.priority(0), Some(3 * PRIORITY_ONE));
    assert_eq!(store.priority(1), Some(PRIORITY_ONE));
    assert_eq!(store.priority(2), Some(5));
    assert_eq!(store.max_priority(), 3 * PRIORITY_ONE);
    assert_eq!(store.beta(), EXPONENT_ONE / 4);
    assert_eq!(trainer.opt_steps(), 1);
}

#[test]
fn a_refused_step_changes_nothing() {
    let mut trainer = AsyncTrainer::new(config(100, 1), 3).ok().unwrap();
    let mut store = store();
    assert_eq!(
        trainer.complete_step(&mut store, &vec![3], &vec![PRIORITY_ONE]).err(),
        Some(ReplayError::IndexOutOfRange)
    );
    assert_eq!(trainer.opt_steps(), 0);
    assert_eq!(store.beta(), 0);
    assert_eq!(store.priority(0), Some(PRIORITY_ONE));
    assert_eq!(trainer.config().checkpoint_dir, "checkpoints");
}

#[test]
fn each_failure_reaches_as_far_as_it_must() {
    assert_eq!(TrainerError::EnvStep.reach(), Reach::Actor);
    assert_eq!(TrainerError::ChannelClosed.reach(), Reach::Shutdown);
    assert_eq!(TrainerError::BufferUnderfull.reach(), Reach::Retry);
    assert_eq!(TrainerError::Serialization.reach(), Reach::Run);
    assert_eq!(TrainerError::Config(ConfigError::ZeroCapacity).reach(), Reach::Run);
}

#[test]
fn only_a_failure_of_the_run_is_fatal() {
    assert!(!TrainerError::EnvStep.is_fatal());
    assert!(!TrainerError::ChannelClosed.is_fatal());
    assert!(!TrainerError::BufferUnderfull.is_fatal());
    assert!(TrainerError::Serialization.is_fatal());
    assert!(TrainerError::Config(ConfigError::CapacityNotPowerOfTwo).is_fatal());
}

#[test]
fn a_learner_without_steps_ends_at_once() {
    let trainer = AsyncTrainer::new(config(0, 0), 1).ok().unwrap();
    assert_eq!(trainer.next_action(100, false), TrainerAction::Finish);
    assert_eq!(trainer.next_action(0, false), TrainerAction::Finish);
    assert_eq!(trainer.opt_steps(), 0);
}
