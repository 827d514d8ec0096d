use border_async::base::{Agent, BatchBase, Configurable, Env, Obs, Policy, Record, SyncModel};
use border_async::config::ReplayBufferConfig;
use border_async::replay::PrioritizedReplayStore;
use border_async::test::{
    TestAct, TestActBatch, TestAgent, TestAgentConfig, TestEnv, TestObs, TestObsBatch,
};

#[test]
fn the_environment_starts_every_episode_in_its_initial_state() {
    let mut env = TestEnv::build(&5, 0).ok().unwrap();
    assert_eq!(env.state(), 0);
    let obs = env.reset(None).ok().unwrap();
    assert_eq!(obs.value(), 5);
    assert_eq!(obs.len(), 1);
    assert_eq!(env.state(), 5);
    let obs = env.reset_with_index(3).ok().unwrap();
    assert_eq!(obs.value(), 5);
}

#[test]
fn a_step_adds_the_action_to_the_state() {
    let mut env = TestEnv::build(&5, 42).ok().unwrap();
    let mut agent = TestAgent::build(TestAgentConfig);
    let obs = env.reset(Some(&vec![1])).ok().unwrap();
    let act = agent.sample(&obs);
    assert_eq!(act.value(), 1);
    let (step, record) = env.step(&act);
    assert_eq!(step.obs.value(), 6);
    assert_eq!(step.act.value(), 1);
    assert_eq!(step.reward, vec![0]);
    assert_eq!(step.is_terminated, vec![0]);
    assert_eq!(step.is_truncated, vec![0]);
    assert_eq!(step.init_obs.unwrap().value(), 5);
    assert!(record.is_empty());
    let (step, record) = env.step_with_reset(&act);
    assert_eq!(step.obs.value(), 7);
    assert_eq!(step.init_obs.unwrap().value(), 5);
    assert_eq!(record.len(), 0);
    assert_eq!(env.state(), 7);
}

#[test]
fn a_reset_undoes_the_steps() {
    let mut env = TestEnv::build(&2, 0).ok().unwrap();
    let mut agent = TestAgent::build(TestAgentConfig);
    let obs = env.reset(None).ok().unwrap();
    let act = agent.sample(&obs);
    for _ in 0..10 {
        env.step(&act);
    }
    assert_eq!(env.state(), 12);
    assert_eq!(env.reset(None).ok().unwrap().value(), 2);
    assert_eq!(env.state(), 2);
}

#[test]
fn a_batch_of_observations_stores_and_samples_by_slot() {
    let mut env = TestEnv::build(&7, 0).ok().unwrap();
    let mut agent = TestAgent::build(TestAgentConfig);
    let mut batch = TestObsBatch::new(4);
    assert_eq!(batch.values(), &vec![0, 0, 0, 0]);
    let obs = env.reset(None).ok().unwrap();
    batch.push(2, TestObsBatch::from(obs));
    let act = agent.sample(&obs);
    let (step, _) = env.step(&act);
    batch.push(0, TestObsBatch::from(step.obs));
    assert_eq!(batch.values(), &vec![8, 0, 7, 0]);
    let picked = batch.sample(&vec![2, 2, 0, 3]);
    assert_eq!(picked.values(), &vec![7, 7, 8, 0]);
    assert_eq!(batch.sample(&vec![]).values(), &Vec::<usize>::new());
}

#[test]
fn a_batch_of_actions_stores_and_samples_by_slot() {
    let mut env = TestEnv::build(&7, 0).ok().unwrap();
    let mut agent = TestAgent::build(TestAgentConfig);
    let obs = env.reset(None).ok().unwrap();
    let act = agent.sample(&obs);
    let mut batch = TestActBatch::new(3);
    assert_eq!(TestActBatch::from(act).values(), &vec![1]);
    batch.push(1, TestActBatch::from(act));
    assert_eq!(batch.values(), &vec![0, 1, 0]);
    assert_eq!(batch.sample(&vec![1, 0, 1]).values(), &vec![1, 0, 1]);
}

#[test]
fn the_agent_learns_nothing() {
    let mut agent = TestAgent::build(TestAgentConfig);
    agent.train();
    assert!(!agent.is_train());
    agent.eval();
    assert!(!agent.is_train());
    let config = ReplayBufferConfig { capacity: 4, batch_size: 2, priority_config: None };
    let mut buffer = PrioritizedReplayStore::new(&config).ok().unwrap();
    let mut env = TestEnv::build(&1, 0).ok().unwrap();
    buffer.push(env.reset(None).ok().unwrap());
    let record: Record = agent.opt_with_record(&mut buffer);
    assert!(record.is_empty());
    assert_eq!(buffer.len(), 1);
    assert_eq!(agent.save_params("anywhere").ok().unwrap(), Vec::<String>::new());
    assert!(agent.load_params("anywhere").is_ok());
    let batch = buffer.sample(&vec![0]).ok().unwrap();
    assert_eq!(agent.loss(batch), 0);
}

#[test]
fn the_agent_hands_out_version_zero() {
    let mut agent = TestAgent::build(TestAgentConfig);
    assert_eq!(agent.model_info(), (0, 0));
    agent.sync_model(&17);
    assert_eq!(agent.model_info(), (0, 0));
}

#[test]
fn a_record_keeps_its_scalar() {
    let record = Record::from_scalar("Loss", -3);
    assert_eq!(record.len(), 1);
    assert!(!record.is_empty());
    assert_eq!(record.value_at(0), Some(-3));
    assert_eq!(record.value_at(1), None);
    assert_eq!(Record::empty().value_at(0), None);
}

#[test]
fn a_second_write_to_a_slot_replaces_the_first() {
    let mut b = TestObsBatch::new(4);
    for k in 0..4 {
        b.push(k, TestObsBatch::from(TestObs::new(k + 1)));
    }
    b.push(0, TestObsBatch::from(TestObs::new(5)));
    assert_eq!(b.sample(&vec![0, 1, 2, 3]).values(), &vec![5, 2, 3, 4]);
    assert_eq!(b.values().iter().sum::<usize>(), 14);
}

#[test]
fn a_sample_repeats_a_slot_as_often_as_it_is_named() {
    let mut b = TestObsBatch::new(8);
    for i in 0..8 {
        b.push(i, TestObsBatch::from(TestObs::new(i)));
    }
    assert_eq!(b.sample(&vec![0, 0, 0, 4]).values(), &vec![0, 0, 0, 4]);
    assert_eq!(b.values(), &vec![0, 1, 2, 3, 4, 5, 6, 7]);
}

#[test]
fn a_fifth_item_overwrites_the_first_of_four_slots() {
    let mut b = TestObsBatch::new(4);
    for (slot, item) in [10usize, 11, 12, 13].iter().enumerate() {
        b.push(slot, TestObsBatch::from(TestObs::new(*item)));
    }
    b.push(4 % 4, TestObsBatch::from(TestObs::new(14)));
    assert_eq!(b.values(), &vec![14, 11, 12, 13]);
}

#[test]
fn an_action_is_read_back_from_its_slot() {
    let mut b = TestActBatch::new(4);
    b.push(2, TestActBatch::from(TestAct::new(7)));
    assert_eq!(b.sample(&vec![2, 0, 2, 3]).values(), &vec![7, 0, 7, 0]);
    assert_eq!(TestAct::new(7).value(), 7);
    assert_eq!(TestObsBatch::from(TestObs::new(9)).values(), &vec![9]);
}

#[test]
fn the_environment_says_whether_it_can_step() {
    let mut env = TestEnv::build(&(usize::MAX - 1), 0).ok().unwrap();
    env.reset(None).ok().unwrap();
    assert!(env.ready_for(&TestAct::new(1)));
    assert!(!env.ready_for(&TestAct::new(2)));
    env.step(&TestAct::new(1));
    assert_eq!(env.state(), usize::MAX);
    assert!(env.ready_for(&TestAct::new(0)));
    assert!(!env.ready_for(&TestAct::new(1)));
}
