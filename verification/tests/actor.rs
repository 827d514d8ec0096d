use border_async::actor::{Actor, ActorAction, ActorEvent, ActorPhase, ActorStat, PushTrigger};
use border_async::error::ConfigError;

fn running(trigger: PushTrigger, sync_interval: u64) -> Actor<u32> {
    let mut actor = Actor::new(3, trigger, sync_interval).ok().unwrap();
    assert!(matches!(actor.on_event(ActorEvent::Start, false), ActorAction::Step));
    actor
}

fn stepped(item: u32) -> ActorEvent<u32> {
    ActorEvent::Stepped { item, episode_end: false }
}

#[test]
fn new_refuses_a_trigger_that_waits_for_nothing() {
    assert_eq!(
        Actor::<u32>::new(0, PushTrigger::Steps(0), 1).err(),
        Some(ConfigError::ZeroPushTrigger)
    );
    assert_eq!(
        Actor::<u32>::new(0, PushTrigger::Episodes(0), 1).err(),
        Some(ConfigError::ZeroPushTrigger)
    );
}

#[test]
fn new_refuses_a_sync_interval_of_zero() {
    assert_eq!(
        Actor::<u32>::new(0, PushTrigger::Steps(4), 0).err(),
        Some(ConfigError::ZeroInterval)
    );
}

#[test]
fn a_new_actor_is_idle() {
    let actor: Actor<u32> = Actor::new(5, PushTrigger::Steps(2), 3).ok().unwrap();
    assert_eq!(actor.id(), 5);
    assert_eq!(actor.phase(), ActorPhase::Idle);
    assert_eq!(actor.buffered(), 0);
    assert_eq!(actor.model_version(), None);
    assert!(!actor.has_failed());
    assert_eq!(actor.stat(), ActorStat { env_steps: 0, episodes: 0, pushes: 0 });
}

#[test]
fn an_idle_actor_waits_for_its_start() {
    let mut actor: Actor<u32> = Actor::new(5, PushTrigger::Steps(2), 3).ok().unwrap();
    assert!(matches!(actor.on_event(stepped(1), false), ActorAction::Wait));
    assert!(matches!(actor.on_event(ActorEvent::Sent, false), ActorAction::Wait));
    assert_eq!(actor.phase(), ActorPhase::Idle);
    assert_eq!(actor.buffered(), 0);
    assert!(matches!(actor.on_event(ActorEvent::Start, false), ActorAction::Step));
    assert_eq!(actor.phase(), ActorPhase::Running);
}

#[test]
fn an_actor_that_is_started_with_a_stop_pending_halts() {
    let mut actor: Actor<u32> = Actor::new(5, PushTrigger::Steps(2), 3).ok().unwrap();
    assert!(matches!(actor.on_event(ActorEvent::Start, true), ActorAction::Halt));
    assert_eq!(actor.phase(), ActorPhase::Stopped);
}

#[test]
fn the_actor_pushes_when_its_buffer_reaches_the_threshold() {
    let mut actor = running(PushTrigger::Steps(3), 100);
    assert!(matches!(actor.on_event(stepped(10), false), ActorAction::Step));
    assert!(matches!(actor.on_event(stepped(11), false), ActorAction::Step));
    assert_eq!(actor.buffered(), 2);
    match actor.on_event(stepped(12), false) {
        ActorAction::Push(message) => {
            assert_eq!(message.id, 3);
            assert_eq!(message.pushed_items, vec![10, 11, 12]);
        }
        _ => panic!("the actor did not push"),
    }
    assert_eq!(actor.buffered(), 0);
    assert_eq!(actor.stat(), ActorStat { env_steps: 3, episodes: 0, pushes: 1 });
    assert!(matches!(actor.on_event(ActorEvent::Sent, false), ActorAction::Step));
}

#[test]
fn the_actor_pushes_when_enough_episodes_have_ended() {
    let mut actor = running(PushTrigger::Episodes(2), 100);
    for item in 0..5 {
        assert!(matches!(actor.on_event(stepped(item), false), ActorAction::Step));
    }
    assert!(matches!(
        actor.on_event(ActorEvent::Stepped { item: 5, episode_end: true }, false),
        ActorAction::Step
    ));
    assert!(matches!(actor.on_event(stepped(6), false), ActorAction::Step));
    match actor.on_event(ActorEvent::Stepped { item: 7, episode_end: true }, false) {
        ActorAction::Push(message) => {
            assert_eq!(message.pushed_items, vec![0, 1, 2, 3, 4, 5, 6, 7]);
        }
        _ => panic!("the actor did not push"),
    }
    assert_eq!(actor.stat(), ActorStat { env_steps: 8, episodes: 2, pushes: 1 });
    assert_eq!(actor.buffered(), 0);
}

#[test]
fn the_actor_reads_the_mailbox_on_its_interval() {
    let mut actor = running(PushTrigger::Steps(100), 2);
    assert!(matches!(actor.on_event(stepped(1), false), ActorAction::Step));
    assert!(matches!(actor.on_event(stepped(2), false), ActorAction::CheckMailbox));
    assert!(matches!(
        actor.on_event(ActorEvent::MailboxChecked { held: None }, false),
        ActorAction::Step
    ));
    assert!(matches!(actor.on_event(stepped(3), false), ActorAction::Step));
    assert!(matches!(actor.on_event(stepped(4), false), ActorAction::CheckMailbox));
}

#[test]
fn the_actor_reads_the_mailbox_after_a_push_went_out() {
    let mut actor = running(PushTrigger::Steps(2), 2);
    assert!(matches!(actor.on_event(stepped(1), false), ActorAction::Step));
    assert!(matches!(actor.on_event(stepped(2), false), ActorAction::Push(_)));
    assert!(matches!(actor.on_event(ActorEvent::Sent, false), ActorAction::CheckMailbox));
}

#[test]
fn the_actor_applies_a_newer_snapshot_only() {
    let mut actor = running(PushTrigger::Steps(100), 1);
    assert!(matches!(actor.on_event(stepped(1), false), ActorAction::CheckMailbox));
    assert!(matches!(
        actor.on_event(ActorEvent::MailboxChecked { held: Some(4) }, false),
        ActorAction::Sync { version: 4 }
    ));
    assert_eq!(actor.model_version(), None);
    assert!(matches!(actor.on_event(ActorEvent::Synced { version: 4 }, false), ActorAction::Step));
    assert_eq!(actor.model_version(), Some(4));
    assert!(matches!(actor.on_event(stepped(2), false), ActorAction::CheckMailbox));
    assert!(matches!(
        actor.on_event(ActorEvent::MailboxChecked { held: Some(4) }, false),
        ActorAction::Step
    ));
    assert!(matches!(actor.on_event(stepped(3), false), ActorAction::CheckMailbox));
    assert!(matches!(
        actor.on_event(ActorEvent::MailboxChecked { held: Some(3) }, false),
        ActorAction::Step
    ));
    assert!(matches!(actor.on_event(stepped(4), false), ActorAction::CheckMailbox));
    assert!(matches!(
        actor.on_event(ActorEvent::MailboxChecked { held: Some(9) }, false),
        ActorAction::Sync { version: 9 }
    ));
    assert!(matches!(actor.on_event(ActorEvent::Synced { version: 9 }, false), ActorAction::Step));
    assert_eq!(actor.model_version(), Some(9));
    assert!(matches!(actor.on_event(ActorEvent::Synced { version: 2 }, false), ActorAction::Step));
    assert_eq!(actor.model_version(), Some(9));
}

#[test]
fn a_stop_is_seen_between_two_steps() {
    let mut actor = running(PushTrigger::Steps(2), 100);
    assert!(matches!(actor.on_event(stepped(1), true), ActorAction::Halt));
    assert_eq!(actor.phase(), ActorPhase::Stopped);
    assert_eq!(actor.buffered(), 1);
    assert_eq!(actor.stat().env_steps, 1);
}

#[test]
fn a_stop_lets_a_push_go_out_first() {
    let mut actor = running(PushTrigger::Steps(1), 100);
    assert!(matches!(actor.on_event(stepped(1), true), ActorAction::Push(_)));
    assert_eq!(actor.phase(), ActorPhase::Running);
    assert!(matches!(actor.on_event(ActorEvent::Sent, true), ActorAction::Halt));
    assert_eq!(actor.phase(), ActorPhase::Stopped);
}

#[test]
fn a_failing_environment_stops_the_actor() {
    let mut actor = running(PushTrigger::Steps(4), 100);
    assert!(matches!(actor.on_event(stepped(1), false), ActorAction::Step));
    assert!(matches!(actor.on_event(ActorEvent::StepFailed, false), ActorAction::ReportFailure));
    assert_eq!(actor.phase(), ActorPhase::Stopped);
    assert!(actor.has_failed());
    assert_eq!(actor.buffered(), 1);
}

#[test]
fn a_closed_channel_ends_the_actor_in_good_order() {
    let mut actor = running(PushTrigger::Steps(1), 100);
    assert!(matches!(actor.on_event(stepped(1), false), ActorAction::Push(_)));
    assert!(matches!(actor.on_event(ActorEvent::ChannelClosed, false), ActorAction::Halt));
    assert_eq!(actor.phase(), ActorPhase::Stopped);
    assert!(!actor.has_failed());
}

#[test]
fn a_stopped_actor_stays_stopped() {
    let mut actor = running(PushTrigger::Steps(1), 100);
    assert!(matches!(actor.on_event(ActorEvent::ChannelClosed, false), ActorAction::Halt));
    let stat = actor.stat();
    assert!(matches!(actor.on_event(ActorEvent::Start, false), ActorAction::Halt));
    assert!(matches!(actor.on_event(stepped(9), false), ActorAction::Halt));
    assert!(matches!(actor.on_event(ActorEvent::Synced { version: 5 }, false), ActorAction::Halt));
    assert_eq!(actor.phase(), ActorPhase::Stopped);
    assert_eq!(actor.stat(), stat);
    assert_eq!(actor.buffered(), 0);
    assert_eq!(actor.model_version(), None);
}

#[test]
fn the_stream_of_an_actor_keeps_its_order() {
    let mut actor = running(PushTrigger::Steps(4), 3);
    let mut pushed: Vec<u32> = Vec::new();
    let mut action = ActorAction::Step;
    let mut item = 0u32;
    for _ in 0..200 {
        let event = match action {
            ActorAction::Step => {
                item += 1;
                stepped(item)
            }
            ActorAction::Push(message) => {
                assert_eq!(message.id, 3);
                assert_eq!(message.pushed_items.len(), 4);
                pushed.extend(message.pushed_items);
                ActorEvent::Sent
            }
            ActorAction::CheckMailbox => ActorEvent::MailboxChecked { held: None },
            _ => panic!("the actor left its loop"),
        };
        action = actor.on_event(event, false);
        assert!(actor.buffered() < 4);
    }
    let expected: Vec<u32> = (1..=pushed.len() as u32).collect();
    assert_eq!(pushed, expected);
    assert_eq!(pushed.len() + actor.buffered(), item as usize);
}
