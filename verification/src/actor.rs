//! The rules of one actor: what it does next after each thing that happens to
//! it. The caller steps the environment, sends the messages and reads the
//! mailbox; the actor decides.

use vstd::prelude::*;
use crate::error::ConfigError;
use crate::mailbox::accepts_after;
use crate::messages::PushedItemMessage;

verus! {

/// Where an actor stands in its life.
#[derive(Clone, Copy, Debug, PartialEq, Eq, Structural)]
pub enum ActorPhase {
    /// Built, not started yet.
    Idle,
    /// Generating experience.
    Running,
    /// Done for good.
    Stopped,
}

/// When an actor pushes what it has generated.
#[derive(Clone, Copy, Debug, PartialEq, Eq, Structural)]
pub enum PushTrigger {
    /// Once it holds this many items.
    Steps(usize),
    /// Once this many episodes have ended among the items that it holds.
    Episodes(u64),
}

impl PushTrigger {
    /// The number of steps or of episodes that the trigger waits for.
    pub open spec fn count(self) -> int {
        match self {
            PushTrigger::Steps(n) => n as int,
            PushTrigger::Episodes(n) => n as int,
        }
    }

    /// Whether an actor that holds `held` items, among them the ends of
    /// `episodes` episodes, is to push.
    pub open spec fn due(self, held: int, episodes: int) -> bool {
        match self {
            PushTrigger::Steps(n) => held >= n,
            PushTrigger::Episodes(n) => episodes >= n,
        }
    }
}

/// The counters of one actor. Each stays at the largest `u64` once it has
/// reached it.
#[derive(Clone, Copy, Debug, PartialEq, Eq, Structural)]
pub struct ActorStat {
    /// The number of environment steps taken.
    pub env_steps: u64,
    /// The number of episodes ended.
    pub episodes: u64,
    /// The number of messages pushed.
    pub pushes: u64,
}

/// The counters of an actor that has done nothing yet.
pub open spec fn no_counts() -> ActorStat {
    ActorStat { env_steps: 0, episodes: 0, pushes: 0 }
}

/// What happened to an actor.
pub enum ActorEvent<T> {
    /// The manager started the actor.
    Start,
    /// The environment took a step and produced an item.
    Stepped {
        /// The item.
        item: T,
        /// Whether the step ended an episode.
        episode_end: bool,
    },
    /// The environment failed to take a step.
    StepFailed,
    /// The message went out on the ingestion channel.
    Sent,
    /// The ingestion channel is closed.
    ChannelClosed,
    /// The mailbox was read: it holds a snapshot of this version, or none.
    MailboxChecked {
        /// The version in the mailbox.
        held: Option<usize>,
    },
    /// The snapshot of this version was applied to the actor's policy.
    Synced {
        /// The version applied.
        version: usize,
    },
}

/// What an actor does next.
pub enum ActorAction<T> {
    /// Nothing: the actor was not started.
    Wait,
    /// Step the environment.
    Step,
    /// Send this message on the ingestion channel, waiting while it is full.
    Push(PushedItemMessage<T>),
    /// Read the mailbox, without waiting.
    CheckMailbox,
    /// Apply the snapshot of this version.
    Sync {
        /// The version to apply.
        version: usize,
    },
    /// Report that the environment failed, and leave the loop.
    ReportFailure,
    /// Leave the loop.
    Halt,
}

/// The kinds of action, without what they carry.
#[derive(Clone, Copy, Debug, PartialEq, Eq, Structural)]
pub enum ActionKind {
    /// See `ActorAction::Wait`.
    Wait,
    /// See `ActorAction::Step`.
    Step,
    /// See `ActorAction::Push`.
    Push,
    /// See `ActorAction::CheckMailbox`.
    CheckMailbox,
    /// See `ActorAction::Sync`.
    Sync,
    /// See `ActorAction::ReportFailure`.
    ReportFailure,
    /// See `ActorAction::Halt`.
    Halt,
}

impl<T> ActorAction<T> {
    /// The kind of this action.
    pub open spec fn kind(self) -> ActionKind {
        match self {
            ActorAction::Wait => ActionKind::Wait,
            ActorAction::Step => ActionKind::Step,
            ActorAction::Push(_) => ActionKind::Push,
            ActorAction::CheckMailbox => ActionKind::CheckMailbox,
            ActorAction::Sync { .. } => ActionKind::Sync,
            ActorAction::ReportFailure => ActionKind::ReportFailure,
            ActorAction::Halt => ActionKind::Halt,
        }
    }
}

/// A counter one higher, unless it has reached the largest `u64`.
pub open spec fn bump(x: u64) -> u64 {
    if x < u64::MAX {
        (x + 1) as u64
    } else {
        x
    }
}

/// A counter raised by `by`, or the largest `u64` where the sum exceeds it.
pub open spec fn raise(x: u64, by: int) -> u64 {
    if x + by <= u64::MAX {
        (x + by) as u64
    } else {
        u64::MAX
    }
}

/// A counter one higher, unless it has reached the largest `u64`.
pub fn bumped(x: u64) -> (r: u64)
    ensures
        r == bump(x),
{
    if x < u64::MAX {
        x + 1
    } else {
        x
    }
}

/// What an actor holds, as mathematics.
pub struct ActorModel<T> {
    /// The actor's identity.
    pub id: usize,
    /// Where the actor stands in its life.
    pub phase: ActorPhase,
    /// When the actor pushes.
    pub push_trigger: PushTrigger,
    /// The number of steps between two reads of the mailbox.
    pub sync_interval: u64,
    /// The items generated and not pushed yet, oldest first.
    pub buffer: Seq<T>,
    /// The number of episodes that have ended among those items.
    pub episodes_held: u64,
    /// The number of steps since the mailbox was last read.
    pub since_sync: u64,
    /// The version of the snapshot that the policy runs on, if any.
    pub version: Option<usize>,
    /// The counters.
    pub stat: ActorStat,
    /// Whether the environment failed.
    pub failed: bool,
}

impl<T> ActorModel<T> {
    /// The actor is sound: its trigger waits for one step or episode or
    /// more, it reads the mailbox every step or less often, and it holds less
    /// than it pushes at.
    pub open spec fn wf(self) -> bool {
        &&& self.push_trigger.count() >= 1
        &&& self.sync_interval >= 1
        &&& !self.push_trigger.due(self.buffer.len() as int, self.episodes_held as int)
    }

    /// The number of episodes ended among the held items, once one more item
    /// is held.
    pub open spec fn episodes_with(self, episode_end: bool) -> u64 {
        if episode_end {
            bump(self.episodes_held)
        } else {
            self.episodes_held
        }
    }

    /// The actor at a step boundary: it stops where it was asked to, else it
    /// goes on.
    pub open spec fn at_boundary(self, stop: bool) -> ActorModel<T> {
        if stop {
            ActorModel { phase: ActorPhase::Stopped, ..self }
        } else {
            self
        }
    }

    /// The actor after its items are out of its hands: it reads the mailbox
    /// where the interval has passed, else it is at a step boundary.
    pub open spec fn after_items(self, stop: bool) -> ActorModel<T> {
        if self.since_sync >= self.sync_interval {
            ActorModel { since_sync: 0, ..self }
        } else {
            self.at_boundary(stop)
        }
    }

    /// What the actor does once its items are out of its hands.
    pub open spec fn kind_after_items(self, stop: bool) -> ActionKind {
        if self.since_sync >= self.sync_interval {
            ActionKind::CheckMailbox
        } else if stop {
            ActionKind::Halt
        } else {
            ActionKind::Step
        }
    }

    /// The actor with one more item generated, before it decides on a push.
    pub open spec fn count_step(self, episode_end: bool) -> ActorModel<T> {
        ActorModel {
            since_sync: bump(self.since_sync),
            stat: ActorStat {
                env_steps: bump(self.stat.env_steps),
                episodes: if episode_end {
                    bump(self.stat.episodes)
                } else {
                    self.stat.episodes
                },
                pushes: self.stat.pushes,
            },
            ..self
        }
    }

    /// The actor after `event`, where `stop` tells whether it was asked to stop.
    pub open spec fn next(self, event: ActorEvent<T>, stop: bool) -> ActorModel<T> {
        match self.phase {
            ActorPhase::Stopped => self,
            ActorPhase::Idle => match event {
                ActorEvent::Start => ActorModel { phase: ActorPhase::Running, ..self }.at_boundary(
                    stop,
                ),
                _ => self,
            },
            ActorPhase::Running => match event {
                ActorEvent::Start => self.at_boundary(stop),
                ActorEvent::Stepped { item, episode_end } => {
                    let counted = self.count_step(episode_end);
                    if self.push_trigger.due(
                        self.buffer.len() as int + 1,
                        self.episodes_with(episode_end) as int,
                    ) {
                        ActorModel {
                            buffer: Seq::empty(),
                            episodes_held: 0,
                            stat: ActorStat { pushes: bump(counted.stat.pushes), ..counted.stat },
                            ..counted
                        }
                    } else {
                        ActorModel {
                            buffer: self.buffer.push(item),
                            episodes_held: self.episodes_with(episode_end),
                            ..counted
                        }.after_items(stop)
                    }
                },
                ActorEvent::StepFailed => ActorModel {
                    phase: ActorPhase::Stopped,
                    failed: true,
                    ..self
                },
                ActorEvent::Sent => self.after_items(stop),
                ActorEvent::ChannelClosed => ActorModel { phase: ActorPhase::Stopped, ..self },
                ActorEvent::MailboxChecked { held } => match held {
                    Some(v) => if accepts_after(self.version, v) {
                        self
                    } else {
                        self.at_boundary(stop)
                    },
                    None => self.at_boundary(stop),
                },
                ActorEvent::Synced { version } => ActorModel {
                    version: if accepts_after(self.version, version) {
                        Some(version)
                    } else {
                        self.version
                    },
                    ..self
                }.at_boundary(stop),
            },
        }
    }

    /// The kind of action that the actor takes after `event`.
    pub open spec fn next_kind(self, event: ActorEvent<T>, stop: bool) -> ActionKind {
        let go_on = if stop {
            ActionKind::Halt
        } else {
            ActionKind::Step
        };
        match self.phase {
            ActorPhase::Stopped => ActionKind::Halt,
            ActorPhase::Idle => match event {
                ActorEvent::Start => go_on,
                _ => ActionKind::Wait,
            },
            ActorPhase::Running => match event {
                ActorEvent::Start => go_on,
                ActorEvent::Stepped { item, episode_end } => if self.push_trigger.due(
                    self.buffer.len() as int + 1,
                    self.episodes_with(episode_end) as int,
                ) {
                    ActionKind::Push
                } else {
                    self.count_step(episode_end).kind_after_items(stop)
                },
                ActorEvent::StepFailed => ActionKind::ReportFailure,
                ActorEvent::Sent => self.kind_after_items(stop),
                ActorEvent::ChannelClosed => ActionKind::Halt,
                ActorEvent::MailboxChecked { held } => match held {
                    Some(v) => if accepts_after(self.version, v) {
                        ActionKind::Sync
                    } else {
                        go_on
                    },
                    None => go_on,
                },
                ActorEvent::Synced { version } => go_on,
            },
        }
    }

    /// What the action carries: a push carries the actor's identity and the
    /// buffered items followed by the new one, in order; a sync carries the
    /// version that the mailbox holds.
    pub open spec fn carries(self, event: ActorEvent<T>, action: ActorAction<T>) -> bool {
        match action {
            ActorAction::Push(message) => match event {
                ActorEvent::Stepped { item, episode_end } => message.id == self.id
                    && message.pushed_items@ == self.buffer.push(item),
                _ => false,
            },
            ActorAction::Sync { version } => event == (ActorEvent::<T>::MailboxChecked {
                held: Some(version),
            }),
            _ => true,
        }
    }
}

/// An actor that has stopped stays stopped, whatever happens, and only leaves
/// its loop.
pub proof fn law_stopped_is_final<T>(m: ActorModel<T>, event: ActorEvent<T>, stop: bool)
    requires
        m.phase == ActorPhase::Stopped,
    ensures
        m.next(event, stop) == m,
        m.next_kind(event, stop) == ActionKind::Halt,
{
}

/// An actor never goes back: from idle it may run or stop, from running it
/// may stop, and it starts on a start only.
pub proof fn law_phases_only_advance<T>(m: ActorModel<T>, event: ActorEvent<T>, stop: bool)
    ensures
        m.phase == ActorPhase::Running ==> m.next(event, stop).phase != ActorPhase::Idle,
        m.phase == ActorPhase::Idle && !(event is Start) ==> m.next(event, stop).phase
            == ActorPhase::Idle,
        m.next(event, stop).id == m.id,
        m.next(event, stop).push_trigger == m.push_trigger,
        m.next(event, stop).sync_interval == m.sync_interval,
{
}

/// A failing environment stops the actor, which reports it; nothing else of
/// the actor changes.
pub proof fn law_failure_stops_the_actor<T>(m: ActorModel<T>, stop: bool)
    requires
        m.phase == ActorPhase::Running,
    ensures
        m.next(ActorEvent::StepFailed, stop).phase == ActorPhase::Stopped,
        m.next(ActorEvent::StepFailed, stop).failed,
        m.next(ActorEvent::StepFailed, stop).buffer == m.buffer,
        m.next(ActorEvent::StepFailed, stop).stat == m.stat,
        m.next_kind(ActorEvent::StepFailed, stop) == ActionKind::ReportFailure,
{
}

/// A sound actor stays sound, so it never holds as much as it pushes at: an
/// actor that pushes by steps holds fewer items than its trigger waits for,
/// whatever happens.
pub proof fn law_buffer_stays_bounded<T>(m: ActorModel<T>, event: ActorEvent<T>, stop: bool)
    requires
        m.wf(),
    ensures
        m.next(event, stop).wf(),
        m.push_trigger is Steps ==> m.next(event, stop).buffer.len() < m.push_trigger.count(),
{
}

/// No item is lost or reordered: what is pushed, followed by what stays
/// buffered, is what was buffered before, followed by the new item if there
/// is one.
pub proof fn law_items_keep_their_order<T>(
    m: ActorModel<T>,
    event: ActorEvent<T>,
    stop: bool,
    action: ActorAction<T>,
)
    requires
        m.wf(),
        action.kind() == m.next_kind(event, stop),
        m.carries(event, action),
    ensures
        ({
            let pushed = match action {
                ActorAction::Push(message) => message.pushed_items@,
                _ => Seq::empty(),
            };
            let arrived = match event {
                ActorEvent::Stepped { item, episode_end } => if m.phase == ActorPhase::Running {
                    seq![item]
                } else {
                    Seq::empty()
                },
                _ => Seq::empty(),
            };
            pushed + m.next(event, stop).buffer == m.buffer + arrived
        }),
{
    let after = m.next(event, stop).buffer;
    match action {
        ActorAction::Push(message) => {
            match event {
                ActorEvent::Stepped { item, episode_end } => {
                    assert(message.pushed_items@ + after =~= m.buffer + seq![item]);
                },
                _ => {},
            }
        },
        _ => {
            match event {
                ActorEvent::Stepped { item, episode_end } => {
                    if m.phase == ActorPhase::Running {
                        assert(Seq::<T>::empty() + after =~= m.buffer + seq![item]);
                    } else {
                        assert(Seq::<T>::empty() + after =~= m.buffer + Seq::<T>::empty());
                    }
                },
                _ => {
                    assert(Seq::<T>::empty() + after =~= m.buffer + Seq::<T>::empty());
                },
            }
        },
    }
}

/// The version that an actor runs on never falls, and an actor that runs on
/// a snapshot never goes back to none.
pub proof fn law_actor_version_never_falls<T>(m: ActorModel<T>, event: ActorEvent<T>, stop: bool)
    ensures
        match (m.version, m.next(event, stop).version) {
            (None, _) => true,
            (Some(_), None) => false,
            (Some(a), Some(b)) => a <= b,
        },
{
}

/// An actor is told to apply a snapshot only where it is newer than the one
/// it runs on.
pub proof fn law_sync_only_to_newer<T>(m: ActorModel<T>, event: ActorEvent<T>, stop: bool)
    requires
        m.next_kind(event, stop) == ActionKind::Sync,
    ensures
        event is MailboxChecked,
        event->held is Some,
        accepts_after(m.version, event->held.unwrap()),
{
}

/// One actor, with the items that it has generated and not pushed yet.
pub struct Actor<T> {
    id: usize,
    phase: ActorPhase,
    push_trigger: PushTrigger,
    sync_interval: u64,
    buffer: Vec<T>,
    episodes_held: u64,
    since_sync: u64,
    version: Option<usize>,
    stat: ActorStat,
    failed: bool,
}

impl<T> View for Actor<T> {
    type V = ActorModel<T>;

    closed spec fn view(&self) -> ActorModel<T> {
        ActorModel {
            id: self.id,
            phase: self.phase,
            push_trigger: self.push_trigger,
            sync_interval: self.sync_interval,
            buffer: self.buffer@,
            episodes_held: self.episodes_held,
            since_sync: self.since_sync,
            version: self.version,
            stat: self.stat,
            failed: self.failed,
        }
    }
}

/// Why the options of an actor are refused, if they are.
pub open spec fn actor_fault(push_trigger: PushTrigger, sync_interval: u64) -> Option<ConfigError> {
    if push_trigger.count() == 0 {
        Some(ConfigError::ZeroPushTrigger)
    } else if sync_interval == 0 {
        Some(ConfigError::ZeroInterval)
    } else {
        None
    }
}

impl<T> Actor<T> {
    /// An idle actor that pushes as `push_trigger` says and reads the mailbox
    /// every `sync_interval` steps. The trigger must wait for one step or
    /// episode or more, and the interval must be positive.
    pub fn new(id: usize, push_trigger: PushTrigger, sync_interval: u64) -> (r: Result<
        Actor<T>,
        ConfigError,
    >)
        ensures
            match r {
                Ok(a) => actor_fault(push_trigger, sync_interval) is None && a@.wf() && a@
                    == (ActorModel::<T> {
                    id,
                    phase: ActorPhase::Idle,
                    push_trigger,
                    sync_interval,
                    buffer: Seq::empty(),
                    episodes_held: 0,
                    since_sync: 0,
                    version: None,
                    stat: no_counts(),
                    failed: false,
                }),
                Err(e) => actor_fault(push_trigger, sync_interval) == Some(e),
            },
    {
        let waits_for_none: bool = match push_trigger {
            PushTrigger::Steps(n) => n == 0,
            PushTrigger::Episodes(n) => n == 0,
        };
        if waits_for_none {
            return Err(ConfigError::ZeroPushTrigger);
        }
        if sync_interval == 0 {
            return Err(ConfigError::ZeroInterval);
        }
        let a = Actor {
            id,
            phase: ActorPhase::Idle,
            push_trigger,
            sync_interval,
            buffer: Vec::new(),
            episodes_held: 0,
            since_sync: 0,
            version: None,
            stat: ActorStat { env_steps: 0, episodes: 0, pushes: 0 },
            failed: false,
        };
        assert(a@.buffer =~= Seq::<T>::empty());
        Ok(a)
    }

    /// The actor's identity.
    pub fn id(&self) -> (r: usize)
        ensures
            r == self@.id,
    {
        self.id
    }

    /// Where the actor stands in its life.
    pub fn phase(&self) -> (r: ActorPhase)
        ensures
            r == self@.phase,
    {
        self.phase
    }

    /// The actor's counters.
    pub fn stat(&self) -> (r: ActorStat)
        ensures
            r == self@.stat,
    {
        self.stat
    }

    /// Whether the environment failed.
    pub fn has_failed(&self) -> (r: bool)
        ensures
            r == self@.failed,
    {
        self.failed
    }

    /// The version of the snapshot that the policy runs on, if any.
    pub fn model_version(&self) -> (r: Option<usize>)
        ensures
            r == self@.version,
    {
        self.version
    }

    /// The number of items generated and not pushed yet.
    pub fn buffered(&self) -> (r: usize)
        ensures
            r == self@.buffer.len(),
    {
        self.buffer.len()
    }

    /// What to do at a step boundary.
    fn at_boundary(&mut self, stop: bool) -> (r: ActorAction<T>)
        ensures
            final(self)@ == old(self)@.at_boundary(stop),
            r.kind() == if stop {
                ActionKind::Halt
            } else {
                ActionKind::Step
            },
    {
        if stop {
            self.phase = ActorPhase::Stopped;
            ActorAction::Halt
        } else {
            ActorAction::Step
        }
    }

    /// What to do once the items are out of the actor's hands.
    fn after_items(&mut self, stop: bool) -> (r: ActorAction<T>)
        ensures
            final(self)@ == old(self)@.after_items(stop),
            r.kind() == old(self)@.kind_after_items(stop),
    {
        if self.since_sync >= self.sync_interval {
            self.since_sync = 0;
            ActorAction::CheckMailbox
        } else {
            self.at_boundary(stop)
        }
    }

    /// Takes in what happened and says what to do next. `stop` tells whether
    /// the actor was asked to stop; it is looked at between two steps only.
    pub fn on_event(&mut self, event: ActorEvent<T>, stop: bool) -> (r: ActorAction<T>)
        requires
            old(self)@.wf(),
        ensures
            final(self)@.wf(),
            final(self)@ == old(self)@.next(event, stop),
            r.kind() == old(self)@.next_kind(event, stop),
            old(self)@.carries(event, r),
    {
        match self.phase {
            ActorPhase::Stopped => ActorAction::Halt,
            ActorPhase::Idle => match event {
                ActorEvent::Start => {
                    self.phase = ActorPhase::Running;
                    self.at_boundary(stop)
                },
                _ => ActorAction::Wait,
            },
            ActorPhase::Running => match event {
                ActorEvent::Start => self.at_boundary(stop),
                ActorEvent::Stepped { item, episode_end } => {
                    self.since_sync = bumped(self.since_sync);
                    self.stat.env_steps = bumped(self.stat.env_steps);
                    if episode_end {
                        self.stat.episodes = bumped(self.stat.episodes);
                        self.episodes_held = bumped(self.episodes_held);
                    }
                    self.buffer.push(item);
                    let due: bool = match self.push_trigger {
                        PushTrigger::Steps(n) => self.buffer.len() >= n,
                        PushTrigger::Episodes(n) => self.episodes_held >= n,
                    };
                    if due {
                        let mut pushed_items: Vec<T> = Vec::new();
                        std::mem::swap(&mut pushed_items, &mut self.buffer);
                        self.episodes_held = 0;
                        self.stat.pushes = bumped(self.stat.pushes);
                        ActorAction::Push(PushedItemMessage { id: self.id, pushed_items })
                    } else {
                        self.after_items(stop)
                    }
                },
                ActorEvent::StepFailed => {
                    self.phase = ActorPhase::Stopped;
                    self.failed = true;
                    ActorAction::ReportFailure
                },
                ActorEvent::Sent => self.after_items(stop),
                ActorEvent::ChannelClosed => {
                    self.phase = ActorPhase::Stopped;
                    ActorAction::Halt
                },
                ActorEvent::MailboxChecked { held } => {
                    let fresh: Option<usize> = match held {
                        Some(v) => match self.version {
                            None => Some(v),
                            Some(seen) => if v > seen {
                                Some(v)
                            } else {
                                None
                            },
                        },
                        None => None,
                    };
                    match fresh {
                        Some(v) => ActorAction::Sync { version: v },
                        None => self.at_boundary(stop),
                    }
                },
                ActorEvent::Synced { version } => {
                    let fresh: bool = match self.version {
                        None => true,
                        Some(seen) => version > seen,
                    };
                    if fresh {
                        self.version = Some(version);
                    }
                    self.at_boundary(stop)
                },
            },
        }
    }
}

} // verus!
