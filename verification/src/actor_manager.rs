//! The rules of the actor manager: the guard on starting and stopping the
//! pool, the ingestion of the actors' messages into the replay store, the
//! counters of each actor, and the mailbox of model snapshots.

use vstd::prelude::*;
use crate::actor::{bump, bumped, no_counts, raise, ActorStat};
use crate::config::ActorManagerConfig;
use crate::error::{ConfigError, ReplayError};
use crate::mailbox::{accepts, publish, Mailbox, ModelSnapshot};
use crate::messages::PushedItemMessage;
use crate::replay::PrioritizedReplayStore;

verus! {

/// Where the pool stands in its life.
#[derive(Clone, Copy, Debug, PartialEq, Eq, Structural)]
pub enum PoolPhase {
    /// Built; no actor runs yet.
    Created,
    /// The actors run.
    Started,
    /// The actors were told to stop and joined.
    Stopped,
}

/// The phase after a call to start: a pool that was just built starts, any
/// other stays as it is.
pub open spec fn after_start(phase: PoolPhase) -> PoolPhase {
    if phase == PoolPhase::Created {
        PoolPhase::Started
    } else {
        phase
    }
}

/// What an actor manager holds, as mathematics.
pub struct ManagerModel<P> {
    /// Where the pool stands in its life.
    pub phase: PoolPhase,
    /// The counters of each actor, by the actor's identity.
    pub stats: Seq<ActorStat>,
    /// What the mailbox holds.
    pub mailbox: Option<ModelSnapshot<P>>,
}

/// The counters of an actor after one message of `items` items came in.
pub open spec fn after_message(stat: ActorStat, items: int) -> ActorStat {
    ActorStat {
        env_steps: raise(stat.env_steps, items),
        episodes: stat.episodes,
        pushes: bump(stat.pushes),
    }
}

/// The sum of the environment steps of the first `n` actors.
pub open spec fn steps_of(stats: Seq<ActorStat>, n: int) -> int
    decreases n,
{
    if n <= 0 {
        0
    } else {
        steps_of(stats, n - 1) + stats[n - 1].env_steps
    }
}

/// The sum of the episodes of the first `n` actors.
pub open spec fn episodes_of(stats: Seq<ActorStat>, n: int) -> int
    decreases n,
{
    if n <= 0 {
        0
    } else {
        episodes_of(stats, n - 1) + stats[n - 1].episodes
    }
}

/// The sum of the pushes of the first `n` actors.
pub open spec fn pushes_of(stats: Seq<ActorStat>, n: int) -> int
    decreases n,
{
    if n <= 0 {
        0
    } else {
        pushes_of(stats, n - 1) + stats[n - 1].pushes
    }
}

/// A sum as a counter: itself, or the largest `u64` where it exceeds that.
pub open spec fn capped(sum: int) -> u64 {
    if sum <= u64::MAX {
        sum as u64
    } else {
        u64::MAX
    }
}

/// The sums are never negative.
proof fn lemma_sums_nonneg(stats: Seq<ActorStat>, n: int)
    ensures
        steps_of(stats, n) >= 0,
        episodes_of(stats, n) >= 0,
        pushes_of(stats, n) >= 0,
    decreases n,
{
    if n > 0 {
        lemma_sums_nonneg(stats, n - 1);
    }
}

/// Adds `y` to the running sum `x`, which stands for `sum`, capped.
fn add_capped(x: u64, y: u64, Ghost(sum): Ghost<int>) -> (r: u64)
    requires
        sum >= 0,
        x == capped(sum),
    ensures
        r == capped(sum + y),
{
    if y > u64::MAX - x {
        u64::MAX
    } else {
        x + y
    }
}

/// The manager of a pool of actors.
pub struct ActorManager<P> {
    config: ActorManagerConfig,
    phase: PoolPhase,
    stats: Vec<ActorStat>,
    mailbox: Mailbox<P>,
}

impl<P> View for ActorManager<P> {
    type V = ManagerModel<P>;

    closed spec fn view(&self) -> ManagerModel<P> {
        ManagerModel { phase: self.phase, stats: self.stats@, mailbox: self.mailbox@ }
    }
}

impl<P> ActorManager<P> {
    /// The options that the manager was built from.
    pub closed spec fn spec_config(&self) -> ActorManagerConfig {
        self.config
    }

    /// The manager is sound: its options passed the check, and it keeps
    /// counters for each of its actors.
    pub open spec fn wf(&self) -> bool {
        &&& self.spec_config().fault() is None
        &&& self@.stats.len() == self.spec_config().num_actors
    }

    /// The manager of a pool that has not started, with counters at zero and
    /// an empty mailbox.
    pub fn new(config: ActorManagerConfig) -> (r: Result<ActorManager<P>, ConfigError>)
        ensures
            match r {
                Ok(m) => {
                    &&& config.fault() is None
                    &&& m.wf()
                    &&& m.spec_config() == config
                    &&& m@.phase == PoolPhase::Created
                    &&& m@.mailbox is None
                    &&& m@.stats == Seq::new(
                        config.num_actors as nat,
                        |i: int| no_counts(),
                    )
                },
                Err(e) => config.fault() == Some(e),
            },
    {
        match config.validate() {
            Err(e) => {
                return Err(e);
            },
            Ok(_) => {},
        }
        let mut stats: Vec<ActorStat> = Vec::new();
        let mut i: usize = 0;
        while i < config.num_actors
            invariant
                0 <= i <= config.num_actors,
                stats@.len() == i,
                forall|j: int|
                    0 <= j < i ==> #[trigger] stats@[j] == no_counts(),
            decreases config.num_actors - i,
        {
            stats.push(ActorStat { env_steps: 0, episodes: 0, pushes: 0 });
            i = i + 1;
        }
        let m = ActorManager { config, phase: PoolPhase::Created, stats, mailbox: Mailbox::new() };
        assert(m@.stats =~= Seq::new(
            config.num_actors as nat,
            |i: int| no_counts(),
        ));
        Ok(m)
    }

    /// The options that the manager was built from.
    pub fn config(&self) -> (r: ActorManagerConfig)
        ensures
            r == self.spec_config(),
    {
        self.config
    }

    /// Where the pool stands in its life.
    pub fn phase(&self) -> (r: PoolPhase)
        ensures
            r == self@.phase,
    {
        self.phase
    }

    /// Starts the pool, once: tells whether the caller is to spawn the actors
    /// now. A pool that has started or stopped stays as it is.
    pub fn start(&mut self) -> (r: bool)
        ensures
            r == (old(self)@.phase == PoolPhase::Created),
            final(self)@.phase == after_start(old(self)@.phase),
            final(self)@.stats == old(self)@.stats,
            final(self)@.mailbox == old(self)@.mailbox,
            final(self).spec_config() == old(self).spec_config(),
    {
        match self.phase {
            PoolPhase::Created => {
                self.phase = PoolPhase::Started;
                true
            },
            _ => false,
        }
    }

    /// Stops the pool, once: tells whether the caller is to signal the actors,
    /// join them and drain the channel now. A pool that has stopped stays
    /// stopped; one that never started has nothing to join.
    pub fn stop(&mut self) -> (r: bool)
        ensures
            r == (old(self)@.phase == PoolPhase::Started),
            final(self)@.phase == PoolPhase::Stopped,
            final(self)@.stats == old(self)@.stats,
            final(self)@.mailbox == old(self)@.mailbox,
            final(self).spec_config() == old(self).spec_config(),
    {
        let joined: bool = match self.phase {
            PoolPhase::Started => true,
            _ => false,
        };
        self.phase = PoolPhase::Stopped;
        joined
    }

    /// Takes one message in: its items go into the store, in order, and the
    /// counters of the actor that sent it go up by one push and by as many
    /// steps as it has items. A message from an actor that the pool does not
    /// have is refused, and nothing changes.
    pub fn ingest<T>(
        &mut self,
        store: &mut PrioritizedReplayStore<T>,
        message: PushedItemMessage<T>,
    ) -> (r: Result<(), ReplayError>)
        requires
            old(self).wf(),
            old(store).wf(),
        ensures
            final(self).wf(),
            final(store).wf(),
            final(self).spec_config() == old(self).spec_config(),
            final(self)@.phase == old(self)@.phase,
            final(self)@.mailbox == old(self)@.mailbox,
            final(store).spec_scheduler() == old(store).spec_scheduler(),
            final(store).spec_normalizer() == old(store).spec_normalizer(),
            final(store).spec_alpha() == old(store).spec_alpha(),
            final(store).spec_batch_size() == old(store).spec_batch_size(),
            match r {
                Ok(_) => {
                    &&& message.id < old(self)@.stats.len()
                    &&& final(store)@ == old(store)@.push_all(message.pushed_items@)
                    &&& final(self)@.stats == old(self)@.stats.update(
                        message.id as int,
                        after_message(
                            old(self)@.stats[message.id as int],
                            message.pushed_items@.len() as int,
                        ),
                    )
                },
                Err(e) => {
                    &&& message.id >= old(self)@.stats.len()
                    &&& e == ReplayError::UnknownActor
                    &&& final(store)@ == old(store)@
                    &&& final(self)@.stats == old(self)@.stats
                },
            },
    {
        let id: usize = message.id;
        if id >= self.stats.len() {
            return Err(ReplayError::UnknownActor);
        }
        let count: usize = message.pushed_items.len();
        store.insert(message.pushed_items);
        let before: ActorStat = self.stats[id];
        let env_steps: u64 = if count as u64 > u64::MAX - before.env_steps {
            u64::MAX
        } else {
            before.env_steps + count as u64
        };
        self.stats[id] = ActorStat {
            env_steps,
            episodes: before.episodes,
            pushes: bumped(before.pushes),
        };
        Ok(())
    }

    /// Takes the final counters of an actor that has stopped; they replace
    /// what the manager counted for it. Tells whether the pool has such an
    /// actor.
    pub fn record(&mut self, id: usize, stat: ActorStat) -> (r: bool)
        requires
            old(self).wf(),
        ensures
            final(self).wf(),
            final(self).spec_config() == old(self).spec_config(),
            final(self)@.phase == old(self)@.phase,
            final(self)@.mailbox == old(self)@.mailbox,
            r == (id < old(self)@.stats.len()),
            final(self)@.stats == if r {
                old(self)@.stats.update(id as int, stat)
            } else {
                old(self)@.stats
            },
    {
        if id < self.stats.len() {
            self.stats[id] = stat;
            true
        } else {
            false
        }
    }

    /// The counters of actor `id`, if the pool has such an actor.
    pub fn stat(&self, id: usize) -> (r: Option<ActorStat>)
        ensures
            r == if id < self@.stats.len() {
                Some(self@.stats[id as int])
            } else {
                None
            },
    {
        if id < self.stats.len() {
            Some(self.stats[id])
        } else {
            None
        }
    }

    /// The counters of all actors together: each is the sum over the actors,
    /// or the largest `u64` where the sum exceeds it.
    pub fn total_stat(&self) -> (r: ActorStat)
        ensures
            r.env_steps == capped(steps_of(self@.stats, self@.stats.len() as int)),
            r.episodes == capped(episodes_of(self@.stats, self@.stats.len() as int)),
            r.pushes == capped(pushes_of(self@.stats, self@.stats.len() as int)),
    {
        let mut env_steps: u64 = 0;
        let mut episodes: u64 = 0;
        let mut pushes: u64 = 0;
        let mut i: usize = 0;
        while i < self.stats.len()
            invariant
                0 <= i <= self.stats@.len(),
                env_steps == capped(steps_of(self.stats@, i as int)),
                episodes == capped(episodes_of(self.stats@, i as int)),
                pushes == capped(pushes_of(self.stats@, i as int)),
            decreases self.stats@.len() - i,
        {
            proof {
                lemma_sums_nonneg(self.stats@, i as int);
            }
            let s: ActorStat = self.stats[i];
            env_steps = add_capped(env_steps, s.env_steps, Ghost(steps_of(self.stats@, i as int)));
            episodes = add_capped(episodes, s.episodes, Ghost(episodes_of(self.stats@, i as int)));
            pushes = add_capped(pushes, s.pushes, Ghost(pushes_of(self.stats@, i as int)));
            i = i + 1;
        }
        ActorStat { env_steps, episodes, pushes }
    }

    /// Sets the counters of every actor back to zero.
    pub fn reset_stats(&mut self)
        requires
            old(self).wf(),
        ensures
            final(self).wf(),
            final(self).spec_config() == old(self).spec_config(),
            final(self)@.phase == old(self)@.phase,
            final(self)@.mailbox == old(self)@.mailbox,
            final(self)@.stats == Seq::new(
                old(self)@.stats.len(),
                |i: int| no_counts(),
            ),
    {
        let n: usize = self.stats.len();
        let mut i: usize = 0;
        while i < n
            invariant
                0 <= i <= n,
                n == self.stats@.len(),
                n == old(self).stats@.len(),
                self.config == old(self).config,
                self.phase == old(self).phase,
                self.mailbox == old(self).mailbox,
                forall|j: int|
                    0 <= j < i ==> #[trigger] self.stats@[j] == no_counts(),
            decreases n - i,
        {
            self.stats[i] = ActorStat { env_steps: 0, episodes: 0, pushes: 0 };
            i = i + 1;
        }
        assert(self@.stats =~= Seq::new(
            old(self)@.stats.len(),
            |i: int| no_counts(),
        ));
    }

    /// Offers a model snapshot to the actors. It replaces what the mailbox
    /// holds where its version is strictly higher, or the mailbox is empty;
    /// else nothing changes. Tells whether the snapshot was accepted.
    pub fn broadcast(&mut self, snapshot: ModelSnapshot<P>) -> (r: bool)
        ensures
            r == accepts(old(self)@.mailbox, snapshot.version),
            final(self)@.mailbox == publish(old(self)@.mailbox, snapshot),
            final(self)@.phase == old(self)@.phase,
            final(self)@.stats == old(self)@.stats,
            final(self).spec_config() == old(self).spec_config(),
    {
        self.mailbox.broadcast(snapshot)
    }

    /// The mailbox, for the actors to read.
    pub fn mailbox(&self) -> (r: &Mailbox<P>)
        ensures
            r@ == self@.mailbox,
    {
        &self.mailbox
    }
}

/// Starting is guarded: a second start changes nothing, and a pool that has
/// stopped does not start again.
pub proof fn law_start_is_idempotent(phase: PoolPhase)
    ensures
        after_start(after_start(phase)) == after_start(phase),
        after_start(phase) != PoolPhase::Created,
        after_start(PoolPhase::Stopped) == PoolPhase::Stopped,
{
}

} // verus!
