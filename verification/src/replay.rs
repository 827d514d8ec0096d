//! The prioritized replay store: a ring of slots that holds the stored items,
//! beside a sum tree that holds one priority for each slot.

use vstd::prelude::*;
use crate::base::ReplayBuffer;
use crate::config::{ReplayBufferConfig, WeightNormalizer};
use crate::error::{ConfigError, ReplayError};
use crate::iw_scheduler::{IwScheduler, EXPONENT_ONE};
use crate::layout::is_pow2;
use crate::stratify::{point_in_segment, stratified_point};
use crate::sum_tree::{
    lemma_selects_share, selects, SumTree, MAX_CAPACITY, PRIORITY_ONE,
};
use crate::sums::{is_min_of, total_of};

verus! {

/// What a replay store holds, as mathematics.
pub struct StoreModel<T> {
    /// The number of slots.
    pub capacity: nat,
    /// The stored items, in slot order. Slots fill from the first on.
    pub items: Seq<T>,
    /// The priority of every slot; zero for a slot that holds nothing yet.
    pub priorities: Seq<u64>,
    /// The slot that the next item goes to.
    pub cursor: nat,
    /// The largest priority seen so far; one at the start.
    pub max_priority: u64,
    /// Whether priorities follow the learner's errors. Where they do not,
    /// every stored item keeps the priority one.
    pub prioritized: bool,
}

impl<T> StoreModel<T> {
    /// The store is sound.
    pub open spec fn wf(self) -> bool {
        &&& is_pow2(self.capacity as int)
        &&& self.capacity <= MAX_CAPACITY
        &&& self.priorities.len() == self.capacity
        &&& self.items.len() <= self.capacity
        &&& self.cursor < self.capacity
        &&& self.items.len() < self.capacity ==> self.cursor == self.items.len()
        &&& PRIORITY_ONE <= self.max_priority
        &&& forall|i: int| 0 <= i < self.capacity ==> #[trigger] self.priorities[i] <= self.max_priority
        &&& forall|i: int|
            self.items.len() <= i < self.capacity ==> #[trigger] self.priorities[i] == 0
        &&& !self.prioritized ==> self.max_priority == PRIORITY_ONE
        &&& !self.prioritized ==> forall|i: int|
            0 <= i < self.items.len() ==> #[trigger] self.priorities[i] == PRIORITY_ONE
    }

    /// The store with no item in it.
    pub open spec fn empty(capacity: nat, prioritized: bool) -> StoreModel<T> {
        StoreModel {
            capacity,
            items: Seq::empty(),
            priorities: Seq::new(capacity, |i: int| 0u64),
            cursor: 0,
            max_priority: PRIORITY_ONE,
            prioritized,
        }
    }

    /// The store after one more item: it goes to the slot under the cursor,
    /// which gets the largest priority seen so far, and the cursor moves on,
    /// back to the first slot after the last.
    pub open spec fn push(self, x: T) -> StoreModel<T> {
        StoreModel {
            items: if self.items.len() < self.capacity {
                self.items.push(x)
            } else {
                self.items.update(self.cursor as int, x)
            },
            priorities: self.priorities.update(self.cursor as int, self.max_priority),
            cursor: if self.cursor + 1 == self.capacity {
                0
            } else {
                self.cursor + 1
            },
            ..self
        }
    }

    /// The store after the items of `xs`, one after the other.
    pub open spec fn push_all(self, xs: Seq<T>) -> StoreModel<T>
        decreases xs.len(),
    {
        if xs.len() == 0 {
            self
        } else {
            self.push_all(xs.drop_last()).push(xs.last())
        }
    }

    /// The store after slot `index` got the priority `priority`.
    pub open spec fn reprioritize(self, index: int, priority: u64) -> StoreModel<T> {
        StoreModel {
            priorities: self.priorities.update(index, priority),
            max_priority: if priority > self.max_priority {
                priority
            } else {
                self.max_priority
            },
            ..self
        }
    }

    /// The store after the slots of `indices` got the priorities of
    /// `priorities`, pair by pair in order; of two updates of one slot the
    /// later one stands.
    pub open spec fn reprioritize_all(self, indices: Seq<usize>, priorities: Seq<u64>) -> StoreModel<T>
        decreases indices.len(),
    {
        if indices.len() == 0 {
            self
        } else {
            self.reprioritize_all(indices.drop_last(), priorities.drop_last()).reprioritize(
                indices.last() as int,
                priorities.last(),
            )
        }
    }
}

/// One more item leaves a sound store sound.
pub proof fn lemma_push_keeps_wf<T>(m: StoreModel<T>, x: T)
    requires
        m.wf(),
    ensures
        m.push(x).wf(),
        m.push(x).items.len() == if m.items.len() < m.capacity {
            m.items.len() + 1
        } else {
            m.items.len()
        },
{
    let n = m.push(x);
    assert forall|i: int| n.items.len() <= i < n.capacity implies #[trigger] n.priorities[i] == 0 by {
        assert(m.priorities[i] == 0);
    }
    assert forall|i: int| 0 <= i < n.capacity implies #[trigger] n.priorities[i] <= n.max_priority by {
        assert(m.priorities[i] <= m.max_priority);
    }
    if !m.prioritized {
        assert forall|i: int| 0 <= i < n.items.len() implies #[trigger] n.priorities[i]
            == PRIORITY_ONE by {
            if i != m.cursor {
                assert(m.priorities[i] == PRIORITY_ONE);
            }
        }
    }
}

/// Any number of items leave a sound store sound.
pub proof fn lemma_push_all_keeps_wf<T>(m: StoreModel<T>, xs: Seq<T>)
    requires
        m.wf(),
    ensures
        m.push_all(xs).wf(),
        m.push_all(xs).capacity == m.capacity,
        m.push_all(xs).max_priority == m.max_priority,
        m.push_all(xs).prioritized == m.prioritized,
    decreases xs.len(),
{
    if xs.len() > 0 {
        lemma_push_all_keeps_wf(m, xs.drop_last());
        lemma_push_keeps_wf(m.push_all(xs.drop_last()), xs.last());
    }
}

/// The state that prioritized sampling adds to a store.
struct PriorityState {
    alpha: u64,
    normalizer: WeightNormalizer,
    scheduler: IwScheduler,
}

/// A replay store of fixed capacity over items of type `T`.
pub struct PrioritizedReplayStore<T> {
    items: Vec<T>,
    cursor: usize,
    tree: SumTree,
    max_priority: u64,
    batch_size: usize,
    priority: Option<PriorityState>,
}

impl<T> View for PrioritizedReplayStore<T> {
    type V = StoreModel<T>;

    closed spec fn view(&self) -> StoreModel<T> {
        StoreModel {
            capacity: self.tree@.len(),
            items: self.items@,
            priorities: self.tree@,
            cursor: self.cursor as nat,
            max_priority: self.max_priority,
            prioritized: self.priority is Some,
        }
    }
}

impl<T> PrioritizedReplayStore<T> {
    /// What the representation owes beyond the model: a sound tree.
    pub closed spec fn inv(&self) -> bool {
        self.tree.wf()
    }

    /// The store is sound: the ring and the priorities fit together, a batch
    /// has an item or more, and a store that samples by priority has a sound
    /// schedule and an exponent of at most one, while one that samples
    /// uniformly has no schedule.
    pub open spec fn wf(&self) -> bool {
        &&& self.inv()
        &&& self@.wf()
        &&& self.spec_batch_size() > 0
        &&& self.spec_alpha() <= EXPONENT_ONE
        &&& self@.prioritized <==> self.spec_scheduler() is Some
        &&& match self.spec_scheduler() {
            Some(s) => s.wf(),
            None => self.spec_normalizer() == WeightNormalizer::All && self.spec_alpha()
                == EXPONENT_ONE,
        }
    }

    /// The schedule of the importance-weight exponent, where sampling is
    /// prioritized.
    pub closed spec fn spec_scheduler(&self) -> Option<IwScheduler> {
        match self.priority {
            Some(p) => Some(p.scheduler),
            None => None,
        }
    }

    /// How the importance weights are normalized; by the whole store where
    /// sampling is uniform.
    pub closed spec fn spec_normalizer(&self) -> WeightNormalizer {
        match self.priority {
            Some(p) => p.normalizer,
            None => WeightNormalizer::All,
        }
    }

    /// The exponent that turns an error into a priority; one where sampling
    /// is uniform.
    pub closed spec fn spec_alpha(&self) -> u64 {
        match self.priority {
            Some(p) => p.alpha,
            None => EXPONENT_ONE,
        }
    }

    /// The number of items drawn at a time.
    pub closed spec fn spec_batch_size(&self) -> usize {
        self.batch_size
    }

    /// The importance-weight exponent of the current step; zero where sampling
    /// is uniform, so that every weight is one.
    pub open spec fn spec_beta(&self) -> int {
        match self.spec_scheduler() {
            Some(s) => s.spec_beta(),
            None => 0,
        }
    }

    /// An empty store built from checked options.
    pub fn new(config: &ReplayBufferConfig) -> (r: Result<PrioritizedReplayStore<T>, ConfigError>)
        ensures
            match r {
                Ok(s) => {
                    &&& config.fault() is None
                    &&& s.wf()
                    &&& s@ == StoreModel::<T>::empty(
                        config.capacity as nat,
                        config.priority_config is Some,
                    )
                    &&& s.spec_batch_size() == config.batch_size
                    &&& match config.priority_config {
                        Some(p) => {
                            &&& s.spec_alpha() == p.alpha
                            &&& s.spec_normalizer() == p.normalizer
                            &&& s.spec_scheduler() is Some
                            &&& s.spec_scheduler().unwrap().spec_beta0() == p.beta0
                            &&& s.spec_scheduler().unwrap().spec_anneal_steps() == p.anneal_steps
                            &&& s.spec_scheduler().unwrap().spec_step() == 0
                        },
                        None => s.spec_scheduler() is None,
                    }
                },
                Err(e) => config.fault() == Some(e),
            },
    {
        match config.validate() {
            Err(e) => {
                return Err(e);
            },
            Ok(_) => {},
        }
        let tree = match SumTree::new(config.capacity) {
            Ok(t) => t,
            Err(e) => {
                return Err(e);
            },
        };
        let priority = match &config.priority_config {
            Some(p) => {
                match IwScheduler::new(p.beta0, p.anneal_steps) {
                    Ok(scheduler) => Some(
                        PriorityState { alpha: p.alpha, normalizer: p.normalizer, scheduler },
                    ),
                    Err(e) => {
                        return Err(e);
                    },
                }
            },
            None => None,
        };
        let s = PrioritizedReplayStore {
            items: Vec::new(),
            cursor: 0,
            tree,
            max_priority: PRIORITY_ONE,
            batch_size: config.batch_size,
            priority,
        };
        proof {
            assert(s@.items =~= Seq::<T>::empty());
            assert(s@ == StoreModel::<T>::empty(
                config.capacity as nat,
                config.priority_config is Some,
            ));
        }
        Ok(s)
    }

    /// The number of slots.
    pub fn capacity(&self) -> (r: usize)
        requires
            self.wf(),
        ensures
            r == self@.capacity,
    {
        self.tree.capacity()
    }

    /// The number of stored items.
    pub fn len(&self) -> (r: usize)
        ensures
            r == self@.items.len(),
    {
        self.items.len()
    }

    /// Whether the store holds no item.
    pub fn is_empty(&self) -> (r: bool)
        ensures
            r == (self@.items.len() == 0),
    {
        self.items.len() == 0
    }

    /// The number of items drawn at a time.
    pub fn batch_size(&self) -> (r: usize)
        ensures
            r == self.spec_batch_size(),
    {
        self.batch_size
    }

    /// The item in slot `index`, if the slot holds one.
    pub fn get(&self, index: usize) -> (r: Option<&T>)
        ensures
            match r {
                Some(x) => index < self@.items.len() && *x == self@.items[index as int],
                None => index >= self@.items.len(),
            },
    {
        if index < self.items.len() {
            Some(&self.items[index])
        } else {
            None
        }
    }

    /// The priority of slot `index`, if there is such a slot.
    pub fn priority(&self, index: usize) -> (r: Option<u64>)
        requires
            self.wf(),
        ensures
            r == if index < self@.capacity {
                Some(self@.priorities[index as int])
            } else {
                None
            },
    {
        self.tree.get(index)
    }

    /// The largest priority seen so far, which the next stored item gets.
    pub fn max_priority(&self) -> (r: u64)
        ensures
            r == self@.max_priority,
    {
        self.max_priority
    }

    /// The total priority mass of the store.
    pub fn total_priority(&self) -> (r: u128)
        requires
            self.wf(),
        ensures
            r == crate::sums::total_of(self@.priorities),
    {
        self.tree.total()
    }

    /// Whether priorities follow the learner's errors.
    pub fn is_prioritized(&self) -> (r: bool)
        ensures
            r == self@.prioritized,
    {
        self.priority.is_some()
    }

    /// Stores one item in the slot under the cursor.
    pub fn push(&mut self, item: T)
        requires
            old(self).wf(),
        ensures
            final(self).wf(),
            final(self)@ == old(self)@.push(item),
            final(self).spec_scheduler() == old(self).spec_scheduler(),
            final(self).spec_normalizer() == old(self).spec_normalizer(),
            final(self).spec_alpha() == old(self).spec_alpha(),
            final(self).spec_batch_size() == old(self).spec_batch_size(),
    {
        let cap: usize = self.tree.capacity();
        let at: usize = self.cursor;
        if self.items.len() < cap {
            self.items.push(item);
        } else {
            self.items[at] = item;
        }
        let set = self.tree.set(at, self.max_priority);
        assert(set is Ok);
        self.cursor = if at + 1 == cap {
            0
        } else {
            at + 1
        };
        proof {
            lemma_push_keeps_wf(old(self)@, item);
            assert(self@.items =~= old(self)@.push(item).items);
        }
    }

    /// Stores the items of `items`, one after the other, each in the slot under
    /// the cursor. Once every slot is taken, each item overwrites the oldest.
    pub fn insert(&mut self, items: Vec<T>)
        requires
            old(self).wf(),
        ensures
            final(self).wf(),
            final(self)@ == old(self)@.push_all(items@),
            final(self).spec_scheduler() == old(self).spec_scheduler(),
            final(self).spec_normalizer() == old(self).spec_normalizer(),
            final(self).spec_alpha() == old(self).spec_alpha(),
            final(self).spec_batch_size() == old(self).spec_batch_size(),
    {
        let ghost all: Seq<T> = items@;
        for x in it: items.into_iter()
            invariant
                it.seq() == all,
                self.wf(),
                self@ == old(self)@.push_all(all.take(it.index() as int)),
                self.spec_scheduler() == old(self).spec_scheduler(),
                self.spec_normalizer() == old(self).spec_normalizer(),
                self.spec_alpha() == old(self).spec_alpha(),
                self.spec_batch_size() == old(self).spec_batch_size(),
        {
            proof {
                let done: int = it.index() as int;
                assert(all.take(done + 1).drop_last() =~= all.take(done));
                assert(all.take(done + 1).last() == x);
            }
            self.push(x);
        }
        proof {
            assert(all.take(all.len() as int) =~= all);
        }
    }
}

/// A new priority for a stored item leaves a sound prioritized store sound.
pub proof fn lemma_reprioritize_keeps_wf<T>(m: StoreModel<T>, index: int, priority: u64)
    requires
        m.wf(),
        m.prioritized,
        0 <= index < m.items.len(),
    ensures
        m.reprioritize(index, priority).wf(),
{
    let n = m.reprioritize(index, priority);
    assert forall|i: int| 0 <= i < n.capacity implies #[trigger] n.priorities[i] <= n.max_priority by {
        assert(m.priorities[i] <= m.max_priority);
    }
    assert forall|i: int| n.items.len() <= i < n.capacity implies #[trigger] n.priorities[i] == 0 by {
        assert(m.priorities[i] == 0);
    }
}

/// Why a list of priority updates is refused, if it is: the two lists must pair
/// up, and every index must name a stored item.
pub open spec fn update_fault(stored: nat, indices: Seq<usize>, priorities: Seq<u64>) -> Option<
    ReplayError,
> {
    if indices.len() != priorities.len() {
        Some(ReplayError::LengthMismatch)
    } else if exists|i: int| 0 <= i < indices.len() && #[trigger] indices[i] >= stored {
        Some(ReplayError::IndexOutOfRange)
    } else {
        None
    }
}

/// A batch drawn from a store. The importance weight of entry `i`, divided by
/// the largest weight as the store's normalizer says, is the quotient of
/// `floor` by `priorities[i]`, raised to the power `beta`.
#[derive(Clone, Debug)]
pub struct SampleBatch<T> {
    /// Copies of the drawn items.
    pub items: Vec<T>,
    /// The slot of each drawn item.
    pub indices: Vec<usize>,
    /// The priority of each drawn item.
    pub priorities: Vec<u64>,
    /// The least priority that the weights are normalized by.
    pub floor: u64,
    /// The total priority mass of the store at the draw.
    pub total: u128,
    /// The number of items that the store held at the draw.
    pub stored: usize,
    /// The importance-weight exponent at the draw.
    pub beta: u64,
}

impl<T: Clone> PrioritizedReplayStore<T> {
    /// `batch` is what the raw draws `draws` yield on this store: entry `i` is
    /// the stored item that the point of draw `i` in segment `i` falls on,
    /// with its slot and its priority; the floor is the least priority of the
    /// stored items or of the batch, as the normalizer says.
    pub open spec fn drawn(&self, draws: Seq<u64>, batch: SampleBatch<T>) -> bool {
        let m = self@;
        let total = total_of(m.priorities);
        &&& batch.items@.len() == draws.len()
        &&& batch.indices@.len() == draws.len()
        &&& batch.priorities@.len() == draws.len()
        &&& batch.total == total
        &&& batch.stored == m.items.len()
        &&& batch.beta == self.spec_beta()
        &&& forall|i: int|
            0 <= i < draws.len() ==> {
                &&& (#[trigger] batch.indices@[i]) < m.items.len()
                &&& selects(
                    m.priorities,
                    stratified_point(total, draws.len() as int, i, draws[i] as int),
                    batch.indices@[i] as int,
                )
                &&& cloned(m.items[batch.indices@[i] as int], batch.items@[i])
                &&& batch.priorities@[i] == m.priorities[batch.indices@[i] as int]
            }
        &&& match self.spec_normalizer() {
            WeightNormalizer::All => is_min_of(
                batch.floor,
                m.priorities.take(m.items.len() as int),
            ),
            WeightNormalizer::Batch => is_min_of(batch.floor, batch.priorities@),
        }
    }

    /// Draws one item for each raw draw of `draws`, by stratified sampling over
    /// the priority mass. The draws are any numbers; uniform ones make the
    /// sampling uniform within each segment. Nothing is drawn from an empty
    /// store, nor for an empty list of draws.
    pub fn sample(&self, draws: &Vec<u64>) -> (r: Result<SampleBatch<T>, ReplayError>)
        requires
            self.wf(),
        ensures
            match r {
                Ok(batch) => draws@.len() > 0 && self@.items.len() > 0 && self.drawn(
                    draws@,
                    batch,
                ),
                Err(e) => if draws@.len() == 0 {
                    e == ReplayError::EmptyBatch
                } else {
                    self@.items.len() == 0 && e == ReplayError::BufferUnderfull
                },
            },
    {
        let n: usize = draws.len();
        if n == 0 {
            return Err(ReplayError::EmptyBatch);
        }
        let stored: usize = self.items.len();
        if stored == 0 {
            return Err(ReplayError::BufferUnderfull);
        }
        let total: u128 = self.tree.total();
        let mut items: Vec<T> = Vec::new();
        let mut indices: Vec<usize> = Vec::new();
        let mut priorities: Vec<u64> = Vec::new();
        let mut least: u64 = 0;
        let ghost mut least_at: int = 0;
        let mut i: usize = 0;
        while i < n
            invariant
                self.wf(),
                n == draws@.len(),
                stored == self@.items.len(),
                stored > 0,
                total == total_of(self@.priorities),
                0 <= i <= n,
                items@.len() == i,
                indices@.len() == i,
                priorities@.len() == i,
                forall|j: int|
                    0 <= j < i ==> {
                        &&& (#[trigger] indices@[j]) < stored
                        &&& selects(
                            self@.priorities,
                            stratified_point(total as int, n as int, j, draws@[j] as int),
                            indices@[j] as int,
                        )
                        &&& cloned(self@.items[indices@[j] as int], items@[j])
                        &&& priorities@[j] == self@.priorities[indices@[j] as int]
                    },
                i > 0 ==> 0 <= least_at < i && priorities@[least_at] == least,
                forall|j: int| 0 <= j < i ==> least <= #[trigger] priorities@[j],
            decreases n - i,
        {
            let point: u128 = point_in_segment(total, n, i, draws[i]);
            let slot: usize = self.tree.sample(point);
            proof {
                if point > 0 {
                    lemma_selects_share(self@.priorities, point as int, slot as int);
                    if slot >= stored {
                        assert(self@.priorities[slot as int] == 0);
                    }
                } else {
                    if slot > 0 {
                        assert(crate::sums::prefix_sum(self@.priorities, 0int + 1) < 0);
                        crate::sums::lemma_range_sum_nonneg(self@.priorities, 0, 1);
                    }
                }
            }
            let priority: u64 = match self.tree.get(slot) {
                Some(p) => p,
                None => 0,
            };
            let item: T = self.items[slot].clone();
            if i == 0 || priority < least {
                least = priority;
                proof {
                    least_at = i as int;
                }
            }
            items.push(item);
            indices.push(slot);
            priorities.push(priority);
            i = i + 1;
        }
        let floor: u64 = match self.normalizer() {
            WeightNormalizer::All => self.least_stored(),
            WeightNormalizer::Batch => least,
        };
        let beta: u64 = self.beta();
        Ok(SampleBatch { items, indices, priorities, floor, total, stored, beta })
    }
}

impl<T: Clone> ReplayBuffer for PrioritizedReplayStore<T> {
    type Batch = SampleBatch<T>;

    open spec fn ready(&self) -> bool {
        self.wf()
    }

    fn batch(&mut self, draws: &Vec<u64>) -> (r: Result<SampleBatch<T>, ReplayError>)
        ensures
            *final(self) == *old(self),
            match r {
                Ok(batch) => draws@.len() > 0 && old(self)@.items.len() > 0 && old(self).drawn(
                    draws@,
                    batch,
                ),
                Err(e) => if draws@.len() == 0 {
                    e == ReplayError::EmptyBatch
                } else {
                    old(self)@.items.len() == 0 && e == ReplayError::BufferUnderfull
                },
            },
    {
        self.sample(draws)
    }

    fn update_priority(&mut self, indices: &Vec<usize>, priorities: &Vec<u64>) -> (r: Result<
        (),
        ReplayError,
    >)
        ensures
            match r {
                Ok(_) => update_fault(old(self)@.items.len(), indices@, priorities@) is None
                    && final(self)@ == if old(self)@.prioritized {
                    old(self)@.reprioritize_all(indices@, priorities@)
                } else {
                    old(self)@
                },
                Err(e) => update_fault(old(self)@.items.len(), indices@, priorities@) == Some(e)
                    && final(self)@ == old(self)@,
            },
    {
        self.update_priorities(indices, priorities)
    }
}

impl<T> PrioritizedReplayStore<T> {
    /// How the importance weights are normalized; by the whole store where
    /// sampling is uniform.
    pub fn normalizer(&self) -> (r: WeightNormalizer)
        ensures
            r == self.spec_normalizer(),
    {
        match &self.priority {
            Some(p) => p.normalizer,
            None => WeightNormalizer::All,
        }
    }

    /// The exponent that turns an error into a priority; one where sampling
    /// is uniform.
    pub fn alpha(&self) -> (r: u64)
        ensures
            r == self.spec_alpha(),
    {
        match &self.priority {
            Some(p) => p.alpha,
            None => EXPONENT_ONE,
        }
    }

    /// The importance-weight exponent of the current step; zero where sampling
    /// is uniform.
    pub fn beta(&self) -> (r: u64)
        requires
            self.wf(),
        ensures
            r == self.spec_beta(),
            r <= EXPONENT_ONE,
    {
        match &self.priority {
            Some(p) => p.scheduler.beta(),
            None => 0,
        }
    }

    /// Moves the schedule of the importance-weight exponent one step on and
    /// returns the exponent of the new step. Where sampling is uniform there
    /// is no schedule, and the exponent stays zero.
    pub fn advance(&mut self) -> (r: u64)
        requires
            old(self).wf(),
        ensures
            final(self).wf(),
            final(self)@ == old(self)@,
            final(self).spec_normalizer() == old(self).spec_normalizer(),
            final(self).spec_alpha() == old(self).spec_alpha(),
            final(self).spec_batch_size() == old(self).spec_batch_size(),
            final(self).spec_scheduler() == match old(self).spec_scheduler() {
                Some(s) => Some(s.spec_advance()),
                None => None,
            },
            r == final(self).spec_beta(),
            old(self).spec_beta() <= r <= EXPONENT_ONE,
    {
        match &mut self.priority {
            Some(p) => p.scheduler.advance(),
            None => 0,
        }
    }

    /// The least priority among the stored items, if there is any item.
    pub fn min_priority(&self) -> (r: Option<u64>)
        requires
            self.wf(),
        ensures
            match r {
                Some(v) => self@.items.len() > 0 && is_min_of(
                    v,
                    self@.priorities.take(self@.items.len() as int),
                ),
                None => self@.items.len() == 0,
            },
    {
        if self.items.len() == 0 {
            None
        } else {
            Some(self.least_stored())
        }
    }

    /// The least priority among the stored items.
    fn least_stored(&self) -> (r: u64)
        requires
            self.wf(),
            self@.items.len() > 0,
        ensures
            is_min_of(r, self@.priorities.take(self@.items.len() as int)),
    {
        let stored: usize = self.items.len();
        let ghost held: Seq<u64> = self@.priorities.take(stored as int);
        let mut least: u64 = match self.tree.get(0) {
            Some(p) => p,
            None => 0,
        };
        let ghost mut least_at: int = 0;
        let mut i: usize = 1;
        while i < stored
            invariant
                self.wf(),
                stored == self@.items.len(),
                held == self@.priorities.take(stored as int),
                1 <= i <= stored,
                0 <= least_at < i,
                held[least_at] == least,
                forall|j: int| 0 <= j < i ==> least <= #[trigger] held[j],
            decreases stored - i,
        {
            let priority: u64 = match self.tree.get(i) {
                Some(p) => p,
                None => 0,
            };
            if priority < least {
                least = priority;
                proof {
                    least_at = i as int;
                }
            }
            i = i + 1;
        }
        least
    }

    /// Gives the stored items in the slots of `indices` the priorities of
    /// `priorities`, pair by pair in order, and raises the largest priority
    /// seen so far to the largest of them. The lists are checked as a whole
    /// first, and nothing changes where they are refused. Where sampling is
    /// uniform the lists are checked and nothing changes.
    pub fn update_priorities(&mut self, indices: &Vec<usize>, priorities: &Vec<u64>) -> (r: Result<
        (),
        ReplayError,
    >)
        requires
            old(self).wf(),
        ensures
            final(self).wf(),
            final(self).spec_scheduler() == old(self).spec_scheduler(),
            final(self).spec_normalizer() == old(self).spec_normalizer(),
            final(self).spec_alpha() == old(self).spec_alpha(),
            final(self).spec_batch_size() == old(self).spec_batch_size(),
            match r {
                Ok(_) => update_fault(old(self)@.items.len(), indices@, priorities@) is None
                    && final(self)@ == if old(self)@.prioritized {
                    old(self)@.reprioritize_all(indices@, priorities@)
                } else {
                    old(self)@
                },
                Err(e) => update_fault(old(self)@.items.len(), indices@, priorities@) == Some(e)
                    && final(self)@ == old(self)@,
            },
    {
        let n: usize = indices.len();
        if priorities.len() != n {
            return Err(ReplayError::LengthMismatch);
        }
        let stored: usize = self.items.len();
        let mut i: usize = 0;
        while i < n
            invariant
                *self == *old(self),
                self.wf(),
                stored == self@.items.len(),
                n == indices@.len(),
                n == priorities@.len(),
                0 <= i <= n,
                forall|j: int| 0 <= j < i ==> #[trigger] indices@[j] < stored,
            decreases n - i,
        {
            if indices[i] >= stored {
                return Err(ReplayError::IndexOutOfRange);
            }
            i = i + 1;
        }
        if self.priority.is_none() {
            return Ok(());
        }
        i = 0;
        while i < n
            invariant
                self.wf(),
                n == indices@.len(),
                n == priorities@.len(),
                0 <= i <= n,
                stored == old(self)@.items.len(),
                old(self)@.prioritized,
                forall|j: int| 0 <= j < n ==> #[trigger] indices@[j] < stored,
                self@ == old(self)@.reprioritize_all(
                    indices@.take(i as int),
                    priorities@.take(i as int),
                ),
                self@.items == old(self)@.items,
                self.spec_scheduler() == old(self).spec_scheduler(),
                self.spec_normalizer() == old(self).spec_normalizer(),
                self.spec_alpha() == old(self).spec_alpha(),
                self.spec_batch_size() == old(self).spec_batch_size(),
            decreases n - i,
        {
            let ghost before = self@;
            let slot: usize = indices[i];
            let priority: u64 = priorities[i];
            let set = self.tree.set(slot, priority);
            assert(set is Ok);
            if priority > self.max_priority {
                self.max_priority = priority;
            }
            proof {
                lemma_reprioritize_keeps_wf(before, slot as int, priority);
                assert(indices@.take(i + 1).drop_last() =~= indices@.take(i as int));
                assert(priorities@.take(i + 1).drop_last() =~= priorities@.take(i as int));
                assert(self@ == before.reprioritize(slot as int, priority));
            }
            i = i + 1;
        }
        proof {
            assert(indices@.take(n as int) =~= indices@);
            assert(priorities@.take(n as int) =~= priorities@);
        }
        Ok(())
    }
}

} // verus!
