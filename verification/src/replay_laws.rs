//! What holds of the sum tree's draws and of the replay store, whatever the
//! priorities, the items and the order of the calls.

use vstd::prelude::*;
use vstd::arithmetic::div_mod::{
    lemma_basic_div, lemma_fundamental_div_mod, lemma_fundamental_div_mod_converse,
    lemma_mod_bound, lemma_small_mod,
};
use crate::config::WeightNormalizer;
use crate::layout::is_pow2;
use crate::replay::{
    lemma_push_all_keeps_wf, lemma_push_keeps_wf, PrioritizedReplayStore, SampleBatch, StoreModel,
};
use crate::sum_tree::{lemma_selects_share, selects, MAX_CAPACITY, PRIORITY_ONE};
use crate::stratify::{law_point_lies_in_segment, stratified_point};
use crate::sums::{lemma_prefix_sum_monotone, lemma_range_sum_nonneg, prefix_sum, total_of};

verus! {

/// A slot's share of the draws is its priority: a positive target within the
/// total mass falls on slot `i` exactly when it lies above the mass of the
/// slots before `i` and within the mass up to and including `i`.
pub proof fn law_share_is_priority(s: Seq<u64>, target: int, i: int)
    requires
        0 <= i < s.len(),
        0 < target <= total_of(s),
    ensures
        selects(s, target, i) <==> prefix_sum(s, i) < target <= prefix_sum(s, i + 1),
{
    if selects(s, target, i) {
        lemma_selects_share(s, target, i);
    }
    if prefix_sum(s, i) < target <= prefix_sum(s, i + 1) {
        assert forall|j: int| 0 <= j < i implies #[trigger] prefix_sum(s, j + 1) < target by {
            lemma_prefix_sum_monotone(s, j + 1, i);
        }
    }
}

/// A greater target never falls on an earlier slot.
pub proof fn law_greater_target_selects_later_slot(
    s: Seq<u64>,
    low: int,
    high: int,
    i: int,
    j: int,
)
    requires
        low <= high,
        selects(s, low, i),
        selects(s, high, j),
    ensures
        i <= j,
{
    if j < i {
        assert(prefix_sum(s, j + 1) < low);
    }
}

/// The target zero falls on the first slot.
pub proof fn law_zero_target_selects_first(s: Seq<u64>, i: int)
    requires
        s.len() > 0,
    ensures
        selects(s, 0, i) <==> i == 0,
{
    if selects(s, 0, i) && i > 0 {
        assert(prefix_sum(s, 0int + 1) < 0);
        lemma_range_sum_nonneg(s, 0, 1);
    }
    if i == 0 {
        lemma_range_sum_nonneg(s, 0, 1);
    }
}

/// Where every slot has the priority `p`, the first `n` slots weigh `n * p`.
pub proof fn lemma_prefix_sum_of_equals(s: Seq<u64>, p: u64, n: int)
    requires
        0 <= n <= s.len(),
        forall|k: int| 0 <= k < s.len() ==> s[k] == p,
    ensures
        prefix_sum(s, n) == n * p,
    decreases n,
{
    if n > 0 {
        lemma_prefix_sum_of_equals(s, p, n - 1);
        assert((n - 1) * p + p == n * p) by (nonlinear_arith);
    } else {
        assert(0 * p == 0);
    }
}

/// With equal priorities every slot gets the same share of the draws: slot
/// `i` is drawn by the targets above `i * p` up to `(i + 1) * p`, and by no
/// others.
pub proof fn law_equal_priorities_share_evenly(s: Seq<u64>, p: u64, target: int, i: int)
    requires
        p > 0,
        forall|k: int| 0 <= k < s.len() ==> s[k] == p,
        0 <= i < s.len(),
        0 < target <= s.len() * p,
    ensures
        selects(s, target, i) <==> i * p < target <= (i + 1) * p,
{
    lemma_prefix_sum_of_equals(s, p, s.len() as int);
    lemma_prefix_sum_of_equals(s, p, i);
    lemma_prefix_sum_of_equals(s, p, i + 1);
    law_share_is_priority(s, target, i);
}

/// A full store overwrites the slot under its cursor and no other: the new
/// item stands there, with the largest priority seen before the overwrite.
pub proof fn law_full_store_overwrites_cursor<T>(m: StoreModel<T>, x: T, i: int)
    requires
        m.wf(),
        m.items.len() == m.capacity,
        0 <= i < m.capacity,
    ensures
        m.push(x).items.len() == m.capacity,
        m.push(x).max_priority == m.max_priority,
        i == m.cursor ==> m.push(x).items[i] == x && m.push(x).priorities[i] == m.max_priority,
        i != m.cursor ==> m.push(x).items[i] == m.items[i] && m.push(x).priorities[i]
            == m.priorities[i],
{
}

/// Storing two lists one after the other is storing their concatenation.
pub proof fn law_push_all_concat<T>(m: StoreModel<T>, a: Seq<T>, b: Seq<T>)
    ensures
        m.push_all(a + b) == m.push_all(a).push_all(b),
    decreases b.len(),
{
    if b.len() == 0 {
        assert(a + b =~= a);
    } else {
        law_push_all_concat(m, a, b.drop_last());
        assert((a + b).drop_last() =~= a + b.drop_last());
        assert((a + b).last() == b.last());
    }
}

/// While there is room, nothing is lost and nothing is stored twice: the
/// stored items are the old ones followed by the new ones, in order.
pub proof fn law_no_item_lost<T>(m: StoreModel<T>, xs: Seq<T>)
    requires
        m.wf(),
        m.items.len() + xs.len() <= m.capacity,
    ensures
        m.push_all(xs).items == m.items + xs,
    decreases xs.len(),
{
    if xs.len() == 0 {
        assert(m.items + xs =~= m.items);
    } else {
        let front = xs.drop_last();
        law_no_item_lost(m, front);
        lemma_push_all_keeps_wf(m, front);
        let before = m.push_all(front);
        assert(before.items.len() < before.capacity);
        assert(before.push(xs.last()).items =~= m.items + xs);
    }
}

/// Whatever the order in which two batches arrive, while there is room the
/// store holds the same items, each as often as it came in.
pub proof fn law_arrival_order_keeps_the_items<T>(m: StoreModel<T>, a: Seq<T>, b: Seq<T>)
    requires
        m.wf(),
        m.items.len() + a.len() + b.len() <= m.capacity,
    ensures
        m.push_all(a).push_all(b).items.to_multiset() =~= m.push_all(b).push_all(
            a,
        ).items.to_multiset(),
        m.push_all(a).push_all(b).items.len() == m.items.len() + a.len() + b.len(),
{
    law_push_all_concat(m, a, b);
    law_push_all_concat(m, b, a);
    law_no_item_lost(m, a + b);
    law_no_item_lost(m, b + a);
    vstd::seq_lib::lemma_multiset_commutative(m.items, a + b);
    vstd::seq_lib::lemma_multiset_commutative(m.items, b + a);
    vstd::seq_lib::lemma_multiset_commutative(a, b);
    vstd::seq_lib::lemma_multiset_commutative(b, a);
}

/// The number, among the first `n` items stored in an empty ring of `cap`
/// slots, of the item that slot `i` holds: the latest whose number leaves
/// the remainder `i` when divided by `cap`.
pub open spec fn latest_in_slot(n: int, cap: int, i: int) -> int {
    i + cap * ((n - 1 - i) / cap)
}

/// How quotient and remainder move from a number to the next.
proof fn lemma_succ_div_mod(a: int, c: int)
    requires
        a >= 0,
        c > 0,
    ensures
        0 <= a % c < c,
        a % c + 1 == c ==> (a + 1) % c == 0 && (a + 1) / c == a / c + 1,
        a % c + 1 != c ==> (a + 1) % c == a % c + 1 && (a + 1) / c == a / c,
{
    lemma_fundamental_div_mod(a, c);
    lemma_mod_bound(a, c);
    let q: int = a / c;
    let r: int = a % c;
    if r + 1 == c {
        assert(a + 1 == (q + 1) * c + 0) by (nonlinear_arith)
            requires
                a == c * q + r,
                r + 1 == c,
        ;
        lemma_fundamental_div_mod_converse(a + 1, c, q + 1, 0);
    } else {
        assert(a + 1 == q * c + (r + 1)) by (nonlinear_arith)
            requires
                a == c * q + r,
        ;
        lemma_fundamental_div_mod_converse(a + 1, c, q, r + 1);
    }
}

/// How the item of a slot changes when the `n`-th item goes into the ring:
/// the slot under the cursor takes the new item, every other slot keeps its own.
proof fn lemma_latest_step(n: int, c: int, i: int)
    requires
        c > 0,
        n >= 1,
        0 <= i < c,
        i < n,
    ensures
        0 <= latest_in_slot(n, c, i) < n,
        n - 1 < c ==> latest_in_slot(n, c, i) == i,
        i == (n - 1) % c ==> latest_in_slot(n, c, i) == n - 1,
        i != (n - 1) % c && i < n - 1 ==> latest_in_slot(n, c, i) == latest_in_slot(n - 1, c, i),
{
    lemma_fundamental_div_mod(n - 1, c);
    lemma_mod_bound(n - 1, c);
    lemma_fundamental_div_mod(n - 1 - i, c);
    lemma_mod_bound(n - 1 - i, c);
    vstd::arithmetic::div_mod::lemma_div_pos_is_pos(n - 1 - i, c);
    let d: int = (n - 1 - i) / c;
    assert(c * d >= 0) by (nonlinear_arith)
        requires
            c > 0,
            d >= 0,
    ;
    if n - 1 < c {
        lemma_basic_div(n - 1 - i, c);
        assert(c * 0 == 0);
    }
    if i == (n - 1) % c {
        let q: int = (n - 1) / c;
        assert(n - 1 - i == q * c + 0) by (nonlinear_arith)
            requires
                n - 1 == c * q + i,
        ;
        lemma_fundamental_div_mod_converse(n - 1 - i, c, q, 0);
    } else if i < n - 1 {
        let b: int = n - 2 - i;
        lemma_succ_div_mod(b, c);
        if b % c + 1 == c {
            // then slot `i` would be the slot under the cursor
            lemma_fundamental_div_mod(b + 1, c);
            let k: int = (b + 1) / c;
            assert(n - 1 == k * c + i) by (nonlinear_arith)
                requires
                    b + 1 == c * k + 0,
                    b == n - 2 - i,
            ;
            lemma_fundamental_div_mod_converse(n - 1, c, k, i);
        }
    }
}

/// After `n` items have gone into an empty ring of `cap` slots, the ring
/// holds the last `cap` of them, or all where they are fewer; slot `i` holds
/// the latest item whose number leaves the remainder `i`; the cursor stands
/// at the slot of the next item; and every stored item has the priority one.
pub proof fn law_ring_holds_latest<T>(cap: nat, prioritized: bool, xs: Seq<T>)
    requires
        is_pow2(cap as int),
        cap <= MAX_CAPACITY,
    ensures
        ({
            let m = StoreModel::<T>::empty(cap, prioritized).push_all(xs);
            let n = xs.len() as int;
            &&& m.wf()
            &&& m.capacity == cap
            &&& m.max_priority == PRIORITY_ONE
            &&& m.items.len() == if n < cap {
                n
            } else {
                cap as int
            }
            &&& m.cursor == n % (cap as int)
            &&& forall|i: int|
                #![trigger m.items[i]]
                #![trigger m.priorities[i]]
                #![trigger latest_in_slot(n, cap as int, i)]
                0 <= i < m.items.len() ==> {
                    &&& 0 <= latest_in_slot(n, cap as int, i) < n
                    &&& m.items[i] == xs[latest_in_slot(n, cap as int, i)]
                    &&& m.priorities[i] == PRIORITY_ONE
                }
        }),
    decreases xs.len(),
{
    let e = StoreModel::<T>::empty(cap, prioritized);
    let c: int = cap as int;
    let n: int = xs.len() as int;
    assert(e.wf());
    if n == 0 {
        lemma_small_mod(0, cap);
    } else {
        let front = xs.drop_last();
        let x = xs.last();
        law_ring_holds_latest(cap, prioritized, front);
        let before = e.push_all(front);
        let m = before.push(x);
        assert(m == e.push_all(xs));
        lemma_push_keeps_wf(before, x);
        lemma_succ_div_mod(n - 1, c);
        if n - 1 < c {
            lemma_small_mod((n - 1) as nat, cap);
        }
        assert(before.cursor == (n - 1) % c);
        assert forall|i: int|
            #![trigger m.items[i]]
            #![trigger m.priorities[i]]
            #![trigger latest_in_slot(n, c, i)]
            0 <= i < m.items.len() implies {
            &&& 0 <= latest_in_slot(n, c, i) < n
            &&& m.items[i] == xs[latest_in_slot(n, c, i)]
            &&& m.priorities[i] == PRIORITY_ONE
        } by {
            lemma_latest_step(n, c, i);
            if i != before.cursor {
                assert(before.items[i] == front[latest_in_slot(n - 1, c, i)]);
            }
        }
    }
}

/// One item more than the ring has slots overwrites the oldest item, in the
/// first slot, once; every other slot keeps what it held.
pub proof fn law_one_past_capacity<T>(cap: nat, prioritized: bool, xs: Seq<T>)
    requires
        is_pow2(cap as int),
        cap <= MAX_CAPACITY,
        xs.len() == cap + 1,
    ensures
        ({
            let m = StoreModel::<T>::empty(cap, prioritized).push_all(xs);
            &&& m.items.len() == cap
            &&& m.items[0] == xs[cap as int]
            &&& forall|i: int| 1 <= i < cap ==> #[trigger] m.items[i] == xs[i]
            &&& m.priorities[0] == m.max_priority
            &&& m.cursor == if cap == 1 {
                0nat
            } else {
                1nat
            }
        }),
{
    let c: int = cap as int;
    let m = StoreModel::<T>::empty(cap, prioritized).push_all(xs);
    law_ring_holds_latest(cap, prioritized, xs);
    lemma_fundamental_div_mod_converse(c, c, 1, 0);
    assert(m.items[0] == xs[latest_in_slot(c + 1, c, 0)]);
    assert(c * 1 == c);
    assert forall|i: int| 1 <= i < cap implies #[trigger] m.items[i] == xs[i] by {
        lemma_basic_div(c - i, c);
        assert(c * 0 == 0);
        assert(m.items[i] == xs[latest_in_slot(c + 1, c, i)]);
    }
    if cap == 1 {
        lemma_fundamental_div_mod_converse(c + 1, c, 2, 0);
    } else {
        lemma_fundamental_div_mod_converse(c + 1, c, 1, 1);
    }
}

/// Priority updates leave the stored items, the cursor and the capacity
/// alone, and never lower the largest priority seen.
pub proof fn law_update_keeps_items<T>(m: StoreModel<T>, indices: Seq<usize>, priorities: Seq<u64>)
    requires
        indices.len() == priorities.len(),
        forall|k: int| 0 <= k < indices.len() ==> indices[k] < m.priorities.len(),
    ensures
        m.reprioritize_all(indices, priorities).items == m.items,
        m.reprioritize_all(indices, priorities).cursor == m.cursor,
        m.reprioritize_all(indices, priorities).capacity == m.capacity,
        m.reprioritize_all(indices, priorities).prioritized == m.prioritized,
        m.reprioritize_all(indices, priorities).priorities.len() == m.priorities.len(),
        m.reprioritize_all(indices, priorities).max_priority >= m.max_priority,
    decreases indices.len(),
{
    if indices.len() > 0 {
        law_update_keeps_items(m, indices.drop_last(), priorities.drop_last());
    }
}

/// A slot that no update names keeps its priority.
pub proof fn law_update_spares_other_slots<T>(
    m: StoreModel<T>,
    indices: Seq<usize>,
    priorities: Seq<u64>,
    slot: int,
)
    requires
        indices.len() == priorities.len(),
        forall|k: int| 0 <= k < indices.len() ==> indices[k] < m.priorities.len(),
        0 <= slot < m.priorities.len(),
        forall|k: int| 0 <= k < indices.len() ==> indices[k] != slot,
    ensures
        m.reprioritize_all(indices, priorities).priorities[slot] == m.priorities[slot],
    decreases indices.len(),
{
    if indices.len() > 0 {
        law_update_spares_other_slots(m, indices.drop_last(), priorities.drop_last(), slot);
        law_update_keeps_items(m, indices.drop_last(), priorities.drop_last());
        assert(indices.last() != slot);
    }
}

/// A slot that updates name has the priority of the last update that names it.
pub proof fn law_update_sets_priority<T>(
    m: StoreModel<T>,
    indices: Seq<usize>,
    priorities: Seq<u64>,
    k: int,
)
    requires
        indices.len() == priorities.len(),
        forall|j: int| 0 <= j < indices.len() ==> indices[j] < m.priorities.len(),
        0 <= k < indices.len(),
        forall|j: int| k < j < indices.len() ==> indices[j] != indices[k],
    ensures
        m.reprioritize_all(indices, priorities).priorities[indices[k] as int] == priorities[k],
    decreases indices.len(),
{
    let front_i = indices.drop_last();
    let front_p = priorities.drop_last();
    law_update_keeps_items(m, front_i, front_p);
    if k < indices.len() - 1 {
        law_update_sets_priority(m, front_i, front_p, k);
        assert(indices.last() != indices[k]);
    }
}

/// After priority updates the draws follow the new priorities: a positive
/// target within the new total falls on slot `slot` exactly when it lies in
/// the share that the slot's new priority gives it. A slot that no update
/// names has a share as wide as before.
pub proof fn law_draws_follow_updates<T>(
    m: StoreModel<T>,
    indices: Seq<usize>,
    priorities: Seq<u64>,
    target: int,
    slot: int,
)
    requires
        indices.len() == priorities.len(),
        forall|k: int| 0 <= k < indices.len() ==> indices[k] < m.priorities.len(),
        0 <= slot < m.priorities.len(),
        0 < target <= total_of(m.reprioritize_all(indices, priorities).priorities),
    ensures
        ({
            let after = m.reprioritize_all(indices, priorities).priorities;
            &&& selects(after, target, slot) <==> prefix_sum(after, slot) < target <= prefix_sum(
                after,
                slot,
            ) + after[slot]
            &&& (forall|k: int| 0 <= k < indices.len() ==> indices[k] != slot) ==> after[slot]
                == m.priorities[slot]
        }),
{
    let after = m.reprioritize_all(indices, priorities).priorities;
    law_update_keeps_items(m, indices, priorities);
    law_share_is_priority(after, target, slot);
    assert(prefix_sum(after, slot + 1) == prefix_sum(after, slot) + after[slot]);
    if forall|k: int| 0 <= k < indices.len() ==> indices[k] != slot {
        law_update_spares_other_slots(m, indices, priorities, slot);
    }
}

/// No normalized importance weight exceeds one, and one is reached: the
/// floor of a batch is at most the priority of each of its entries, and it is
/// the priority of a stored item, or of an entry of the batch where the
/// weights are normalized within the batch.
pub proof fn law_floor_bounds_weights<T: Clone>(
    store: PrioritizedReplayStore<T>,
    draws: Seq<u64>,
    batch: SampleBatch<T>,
    i: int,
)
    requires
        store.wf(),
        store.drawn(draws, batch),
        0 <= i < draws.len(),
    ensures
        batch.floor <= batch.priorities@[i],
        store.spec_normalizer() == WeightNormalizer::All ==> exists|j: int|
            0 <= j < store@.items.len() && #[trigger] store@.priorities[j] == batch.floor,
        store.spec_normalizer() == WeightNormalizer::Batch ==> exists|j: int|
            0 <= j < draws.len() && #[trigger] batch.priorities@[j] == batch.floor,
{
    let slot = batch.indices@[i];
    assert(slot < store@.items.len());
    match store.spec_normalizer() {
        WeightNormalizer::All => {
            let held = store@.priorities.take(store@.items.len() as int);
            assert(batch.floor <= held[slot as int]);
            let j = choose|j: int| 0 <= j < held.len() && #[trigger] held[j] == batch.floor;
            assert(store@.priorities[j] == batch.floor);
        },
        WeightNormalizer::Batch => {},
    }
}

/// The slots of a batch come in rising order, since its targets do: each
/// entry is drawn from a segment that lies to the right of the one before.
pub proof fn law_batch_slots_rise<T: Clone>(
    store: PrioritizedReplayStore<T>,
    draws: Seq<u64>,
    batch: SampleBatch<T>,
    i: int,
    j: int,
)
    requires
        store.wf(),
        store.drawn(draws, batch),
        0 <= i <= j < draws.len(),
    ensures
        batch.indices@[i] <= batch.indices@[j],
    decreases j - i,
{
    if i < j {
        let total = total_of(store@.priorities);
        let n = draws.len() as int;
        lemma_range_sum_nonneg(store@.priorities, 0, store@.priorities.len() as int);
        law_batch_slots_rise(store, draws, batch, i, j - 1);
        law_point_lies_in_segment(total, n, j - 1, draws[j - 1] as int);
        law_point_lies_in_segment(total, n, j, draws[j] as int);
        let a = batch.indices@[j - 1];
        let b = batch.indices@[j];
        law_greater_target_selects_later_slot(
            store@.priorities,
            stratified_point(total, n, j - 1, draws[j - 1] as int),
            stratified_point(total, n, j, draws[j] as int),
            a as int,
            b as int,
        );
    }
}

/// Where sampling is uniform every importance weight is one: each entry of a
/// batch has the priority one, which is the floor as well.
pub proof fn law_uniform_weights_are_one<T: Clone>(
    store: PrioritizedReplayStore<T>,
    draws: Seq<u64>,
    batch: SampleBatch<T>,
    i: int,
)
    requires
        store.wf(),
        !store@.prioritized,
        store.drawn(draws, batch),
        0 <= i < draws.len(),
    ensures
        batch.priorities@[i] == PRIORITY_ONE,
        batch.floor == PRIORITY_ONE,
{
    let slot = batch.indices@[i];
    assert(slot < store@.items.len());
    assert(store@.priorities[slot as int] == PRIORITY_ONE);
    law_floor_bounds_weights(store, draws, batch, i);
}

} // verus!
