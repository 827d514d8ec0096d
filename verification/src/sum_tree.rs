//! A complete binary tree of priorities in which every inner node holds the sum
//! of its two children, so that the total mass, a priority update and a draw
//! by mass each take a number of steps logarithmic in the capacity.

use vstd::prelude::*;
use crate::error::{ConfigError, ReplayError};
use crate::layout::{
    check_pow2, is_pow2, lemma_placed_children, lemma_placed_leaf, lemma_placed_parent,
    lemma_placed_root, lemma_placed_span, placed,
};
use crate::sums::{
    lemma_prefix_sum_monotone, lemma_range_sum_bound,
    lemma_range_sum_split, lemma_range_sum_update, lemma_range_sum_zeros, prefix_sum, range_sum,
    total_of,
};

verus! {

/// The largest capacity of a tree.
pub const MAX_CAPACITY: usize = 0x4000_0000;

/// The priority that stands for 1. Priorities are fixed-point numbers with
/// twenty fractional bits; a slot may carry any of them, and the sums are
/// kept in 128 bits so that no total overflows.
pub const PRIORITY_ONE: u64 = 0x10_0000;

/// Why a capacity is refused, if it is.
pub open spec fn capacity_fault(capacity: usize) -> Option<ConfigError> {
    if capacity == 0 {
        Some(ConfigError::ZeroCapacity)
    } else if !is_pow2(capacity as int) {
        Some(ConfigError::CapacityNotPowerOfTwo)
    } else if capacity > MAX_CAPACITY {
        Some(ConfigError::CapacityTooLarge)
    } else {
        None
    }
}

/// Slot `i` is the one that the mass `target` falls on: the first slot whose
/// prefix sum, itself included, reaches `target`, or the last slot where none
/// does. A target that equals a prefix sum belongs to the slot on the left.
pub open spec fn selects(s: Seq<u64>, target: int, i: int) -> bool {
    &&& 0 <= i < s.len()
    &&& forall|j: int| 0 <= j < i ==> #[trigger] prefix_sum(s, j + 1) < target
    &&& (target <= prefix_sum(s, i + 1) || i == s.len() - 1)
}

/// A target selects one slot only.
pub proof fn law_target_selects_one_slot(s: Seq<u64>, target: int, i: int, j: int)
    requires
        selects(s, target, i),
        selects(s, target, j),
    ensures
        i == j,
{
    if i < j {
        assert(prefix_sum(s, i + 1) < target);
    }
    if j < i {
        assert(prefix_sum(s, j + 1) < target);
    }
}

/// A positive target within the total mass selects a slot of positive priority,
/// and lies in that slot's own share of the mass.
pub proof fn lemma_selects_share(s: Seq<u64>, target: int, i: int)
    requires
        selects(s, target, i),
        0 < target <= total_of(s),
    ensures
        prefix_sum(s, i) < target <= prefix_sum(s, i + 1),
        s[i] > 0,
{
    if i > 0 {
        assert(prefix_sum(s, (i - 1) + 1) < target);
    }
    assert(prefix_sum(s, i + 1) == prefix_sum(s, i) + s[i]);
}

/// The inner node `k` holds the sum of its two children.
spec fn node_ok(nodes: Seq<u128>, k: int) -> bool {
    nodes[k] == nodes[2 * k + 1] + nodes[2 * k + 2]
}

/// The leaves of a tree over `cap` slots: the last `cap` nodes.
spec fn leaves_of(nodes: Seq<u128>, cap: int) -> Seq<u64> {
    Seq::new(cap as nat, |i: int| nodes[cap - 1 + i] as u64)
}

/// The array `nodes` is a sum tree over `cap` slots.
spec fn tree_ok(nodes: Seq<u128>, cap: int) -> bool {
    &&& is_pow2(cap)
    &&& cap <= MAX_CAPACITY
    &&& nodes.len() == 2 * cap - 1
    &&& forall|k: int| 0 <= k < cap - 1 ==> #[trigger] node_ok(nodes, k)
    &&& forall|j: int| cap - 1 <= j < 2 * cap - 1 ==> #[trigger] nodes[j] <= u64::MAX
}

/// `j` lies on the way from `k` up to the root, `k` itself left out.
spec fn above(j: int, k: int) -> bool
    decreases k,
{
    k > 0 && ((k - 1) / 2 == j || above(j, (k - 1) / 2))
}

/// In a sum tree a node holds the sum of the leaves that it spans.
proof fn lemma_node_sum(nodes: Seq<u128>, cap: int, k: int, m: int, q: int, w: int)
    requires
        tree_ok(nodes, cap),
        placed(cap, k, m, q, w),
    ensures
        0 <= k < nodes.len(),
        nodes[k] == range_sum(leaves_of(nodes, cap), q * w, q * w + w),
    decreases w,
{
    lemma_placed_span(cap, k, m, q, w);
    lemma_placed_leaf(cap, k, m, q, w);
    let leaves = leaves_of(nodes, cap);
    if w == 1 {
        assert(nodes[k] <= u64::MAX);
        assert(leaves[q] == nodes[k]);
        assert(range_sum(leaves, q, q + 1) == range_sum(leaves, q, q) + leaves[q]);
    } else {
        lemma_placed_children(cap, k, m, q, w);
        assert(node_ok(nodes, k));
        lemma_node_sum(nodes, cap, 2 * k + 1, 2 * m, 2 * q, w / 2);
        lemma_node_sum(nodes, cap, 2 * k + 2, 2 * m, 2 * q + 1, w / 2);
        lemma_range_sum_split(leaves, q * w, q * w + w / 2, q * w + w);
    }
}

/// The sum of the leaves that a node spans fits well inside 128 bits.
proof fn lemma_span_bound(leaves: Seq<u64>, cap: int, k: int, m: int, q: int, w: int)
    requires
        placed(cap, k, m, q, w),
        cap <= MAX_CAPACITY,
        leaves.len() == cap,
    ensures
        0 <= range_sum(leaves, q * w, q * w + w) <= 0x4000_0000 * 0xffff_ffff_ffff_ffff,
{
    lemma_placed_span(cap, k, m, q, w);
    assert forall|i: int| q * w <= i < q * w + w implies #[trigger] leaves[i]
        <= 0xffff_ffff_ffff_ffff by {
    }
    lemma_range_sum_bound(leaves, q * w, q * w + w, 0xffff_ffff_ffff_ffff);
    crate::sums::lemma_range_sum_nonneg(leaves, q * w, q * w + w);
    assert(w * 0xffff_ffff_ffff_ffff <= 0x4000_0000 * 0xffff_ffff_ffff_ffff) by (nonlinear_arith)
        requires
            0 <= w <= 0x4000_0000,
    ;
}

/// A sum tree over a fixed number of slots.
pub struct SumTree {
    capacity: usize,
    nodes: Vec<u128>,
}

impl View for SumTree {
    type V = Seq<u64>;

    /// The priorities of the slots, in slot order.
    closed spec fn view(&self) -> Seq<u64> {
        leaves_of(self.nodes@, self.capacity as int)
    }
}

impl SumTree {
    /// The nodes form a sum tree over the slots.
    pub closed spec fn inv(&self) -> bool {
        tree_ok(self.nodes@, self.capacity as int)
    }

    /// The value that node `k` holds. The nodes are numbered level by level
    /// from the root, which is node zero; the children of node `k` are the
    /// nodes `2 * k + 1` and `2 * k + 2`, and the slots are the last nodes.
    pub closed spec fn spec_node(&self, k: int) -> u128 {
        self.nodes@[k]
    }

    /// In a sound tree every inner node holds the sum of its two children.
    pub proof fn law_node_holds_sum_of_children(&self, k: int)
        requires
            self.wf(),
            0 <= k < self@.len() - 1,
        ensures
            self.spec_node(k) == self.spec_node(2 * k + 1) + self.spec_node(2 * k + 2),
    {
        assert(node_ok(self.nodes@, k));
    }

    /// In a sound tree the last nodes hold the priorities of the slots.
    pub proof fn law_leaf_holds_priority(&self, i: int)
        requires
            self.wf(),
            0 <= i < self@.len(),
        ensures
            self.spec_node(self@.len() - 1 + i) == self@[i],
    {
    }

    /// In a sound tree the root holds the total mass.
    pub proof fn law_root_holds_total(&self)
        requires
            self.wf(),
        ensures
            self.spec_node(0) == total_of(self@),
    {
        lemma_placed_root(self.capacity as int);
        lemma_node_sum(self.nodes@, self.capacity as int, 0, 1, 0, self.capacity as int);
        assert(0 * (self.capacity as int) == 0);
    }

    /// The tree is sound: its capacity is a power of two within the limit, and
    /// every inner node holds what it must.
    pub open spec fn wf(&self) -> bool {
        &&& self.inv()
        &&& is_pow2(self@.len() as int)
        &&& self@.len() <= MAX_CAPACITY
    }

    /// A tree over `capacity` slots, each of priority zero. The capacity must be
    /// a power of two and at most `MAX_CAPACITY`.
    pub fn new(capacity: usize) -> (r: Result<SumTree, ConfigError>)
        ensures
            match r {
                Ok(t) => capacity_fault(capacity) is None && t.wf() && t@ == Seq::new(
                    capacity as nat,
                    |i: int| 0u64,
                ),
                Err(e) => capacity_fault(capacity) == Some(e),
            },
    {
        if capacity == 0 {
            return Err(ConfigError::ZeroCapacity);
        }
        if !check_pow2(capacity) {
            return Err(ConfigError::CapacityNotPowerOfTwo);
        }
        if capacity > MAX_CAPACITY {
            return Err(ConfigError::CapacityTooLarge);
        }
        let nodes: Vec<u128> = vec![0u128; 2 * capacity - 1];
        let t = SumTree { capacity, nodes };
        proof {
            assert forall|k: int| 0 <= k < capacity - 1 implies #[trigger] node_ok(t.nodes@, k) by {
                assert(t.nodes@[k] == 0 && t.nodes@[2 * k + 1] == 0 && t.nodes@[2 * k + 2] == 0);
            }
            assert(t@ =~= Seq::new(capacity as nat, |i: int| 0u64));
        }
        Ok(t)
    }

    /// The number of slots.
    pub fn capacity(&self) -> (r: usize)
        requires
            self.wf(),
        ensures
            r == self@.len(),
    {
        self.capacity
    }

    /// The total mass: the sum of the priorities of all slots.
    pub fn total(&self) -> (r: u128)
        requires
            self.wf(),
        ensures
            r == total_of(self@),
    {
        proof {
            lemma_placed_root(self.capacity as int);
            lemma_node_sum(self.nodes@, self.capacity as int, 0, 1, 0, self.capacity as int);
            assert(0 * (self.capacity as int) == 0);
        }
        self.nodes[0]
    }

    /// The priority of slot `index`, if there is such a slot.
    pub fn get(&self, index: usize) -> (r: Option<u64>)
        requires
            self.wf(),
        ensures
            r == if index < self@.len() {
                Some(self@[index as int])
            } else {
                None
            },
    {
        if index < self.capacity {
            let held: u128 = self.nodes[self.capacity - 1 + index];
            assert(held <= u64::MAX);
            Some(held as u64)
        } else {
            None
        }
    }

    /// The slot that the mass `target_mass` falls on. The walk starts at the root
    /// and goes left where the target is at most the left child's mass; else it
    /// takes that mass off the target and goes right.
    pub fn sample(&self, target_mass: u128) -> (r: usize)
        requires
            self.wf(),
        ensures
            selects(self@, target_mass as int, r as int),
    {
        let cap: usize = self.capacity;
        let mut k: usize = 0;
        let mut rest: u128 = target_mass;
        let ghost mut m: int = 1;
        let ghost mut q: int = 0;
        let ghost mut w: int = cap as int;
        proof {
            lemma_placed_root(cap as int);
            assert(0 * (cap as int) == 0);
            lemma_placed_span(cap as int, 0, 1, 0, cap as int);
        }
        while k < cap - 1
            invariant
                cap == self.capacity,
                self.wf(),
                placed(cap as int, k as int, m, q, w),
                0 <= q * w,
                q * w + w <= cap,
                rest == target_mass - prefix_sum(self@, q * w),
                forall|j: int| 0 <= j < q * w ==> #[trigger] prefix_sum(self@, j + 1) < target_mass,
                target_mass <= prefix_sum(self@, q * w + w) || q * w + w == cap,
            decreases w,
        {
            let ghost lo: int = q * w;
            proof {
                lemma_placed_leaf(cap as int, k as int, m, q, w);
                lemma_placed_children(cap as int, k as int, m, q, w);
                lemma_node_sum(self.nodes@, cap as int, 2 * k + 1, 2 * m, 2 * q, w / 2);
                lemma_range_sum_split(self@, 0, lo, lo + w / 2);
            }
            let left: u128 = self.nodes[2 * k + 1];
            if rest <= left {
                k = 2 * k + 1;
                proof {
                    m = 2 * m;
                    q = 2 * q;
                    w = w / 2;
                }
            } else {
                proof {
                    assert forall|j: int| 0 <= j < lo + w / 2 implies #[trigger] prefix_sum(
                        self@,
                        j + 1,
                    ) < target_mass by {
                        lemma_prefix_sum_monotone(self@, j + 1, lo + w / 2);
                    }
                }
                rest = rest - left;
                k = 2 * k + 2;
                proof {
                    m = 2 * m;
                    q = 2 * q + 1;
                    w = w / 2;
                }
            }
        }
        proof {
            lemma_placed_leaf(cap as int, k as int, m, q, w);
        }
        k - (cap - 1)
    }

    /// Gives slot `index` the priority `priority`, and brings every node above
    /// it up to date. Nothing changes where there is no such slot.
    pub fn set(&mut self, index: usize, priority: u64) -> (r: Result<(), ReplayError>)
        requires
            old(self).wf(),
        ensures
            final(self).wf(),
            match r {
                Ok(_) => index < old(self)@.len() && final(self)@ == old(self)@.update(
                    index as int,
                    priority,
                ),
                Err(e) => final(self)@ == old(self)@ && index >= old(self)@.len() && e
                    == ReplayError::IndexOutOfRange,
            },
    {
        if index >= self.capacity {
            return Err(ReplayError::IndexOutOfRange);
        }
        let cap: usize = self.capacity;
        let ghost before: Seq<u128> = self.nodes@;
        let ghost target: Seq<u64> = self@.update(index as int, priority);
        let mut k: usize = cap - 1 + index;
        self.nodes[k] = priority as u128;
        let ghost mut m: int = cap as int;
        let ghost mut q: int = index as int;
        let ghost mut w: int = 1;
        proof {
            assert(leaves_of(self.nodes@, cap as int) =~= target);
            assert(range_sum(target, index as int, index + 1) == range_sum(
                target,
                index as int,
                index as int,
            ) + target[index as int]);
            assert forall|j: int| 0 <= j < cap - 1 && !above(j, k as int) implies #[trigger] node_ok(
                self.nodes@,
                j,
            ) by {
                assert(node_ok(before, j));
                assert((k - 1) / 2 != j);
            }
        }
        while k > 0
            invariant
                cap == self.capacity,
                self.nodes@.len() == 2 * cap - 1,
                tree_ok(before, cap as int),
                index < cap,
                target == leaves_of(before, cap as int).update(index as int, priority),
                placed(cap as int, k as int, m, q, w),
                k < 2 * cap - 1,
                q * w <= index < q * w + w,
                leaves_of(self.nodes@, cap as int) == target,
                forall|j: int|
                    cap - 1 <= j < 2 * cap - 1 ==> #[trigger] self.nodes@[j] <= u64::MAX,
                self.nodes@[k as int] == range_sum(target, q * w, q * w + w),
                forall|j: int|
                    (0 <= j < k || k < j < 2 * k + 1) && j < 2 * cap - 1 ==> #[trigger] self.nodes@[j]
                        == before[j],
                forall|j: int|
                    0 <= j < cap - 1 && !above(j, k as int) ==> #[trigger] node_ok(self.nodes@, j),
            decreases k,
        {
            let ghost child: int = k as int;
            let ghost prev: Seq<u128> = self.nodes@;
            let ghost lo: int = q * w;
            let p: usize = (k - 1) / 2;
            proof {
                lemma_placed_parent(cap as int, child, m, q, w);
                lemma_placed_span(cap as int, child, m, q, w);
                lemma_placed_span(cap as int, p as int, m / 2, q / 2, 2 * w);
                lemma_placed_children(cap as int, p as int, m / 2, q / 2, 2 * w);
                let old_leaves = leaves_of(before, cap as int);
                let plo: int = (q / 2) * (2 * w);
                lemma_span_bound(target, cap as int, p as int, m / 2, q / 2, 2 * w);
                lemma_range_sum_split(target, plo, plo + w, plo + 2 * w);
                if q % 2 == 0 {
                    // the sibling is the right child, untouched so far
                    let s: int = child + 1;
                    lemma_node_sum(before, cap as int, s, m, q + 1, w);
                    assert((q + 1) * w == lo + w) by (nonlinear_arith)
                        requires
                            lo == q * w,
                    ;
                    lemma_range_sum_update(old_leaves, lo + w, lo + 2 * w, index as int, priority);
                    assert(self.nodes@[s] == before[s]);
                } else {
                    // the sibling is the left child, untouched so far
                    let s: int = child - 1;
                    lemma_node_sum(before, cap as int, s, m, q - 1, w);
                    assert((q - 1) * w == lo - w) by (nonlinear_arith)
                        requires
                            lo == q * w,
                    ;
                    lemma_range_sum_update(old_leaves, lo - w, lo, index as int, priority);
                    assert(self.nodes@[s] == before[s]);
                }
            }
            let sum: u128 = self.nodes[2 * p + 1] + self.nodes[2 * p + 2];
            self.nodes[p] = sum;
            k = p;
            proof {
                assert(leaves_of(self.nodes@, cap as int) =~= target);
                assert forall|j: int| 0 <= j < cap - 1 && !above(j, p as int) implies #[trigger] node_ok(
                    self.nodes@,
                    j,
                ) by {
                    if j != p {
                        assert(!above(j, child));
                        assert(node_ok(prev, j));
                    }
                }
                m = m / 2;
                q = q / 2;
                w = 2 * w;
            }
        }
        proof {
            assert forall|j: int| 0 <= j < cap - 1 implies #[trigger] node_ok(self.nodes@, j) by {
                assert(!above(j, 0));
            }
        }
        Ok(())
    }
}

/// Changing one priority moves the total mass by the difference between the
/// new priority and the old one.
pub proof fn law_total_follows_set(s: Seq<u64>, index: int, priority: u64)
    requires
        0 <= index < s.len(),
    ensures
        total_of(s.update(index, priority)) == total_of(s) - s[index] + priority,
{
    lemma_range_sum_update(s, 0, s.len() as int, index, priority);
}

/// A tree whose priorities are all zero has no mass.
pub proof fn law_empty_tree_has_no_mass(s: Seq<u64>)
    requires
        forall|i: int| 0 <= i < s.len() ==> s[i] == 0,
    ensures
        total_of(s) == 0,
{
    lemma_range_sum_zeros(s, 0, s.len() as int);
}

} // verus!
