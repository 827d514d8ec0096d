//! Where a node of a complete binary tree, stored level by level in one array,
//! sits: on which level, at which place of it, and over which leaves.

use vstd::prelude::*;

verus! {

/// `n` is one of 1, 2, 4, 8, ...
pub open spec fn is_pow2(n: int) -> bool
    decreases n,
{
    n == 1 || (n > 1 && n % 2 == 0 && is_pow2(n / 2))
}

/// Node `k` of a tree over `cap` leaves is the `q`-th node of the level that
/// holds `m` nodes, each of which spans `w` leaves.
pub open spec fn placed(cap: int, k: int, m: int, q: int, w: int) -> bool {
    &&& is_pow2(m)
    &&& is_pow2(w)
    &&& m * w == cap
    &&& 0 <= q < m
    &&& k + 1 == m + q
}

/// The root is the only node of the level that spans every leaf.
pub proof fn lemma_placed_root(cap: int)
    requires
        is_pow2(cap),
    ensures
        placed(cap, 0, 1, 0, cap),
{
    assert(1 * cap == cap);
}

/// The leaves that a placed node spans lie inside the tree.
pub proof fn lemma_placed_span(cap: int, k: int, m: int, q: int, w: int)
    requires
        placed(cap, k, m, q, w),
    ensures
        w >= 1,
        m >= 1,
        0 <= q * w,
        q * w + w <= cap,
        0 <= k < 2 * cap - 1,
{
    assert(q * w >= 0) by (nonlinear_arith)
        requires
            q >= 0,
            w >= 1,
    ;
    assert(q * w + w <= m * w) by (nonlinear_arith)
        requires
            q + 1 <= m,
            w >= 1,
    ;
    assert(m <= m * w) by (nonlinear_arith)
        requires
            m >= 1,
            w >= 1,
    ;
}

/// A node that spans more than one leaf has two children on the next level,
/// each over one half of its leaves.
pub proof fn lemma_placed_children(cap: int, k: int, m: int, q: int, w: int)
    requires
        placed(cap, k, m, q, w),
        w > 1,
    ensures
        k < cap - 1,
        placed(cap, 2 * k + 1, 2 * m, 2 * q, w / 2),
        placed(cap, 2 * k + 2, 2 * m, 2 * q + 1, w / 2),
        (2 * q) * (w / 2) == q * w,
        (2 * q + 1) * (w / 2) == q * w + w / 2,
        w / 2 + w / 2 == w,
{
    assert(is_pow2(w / 2) && w % 2 == 0);
    assert((2 * m) / 2 == m);
    assert(is_pow2(2 * m));
    let h: int = w / 2;
    assert(w == 2 * h);
    assert((2 * m) * h == m * (2 * h)) by (nonlinear_arith);
    assert((2 * q) * h == q * (2 * h)) by (nonlinear_arith);
    assert((2 * q + 1) * h == q * (2 * h) + h) by (nonlinear_arith);
    assert(2 * m <= m * w) by (nonlinear_arith)
        requires
            m >= 1,
            w >= 2,
    ;
}

/// A node that spans one leaf is that leaf.
pub proof fn lemma_placed_leaf(cap: int, k: int, m: int, q: int, w: int)
    requires
        placed(cap, k, m, q, w),
    ensures
        w == 1 <==> k >= cap - 1,
        w == 1 ==> k == cap - 1 + q && q * w == q,
{
    if w == 1 {
        assert(m * 1 == m);
        assert(q * 1 == q);
    } else {
        lemma_placed_children(cap, k, m, q, w);
    }
}

/// Every node but the root has a parent one level up, which spans the node's
/// leaves and those of its sibling.
pub proof fn lemma_placed_parent(cap: int, k: int, m: int, q: int, w: int)
    requires
        placed(cap, k, m, q, w),
        k > 0,
    ensures
        m > 1,
        placed(cap, (k - 1) / 2, m / 2, q / 2, 2 * w),
        q % 2 == 0 ==> k == 2 * ((k - 1) / 2) + 1 && (q / 2) * (2 * w) == q * w,
        q % 2 == 1 ==> k == 2 * ((k - 1) / 2) + 2 && (q / 2) * (2 * w) == q * w - w,
{
    assert(m > 1);
    assert(m % 2 == 0 && is_pow2(m / 2));
    assert((2 * w) / 2 == w);
    assert(is_pow2(2 * w));
    let h: int = m / 2;
    let r: int = q / 2;
    assert(m == 2 * h);
    assert(h * (2 * w) == (2 * h) * w) by (nonlinear_arith);
    if q % 2 == 0 {
        assert(q == 2 * r);
        assert(r * (2 * w) == (2 * r) * w) by (nonlinear_arith);
    } else {
        assert(q == 2 * r + 1);
        assert(r * (2 * w) == (2 * r + 1) * w - w) by (nonlinear_arith);
    }
}

/// Tells whether `n` is a power of two.
pub fn check_pow2(n: usize) -> (r: bool)
    ensures
        r == is_pow2(n as int),
{
    if n == 0 {
        return false;
    }
    let mut rest: usize = n;
    while rest % 2 == 0
        invariant
            rest >= 1,
            is_pow2(rest as int) == is_pow2(n as int),
        decreases rest,
    {
        rest = rest / 2;
    }
    rest == 1
}

} // verus!
