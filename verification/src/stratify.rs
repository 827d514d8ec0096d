//! Stratified draws: the total mass is cut into as many segments of equal
//! width as the batch has items, and each item is drawn from a segment of its
//! own.

use vstd::prelude::*;
use vstd::arithmetic::div_mod::{
    lemma_div_by_multiple, lemma_div_is_ordered, lemma_fundamental_div_mod, lemma_mod_bound,
};

verus! {

/// Where segment `i` of `batch` segments over the mass `total` starts:
/// `i * total / batch`, rounded down. Segment `i` ends where the next starts.
pub open spec fn segment_start(total: int, batch: int, i: int) -> int {
    (i * total) / batch
}

/// The point of segment `i` that the raw draw `draw` stands for: the draw is
/// folded into the segment's width. A segment of no width yields its start.
pub open spec fn stratified_point(total: int, batch: int, i: int, draw: int) -> int {
    let lo = segment_start(total, batch, i);
    let hi = segment_start(total, batch, i + 1);
    if hi > lo {
        lo + draw % (hi - lo)
    } else {
        lo
    }
}

/// The segments lie side by side: the first starts at zero, the last ends at
/// the total, and none starts before the one on its left.
pub proof fn law_segments_cover_the_mass(total: int, batch: int, i: int)
    requires
        total >= 0,
        batch > 0,
        0 <= i < batch,
    ensures
        segment_start(total, batch, 0) == 0,
        segment_start(total, batch, batch) == total,
        0 <= segment_start(total, batch, i) <= segment_start(total, batch, i + 1) <= total,
{
    assert(0 * total == 0);
    assert(0int / batch == 0) by (nonlinear_arith)
        requires
            batch > 0,
    ;
    assert(batch * total == total * batch) by (nonlinear_arith);
    lemma_div_by_multiple(total, batch);
    assert(0 <= i * total <= (i + 1) * total <= batch * total) by (nonlinear_arith)
        requires
            total >= 0,
            0 <= i < batch,
    ;
    lemma_div_is_ordered(0, i * total, batch);
    lemma_div_is_ordered(i * total, (i + 1) * total, batch);
    lemma_div_is_ordered((i + 1) * total, batch * total, batch);
}

/// A stratified point lies in its own segment, whatever the draw; so it lies
/// below the total wherever there is any mass.
pub proof fn law_point_lies_in_segment(total: int, batch: int, i: int, draw: int)
    requires
        total >= 0,
        batch > 0,
        0 <= i < batch,
        draw >= 0,
    ensures
        segment_start(total, batch, i) <= stratified_point(total, batch, i, draw),
        stratified_point(total, batch, i, draw) <= segment_start(total, batch, i + 1),
        segment_start(total, batch, i) < segment_start(total, batch, i + 1) ==> stratified_point(
            total,
            batch,
            i,
            draw,
        ) < segment_start(total, batch, i + 1),
        0 <= stratified_point(total, batch, i, draw) <= total,
        total > 0 ==> stratified_point(total, batch, i, draw) < total,
{
    law_segments_cover_the_mass(total, batch, i);
    let lo = segment_start(total, batch, i);
    let hi = segment_start(total, batch, i + 1);
    if hi > lo {
        lemma_mod_bound(draw, hi - lo);
    }
    if total > 0 {
        lemma_start_below_total(total, batch, i);
    }
}

/// Where there is any mass, every segment starts below the total.
proof fn lemma_start_below_total(total: int, batch: int, i: int)
    requires
        total > 0,
        batch > 0,
        0 <= i < batch,
    ensures
        segment_start(total, batch, i) < total,
{
    let x: int = i * total;
    let d: int = x / batch;
    assert(x < batch * total) by (nonlinear_arith)
        requires
            x == i * total,
            total > 0,
            0 <= i < batch,
    ;
    lemma_fundamental_div_mod(x, batch);
    lemma_mod_bound(x, batch);
    assert(d < total) by (nonlinear_arith)
        requires
            batch * d <= x,
            x < batch * total,
            batch > 0,
    ;
}

/// A segment start can be computed without the product of the segment's
/// number and the mass: from the quotient and the remainder of the mass by the
/// number of segments.
proof fn lemma_start_by_parts(total: int, batch: int, i: int)
    requires
        total >= 0,
        batch > 0,
        0 <= i <= batch,
    ensures
        segment_start(total, batch, i) == (total / batch) * i + ((total % batch) * i) / batch,
        0 <= (total / batch) * i <= total,
        0 <= (total % batch) * i <= (batch - 1) * batch,
        0 <= segment_start(total, batch, i) <= total,
{
    let q: int = total / batch;
    let r: int = total % batch;
    lemma_fundamental_div_mod(total, batch);
    lemma_mod_bound(total, batch);
    lemma_div_is_ordered(0, total, batch);
    assert(0int / batch == 0) by (nonlinear_arith)
        requires
            batch > 0,
    ;
    let x: int = r * i;
    assert(0 <= x <= (batch - 1) * batch) by (nonlinear_arith)
        requires
            x == r * i,
            0 <= r <= batch - 1,
            0 <= i <= batch,
    ;
    lemma_fundamental_div_mod(x, batch);
    lemma_mod_bound(x, batch);
    assert(i * total == (q * i + x / batch) * batch + x % batch) by (nonlinear_arith)
        requires
            total == batch * q + r,
            x == r * i,
            x == batch * (x / batch) + x % batch,
    ;
    vstd::arithmetic::div_mod::lemma_fundamental_div_mod_converse(
        i * total,
        batch,
        q * i + x / batch,
        x % batch,
    );
    assert(0 <= q * i <= total) by (nonlinear_arith)
        requires
            total == batch * q + r,
            q >= 0,
            r >= 0,
            0 <= i <= batch,
    ;
    assert(0 <= i * total <= batch * total) by (nonlinear_arith)
        requires
            total >= 0,
            0 <= i <= batch,
    ;
    assert(batch * total == total * batch) by (nonlinear_arith);
    lemma_div_by_multiple(total, batch);
    lemma_div_is_ordered(i * total, batch * total, batch);
    lemma_div_is_ordered(0, i * total, batch);
}

/// Where segment `i` starts.
pub fn segment_start_of(total: u128, batch: usize, i: usize) -> (r: u128)
    requires
        batch > 0,
        i <= batch,
    ensures
        r == segment_start(total as int, batch as int, i as int),
        r <= total,
{
    proof {
        lemma_start_by_parts(total as int, batch as int, i as int);
        assert((batch - 1) * batch <= 0xffff_ffff_ffff_ffff * 0xffff_ffff_ffff_ffff)
            by (nonlinear_arith)
            requires
                0 < batch <= 0xffff_ffff_ffff_ffff,
        ;
    }
    let parts: u128 = batch as u128;
    let whole: u128 = total / parts;
    let left: u128 = total % parts;
    whole * (i as u128) + (left * (i as u128)) / parts
}

/// The point of segment `i` that the raw draw `draw` stands for.
pub fn point_in_segment(total: u128, batch: usize, i: usize, draw: u64) -> (r: u128)
    requires
        i < batch,
    ensures
        r == stratified_point(total as int, batch as int, i as int, draw as int),
        r <= total,
        total > 0 ==> r < total,
{
    proof {
        law_point_lies_in_segment(total as int, batch as int, i as int, draw as int);
    }
    let lo: u128 = segment_start_of(total, batch, i);
    let hi: u128 = segment_start_of(total, batch, i + 1);
    if hi > lo {
        lo + (draw as u128) % (hi - lo)
    } else {
        lo
    }
}

} // verus!
